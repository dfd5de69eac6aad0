//! Reading back what an instruction writes: the facts about numbers, words
//! and operands that the law on writing and reading instructions rests on.
use vstd::prelude::*;

use crate::base::{comparison_text, operation_text, Comparison, Operation};
use crate::instructions::notation::{index_text, instruction_text, target_text, value_text};
use crate::instructions::parsing::{
    accumulator_index, alpha_digits, alpha_spec, cell_name, cleaned, comparison_spec,
    valid_cell_name, is_ascii_letter, index_location, index_memory_cell_spec, is_gamma, line_spec, memory_cell_spec,
    operation_spec, parse_panics, part_range_spec, parts_spec, remove_pattern, target_spec, value_spec,
};
use crate::instructions::error_handling::ParseErrorV;
use crate::instructions::{IndexV, InstructionV, TargetV, ValueV};
use crate::text::{
    all_digits, decimal, decimal_i32, digit_char, digits_value, find, is_digit, is_ws,
    lemma_find_from, occurs_at, parse_i32_spec, parse_usize_spec, remove_first, tokens, tokens_from,
    word_end,
};

verus! {

/// A decimal numeral is a non-empty run of digits that denotes its number.
pub proof fn lemma_decimal(n: nat)
    ensures
        decimal(n).len() > 0,
        all_digits(decimal(n)),
        digits_value(decimal(n)) == n,
    decreases n,
{
    if n < 10 {
        let s = decimal(n);
        assert(s.drop_last() =~= Seq::<char>::empty());
        assert(digits_value(s.drop_last()) == 0);
    } else {
        lemma_decimal(n / 10);
        let s = decimal(n);
        assert(s.drop_last() =~= decimal(n / 10));
        assert(s.last() == digit_char((n % 10) as int));
    }
}

/// A text whose first character is not a digit, `+` or `-` is no number.
pub proof fn lemma_not_number(s: Seq<char>)
    requires
        s.len() > 0,
        !is_digit(s[0]),
        s[0] != '+',
        s[0] != '-',
    ensures
        parse_usize_spec(s) is None,
        parse_i32_spec(s) is None,
{
}

/// The decimal numeral of an index reads back as that index.
pub proof fn lemma_parse_decimal(n: usize)
    ensures
        parse_usize_spec(decimal(n as nat)) == Some(n),
{
    lemma_decimal(n as nat);
}

/// The decimal numeral of a constant reads back as that constant.
pub proof fn lemma_parse_decimal_i32(c: i32)
    ensures
        parse_i32_spec(decimal_i32(c)) == Some(c),
{
    if c < 0 {
        lemma_decimal((-c) as nat);
        assert(decimal_i32(c).drop_first() =~= decimal((-c) as nat));
    } else {
        lemma_decimal(c as nat);
    }
}

/// No character of `w` is white space.
pub open spec fn no_ws(w: Seq<char>) -> bool {
    forall|i: int| 0 <= i < w.len() ==> !is_ws(#[trigger] w[i])
}

proof fn lemma_word_end_shift(a: Seq<char>, b: Seq<char>, k: int)
    requires
        0 <= k <= b.len(),
    ensures
        word_end(a + b, a.len() + k) == a.len() + word_end(b, k),
    decreases b.len() - k,
{
    let s = a + b;
    if k < b.len() {
        assert(s[a.len() + k] == b[k]);
        if !is_ws(b[k]) {
            lemma_word_end_shift(a, b, k + 1);
        }
    }
}

proof fn lemma_tokens_shift(a: Seq<char>, b: Seq<char>, k: int)
    requires
        0 <= k <= b.len(),
    ensures
        tokens_from(a + b, a.len() + k) == tokens_from(b, k),
    decreases b.len() - k,
{
    let s = a + b;
    if k < b.len() {
        assert(s[a.len() + k] == b[k]);
        if is_ws(b[k]) {
            lemma_tokens_shift(a, b, k + 1);
        } else {
            crate::text::lemma_word_end(b, k);
            lemma_word_end_shift(a, b, k);
            let j = word_end(b, k);
            assert(s.subrange(a.len() + k, a.len() + j) =~= b.subrange(k, j));
            if j < b.len() {
                lemma_tokens_shift(a, b, j);
            } else {
                assert(tokens_from(s, a.len() + j) == Seq::<Seq<char>>::empty());
            }
        }
    }
}

proof fn lemma_word_end_word(w: Seq<char>, r: Seq<char>, i: int)
    requires
        0 <= i <= w.len(),
        no_ws(w),
        r.len() == 0 || is_ws(r[0]),
    ensures
        word_end(w + r, i) == w.len(),
    decreases w.len() - i,
{
    let s = w + r;
    if i < w.len() {
        assert(s[i] == w[i]);
        lemma_word_end_word(w, r, i + 1);
    } else if r.len() > 0 {
        assert(s[i] == r[0]);
    }
}

/// A word followed by a space and more text: the word, then the words of the rest.
pub proof fn lemma_tokens_word(w: Seq<char>, r: Seq<char>)
    requires
        w.len() > 0,
        no_ws(w),
    ensures
        tokens(w + seq![' '] + r) == seq![w] + tokens(r),
{
    let sp = seq![' '] + r;
    let s = w + sp;
    assert(w + seq![' '] + r =~= s);
    assert(s[0] == w[0]);
    lemma_word_end_word(w, sp, 0);
    assert(s.subrange(0, w.len() as int) =~= w);
    assert(s[w.len() as int] == ' ');
    lemma_tokens_shift(w, sp, 1);
    lemma_tokens_shift(seq![' '], r, 0);
    assert(is_ws(s[w.len() as int]));
    assert(tokens_from(s, w.len() as int) == tokens_from(s, w.len() + 1int));
    assert(tokens_from(s, w.len() + 1int) == tokens_from(sp, 1));
    assert(tokens_from(sp, 1) == tokens(r));
    assert(tokens(s) == seq![w] + tokens_from(s, w.len() as int));
}

/// The words of `x + y` are those of `x`, then those of `y`, where the
/// two meet at white space or one of them is empty.
pub open spec fn ws_boundary(x: Seq<char>, y: Seq<char>) -> bool {
    x.len() == 0 || y.len() == 0 || is_ws(x.last()) || is_ws(y[0])
}

proof fn lemma_word_end_split(x: Seq<char>, y: Seq<char>, i: int)
    requires
        0 <= i <= x.len(),
        ws_boundary(x, y),
    ensures
        i < x.len() ==> word_end(x + y, i) == word_end(x, i),
    decreases x.len() - i,
{
    let s = x + y;
    if i < x.len() {
        assert(s[i] == x[i]);
        if !is_ws(x[i]) {
            assert(word_end(s, i) == word_end(s, i + 1));
            assert(word_end(x, i) == word_end(x, i + 1));
            if i + 1 < x.len() {
                lemma_word_end_split(x, y, i + 1);
            } else {
                assert(x.last() == x[i]);
                assert(word_end(x, i + 1) == i + 1);
                if y.len() > 0 {
                    assert(s[i + 1] == y[0]);
                    assert(is_ws(y[0]));
                }
                assert(word_end(s, i + 1) == i + 1);
            }
        }
    }
}

proof fn lemma_tokens_from_split(x: Seq<char>, y: Seq<char>, i: int)
    requires
        0 <= i <= x.len(),
        ws_boundary(x, y),
    ensures
        tokens_from(x + y, i) == tokens_from(x, i) + tokens(y),
    decreases x.len() - i,
{
    let s = x + y;
    if i == x.len() {
        lemma_tokens_shift(x, y, 0);
        assert(tokens_from(x, i) + tokens(y) =~= tokens(y));
    } else {
        assert(s[i] == x[i]);
        if is_ws(x[i]) {
            lemma_tokens_from_split(x, y, i + 1);
        } else {
            crate::text::lemma_word_end(x, i);
            lemma_word_end_split(x, y, i);
            let j = word_end(x, i);
            assert(s.subrange(i, j) =~= x.subrange(i, j));
            lemma_tokens_from_split(x, y, j);
            assert(seq![x.subrange(i, j)] + (tokens_from(x, j) + tokens(y)) =~= seq![x.subrange(i, j)]
                + tokens_from(x, j) + tokens(y));
        }
    }
}

/// Text split at white space: its words are the words of each side.
pub proof fn lemma_tokens_split(x: Seq<char>, y: Seq<char>)
    requires
        ws_boundary(x, y),
    ensures
        tokens(x + y) == tokens(x) + tokens(y),
{
    lemma_tokens_from_split(x, y, 0);
}

/// White space alone has no words.
proof fn lemma_tokens_space()
    ensures
        tokens(" "@) == Seq::<Seq<char>>::empty(),
{
    reveal_strlit(" ");
    assert(is_ws(" "@[0]));
    assert(tokens_from(" "@, 1) == Seq::<Seq<char>>::empty());
}

/// The assignment sign between spaces is one word.
proof fn lemma_tokens_assign_sign()
    ensures
        tokens(" := "@) == seq![":="@],
        " := "@[0] == ' ',
        " := "@.last() == ' ',
{
    reveal_strlit(" := ");
    reveal_strlit(":=");
    reveal_strlit(" ");
    let x = " "@;
    let w = ":="@;
    assert(" := "@ =~= x + (w + x));
    lemma_keyword(w);
    lemma_tokens_space();
    lemma_tokens_single(w);
    lemma_tokens_split(w, x);
    lemma_tokens_split(x, w + x);
    assert(tokens(w + x) =~= seq![w]);
    assert(tokens(x + (w + x)) =~= seq![w]);
}

/// A single word is its only word.
pub proof fn lemma_tokens_single(w: Seq<char>)
    requires
        w.len() > 0,
        no_ws(w),
    ensures
        tokens(w) == seq![w],
{
    assert(w[0] == w[0]);
    lemma_word_end_word(w, Seq::empty(), 0);
    assert(w + Seq::<char>::empty() =~= w);
    assert(w.subrange(0, w.len() as int) =~= w);
    assert(tokens_from(w, w.len() as int) == Seq::<Seq<char>>::empty());
    assert(seq![w] + Seq::<Seq<char>>::empty() =~= seq![w]);
}

/// A memory cell name that reads back as itself: a valid name that names
/// no accumulator and not the gamma accumulator.
pub open spec fn plain_name(n: Seq<char>) -> bool {
    &&& valid_cell_name(n)
    &&& accumulator_index(n) is None
    &&& !is_gamma(n)
}

/// An index whose memory cell, if it names one, has a plain name.
pub open spec fn plain_index(t: IndexV) -> bool {
    t matches IndexV::MemoryCell(n) ==> plain_name(n)
}

/// A value whose memory cells have plain names.
pub open spec fn plain_value(v: ValueV) -> bool {
    match v {
        ValueV::MemoryCell(n) => plain_name(n),
        ValueV::IndexMemoryCell(t) => plain_index(t),
        _ => true,
    }
}

/// A target whose memory cells have plain names.
pub open spec fn plain_target(t: TargetV) -> bool {
    match t {
        TargetV::MemoryCell(n) => plain_name(n),
        TargetV::IndexMemoryCell(x) => plain_index(x),
        _ => true,
    }
}

proof fn lemma_cell_name(n: Seq<char>)
    requires
        forall|i: int| 0 <= i < n.len() ==> #[trigger] n[i] != '(' && n[i] != ')',
    ensures
        cell_name("p("@ + n + ")"@) == n,
{
    reveal_strlit("p(");
    reveal_strlit(")");
    reveal_strlit("ρ(");
    let s = "p("@ + n + ")"@;
    assert(s.subrange(0, 2) =~= "p("@);
    assert(occurs_at(s, "p("@, 0));
    assert(find(s, "p("@) == Some(0int));
    let t = n + ")"@;
    assert(remove_first(s, "p("@) =~= t);
    lemma_find_from(t, "ρ("@, 0);
    if find(t, "ρ("@) is Some {
        let k = find(t, "ρ("@)->0;
        assert(t.subrange(k, k + 2)[1] == '(');
        assert(t[k + 1] == '(');
        if k + 1 < n.len() {
            assert(t[k + 1] == n[k + 1]);
        }
    }
    assert(remove_first(t, "ρ("@) == t);
    lemma_find_from(t, ")"@, 0);
    assert(t.subrange(n.len() as int, n.len() + 1int) =~= ")"@);
    assert(occurs_at(t, ")"@, n.len() as int));
    let k = find(t, ")"@)->0;
    if k < n.len() {
        assert(t.subrange(k, k + 1)[0] == ')');
        assert(t[k] == n[k]);
    }
    assert(k == n.len());
    assert(remove_first(t, ")"@) =~= n);
}

/// The memory cell `p(n)` of a plain name reads back as `n`.
pub proof fn lemma_memory_cell(n: Seq<char>, r: (int, int))
    requires
        plain_name(n),
    ensures
        memory_cell_spec("p("@ + n + ")"@, r) == Ok::<Seq<char>, ParseErrorV>(n),
{
    reveal_strlit("p(");
    reveal_strlit(")");
    lemma_cell_name(n);
    let s = "p("@ + n + ")"@;
    assert(s.subrange(0, 2) =~= "p("@);
    assert("p("@.is_prefix_of(s));
    assert(s.last() == ')');
}

/// A text that does not end with `)` is neither a memory cell nor an index
/// memory cell.
pub proof fn lemma_no_cell(s: Seq<char>, r: (int, int))
    requires
        s.len() > 0,
        s.last() != ')',
    ensures
        memory_cell_spec(s, r) is Err,
        index_memory_cell_spec(s, r) is Err,
{
}

proof fn lemma_filter_keeps_all(s: Seq<char>, p: spec_fn(char) -> bool)
    requires
        forall|i: int| 0 <= i < s.len() ==> p(#[trigger] s[i]),
    ensures
        s.filter(p) == s,
    decreases s.len(),
{
    reveal(Seq::filter);
    if s.len() > 0 {
        lemma_filter_keeps_all(s.drop_last(), p);
        assert(s.drop_last().push(s.last()) =~= s);
    }
}

proof fn lemma_alpha_digits(d: Seq<char>)
    requires
        all_digits(d),
    ensures
        alpha_digits("a"@ + d) == d,
{
    reveal_strlit("a");
    let cs = seq!['a', 'α'];
    let p = |c: char| !cs.contains(c);
    assert forall|i: int| 0 <= i < d.len() implies p(#[trigger] d[i]) by {
        assert(is_digit(d[i]));
        if cs.contains(d[i]) {
            let j = choose|j: int| 0 <= j < cs.len() && cs[j] == d[i];
            assert(j == 0 || j == 1);
        }
    }
    lemma_filter_keeps_all(d, p);
    assert(cs[0] == 'a');
    assert(!p('a'));
    d.lemma_filter_prepend('a', p);
    assert("a"@ + d =~= seq!['a'] + d);
    assert(Seq::<char>::empty() + d =~= d);
}

/// The accumulator `a` followed by its index: what it reads back as.
pub proof fn lemma_accumulator_text(a: usize, r: (int, int))
    ensures
        ("a"@ + decimal(a as nat)).len() > 1,
        ("a"@ + decimal(a as nat))[0] == 'a',
        is_digit(("a"@ + decimal(a as nat)).last()),
        accumulator_index("a"@ + decimal(a as nat)) == Some(a),
        alpha_spec("a"@ + decimal(a as nat), r) == Ok::<usize, ParseErrorV>(a),
        parse_usize_spec("a"@ + decimal(a as nat)) is None,
        parse_i32_spec("a"@ + decimal(a as nat)) is None,
        !is_gamma("a"@ + decimal(a as nat)),
{
    let d = decimal(a as nat);
    let s = "a"@ + d;
    assert(s[0] == 'a' && s.len() > 1 && is_digit(s.last())) by {
        reveal_strlit("a");
        lemma_decimal(a as nat);
        assert(s.last() == d.last());
        assert(is_digit(d[d.len() - 1]));
    }
    assert(accumulator_index(s) == Some(a) && alpha_spec(s, r) == Ok::<usize, ParseErrorV>(a)) by {
        lemma_decimal(a as nat);
        lemma_parse_decimal(a);
        lemma_alpha_digits(d);
    }
    lemma_not_number(s);
    assert(!is_gamma(s)) by {
        reveal_strlit("y");
        reveal_strlit("γ");
    }
}

/// A numeral in brackets reads back as a direct index.
proof fn lemma_index_direct(i: usize, r: (int, int))
    ensures
        index_memory_cell_spec("p("@ + decimal(i as nat) + ")"@, r) == Ok::<IndexV, ParseErrorV>(IndexV::Direct(i)),
{
    reveal_strlit("p(");
    reveal_strlit(")");
    lemma_parse_decimal(i);
    let d = decimal(i as nat);
    let s = "p("@ + d + ")"@;
    assert(s.subrange(0, 2) =~= "p("@);
    assert(index_location(s) =~= d);
}

/// The index of an index memory cell reads back as itself.
pub proof fn lemma_index_cell(t: IndexV, r: (int, int))
    requires
        plain_index(t),
    ensures
        index_memory_cell_spec("p("@ + index_text(t) + ")"@, r) == Ok::<IndexV, ParseErrorV>(t),
{
    reveal_strlit("p(");
    reveal_strlit(")");
    reveal_strlit("y");
    reveal_strlit("γ");
    let loc = index_text(t);
    let s = "p("@ + loc + ")"@;
    assert(s.subrange(0, 2) =~= "p("@);
    assert(index_location(s) =~= loc);
    match t {
        IndexV::Direct(i) => {
            lemma_index_direct(i, r);
        },
        IndexV::Accumulator(a) => {
            lemma_accumulator_text(a, r);
            lemma_no_cell(loc, r);
        },
        IndexV::Gamma => {
            assert(loc.len() == 1 && loc[0] == 'y');
            lemma_not_number(loc);
            lemma_no_cell(loc, r);
        },
        IndexV::MemoryCell(n) => {
            lemma_memory_cell(n, r);
            assert(loc[0] == 'p');
            lemma_not_number(loc);
        },
        IndexV::Index(i) => {
            lemma_decimal(i as nat);
            let d = decimal(i as nat);
            assert(loc == "p("@ + d + ")"@);
            assert(loc[0] == 'p');
            lemma_not_number(loc);
            assert forall|k: int| 0 <= k < d.len() implies #[trigger] d[k] != '(' && d[k] != ')' by {
                assert(is_digit(d[k]));
            }
            lemma_cell_name(d);
            assert(!valid_cell_name(d)) by {
                if valid_cell_name(d) {
                    let k = choose|k: int| 0 <= k < d.len() && is_ascii_letter(#[trigger] d[k]);
                    assert(is_digit(d[k]));
                }
            }
            assert(memory_cell_spec(loc, r) is Err);
            assert(loc.len() > 2);
            lemma_index_direct(i, (r.0 + 2, r.1 - 1));
        },
    }
}

/// A valid memory cell name is no number.
proof fn lemma_name_not_number(n: Seq<char>)
    requires
        valid_cell_name(n),
    ensures
        parse_usize_spec(n) is None,
{
    let k = choose|k: int| 0 <= k < n.len() && is_ascii_letter(#[trigger] n[k]);
    if n.len() > 0 && n[0] == '+' {
        assert(k > 0);
        assert(n.drop_first()[k - 1] == n[k]);
    }
}

/// Digits are no white space.
proof fn lemma_digits_no_ws(d: Seq<char>)
    requires
        all_digits(d),
    ensures
        no_ws(d),
{
    assert forall|i: int| 0 <= i < d.len() implies !is_ws(#[trigger] d[i]) by {
        assert(is_digit(d[i]));
    }
}

/// A text in the brackets of a memory cell: no white space, a closing bracket last.
proof fn lemma_wrap(x: Seq<char>)
    requires
        no_ws(x),
    ensures
        no_ws("p("@ + x + ")"@),
        ("p("@ + x + ")"@).len() > 2,
        ("p("@ + x + ")"@).last() == ')',
        ("p("@ + x + ")"@)[0] == 'p',
{
    reveal_strlit("p(");
    reveal_strlit(")");
    let s = "p("@ + x + ")"@;
    assert forall|i: int| 0 <= i < s.len() implies !is_ws(#[trigger] s[i]) by {
        if 2 <= i < s.len() - 1 {
            assert(s[i] == x[i - 2]);
        }
    }
}

/// How an index is written: a non-empty word.
pub proof fn lemma_index_text(t: IndexV)
    requires
        plain_index(t),
    ensures
        index_text(t).len() > 0,
        no_ws(index_text(t)),
{
    reveal_strlit("a");
    reveal_strlit("y");
    match t {
        IndexV::Accumulator(a) => {
            lemma_decimal(a as nat);
            lemma_digits_no_ws(decimal(a as nat));
            let s = "a"@ + decimal(a as nat);
            assert forall|i: int| 0 <= i < s.len() implies !is_ws(#[trigger] s[i]) by {
                if i > 0 {
                    assert(s[i] == decimal(a as nat)[i - 1]);
                }
            }
        },
        IndexV::Direct(i) => {
            lemma_decimal(i as nat);
            lemma_digits_no_ws(decimal(i as nat));
        },
        IndexV::Gamma => {},
        IndexV::Index(i) => {
            lemma_decimal(i as nat);
            lemma_digits_no_ws(decimal(i as nat));
            lemma_wrap(decimal(i as nat));
        },
        IndexV::MemoryCell(n) => {
            lemma_wrap(n);
        },
    }
}

/// How an accumulator is written: a word that ends with a digit.
proof fn lemma_accumulator_word(a: usize)
    ensures
        no_ws("a"@ + decimal(a as nat)),
{
    reveal_strlit("a");
    lemma_decimal(a as nat);
    lemma_digits_no_ws(decimal(a as nat));
    let s = "a"@ + decimal(a as nat);
    assert forall|i: int| 0 <= i < s.len() implies !is_ws(#[trigger] s[i]) by {
        if i > 0 {
            assert(s[i] == decimal(a as nat)[i - 1]);
        }
    }
}

/// A value reads back as itself, and is written as one word that does not
/// end with `;`.
pub proof fn lemma_value(v: ValueV, r: (int, int))
    requires
        plain_value(v),
    ensures
        value_spec(value_text(v), r) == Ok::<ValueV, ParseErrorV>(v),
        value_text(v).len() > 0,
        no_ws(value_text(v)),
        value_text(v).last() != ';',
{
    reveal_strlit("y");
    reveal_strlit("γ");
    let s = value_text(v);
    match v {
        ValueV::Accumulator(a) => {
            lemma_accumulator_text(a, r);
            lemma_accumulator_word(a);
            lemma_no_cell(s, r);
        },
        ValueV::Gamma => {
            assert(s.len() == 1 && s[0] == 'y');
            lemma_not_number(s);
            lemma_no_cell(s, r);
        },
        ValueV::Constant(c) => {
            lemma_parse_decimal_i32(c);
            if c < 0 {
                lemma_decimal((-c) as nat);
                let d = decimal((-c) as nat);
                lemma_digits_no_ws(d);
                assert(s.last() == d.last());
                assert(is_digit(d[d.len() - 1]));
                assert forall|i: int| 0 <= i < s.len() implies !is_ws(#[trigger] s[i]) by {
                    if i > 0 {
                        assert(s[i] == d[i - 1]);
                    }
                }
            } else {
                lemma_decimal(c as nat);
                lemma_digits_no_ws(s);
                assert(is_digit(s[s.len() - 1]));
            }
            lemma_no_cell(s, r);
        },
        ValueV::MemoryCell(n) => {
            reveal_strlit("p(");
            reveal_strlit(")");
            lemma_wrap(n);
            lemma_memory_cell(n, r);
            assert(index_location(s) =~= n);
            lemma_name_not_number(n);
            assert(n.len() > 0);
            assert(n.last() != ')');
            lemma_no_cell(n, r);
            lemma_no_cell(n, (r.0 + 2, r.1 - 1));
            assert(index_memory_cell_spec(s, r) is Err);
        },
        ValueV::IndexMemoryCell(t) => {
            lemma_index_text(t);
            lemma_wrap(index_text(t));
            lemma_index_cell(t, r);
        },
    }
}

/// A target reads back as itself, and is written as one word that does not
/// end with `;`.
pub proof fn lemma_target(t: TargetV, r: (int, int))
    requires
        plain_target(t),
    ensures
        target_spec(target_text(t), r) == Ok::<TargetV, ParseErrorV>(t),
        target_text(t).len() > 0,
        no_ws(target_text(t)),
        target_text(t).last() != ';',
{
    let v = match t {
        TargetV::Accumulator(a) => ValueV::Accumulator(a),
        TargetV::Gamma => ValueV::Gamma,
        TargetV::MemoryCell(n) => ValueV::MemoryCell(n),
        TargetV::IndexMemoryCell(x) => ValueV::IndexMemoryCell(x),
    };
    lemma_value(v, r);
    assert(target_text(t) == value_text(v));
    if let TargetV::MemoryCell(n) = t {
        assert(index_memory_cell_spec(target_text(t), r) is Err);
    }
}

/// An operation is written as one character that reads back as it.
pub proof fn lemma_operation(op: Operation, r: (int, int))
    ensures
        operation_spec(operation_text(op), r) == Ok::<Operation, ParseErrorV>(op),
        operation_text(op).len() == 1,
        no_ws(operation_text(op)),
        operation_text(op).last() != ';',
{
    reveal_strlit("+");
    reveal_strlit("-");
    reveal_strlit("*");
    reveal_strlit("×");
    reveal_strlit("/");
    reveal_strlit("÷");
    reveal_strlit("%");
    let t = operation_text(op);
    assert("+"@[0] == '+' && "-"@[0] == '-' && "*"@[0] == '*' && "×"@[0] == '×');
    assert("/"@[0] == '/' && "÷"@[0] == '÷' && "%"@[0] == '%');
    match op {
        Operation::Add => assert(t[0] == '+'),
        Operation::Sub => assert(t[0] == '-'),
        Operation::Mul => assert(t[0] == '*'),
        Operation::Div => assert(t[0] == '/'),
        Operation::Mod => assert(t[0] == '%'),
    }
}

/// A comparison is written as a word that reads back as it.
pub proof fn lemma_comparison(c: Comparison, r: (int, int))
    ensures
        comparison_spec(comparison_text(c), r) == Ok::<Comparison, ParseErrorV>(c),
        comparison_text(c).len() > 0,
        no_ws(comparison_text(c)),
        comparison_text(c).last() != ';',
{
    reveal_strlit("<");
    reveal_strlit("<=");
    reveal_strlit("=<");
    reveal_strlit("≤");
    reveal_strlit("=");
    reveal_strlit("==");
    reveal_strlit("!=");
    reveal_strlit("≠");
    reveal_strlit(">=");
    reveal_strlit("=>");
    reveal_strlit("≥");
    reveal_strlit(">");
    let t = comparison_text(c);
    assert("<"@[0] == '<' && "<="@[0] == '<' && "<="@[1] == '=' && "=<"@[0] == '=');
    assert("≤"@[0] == '≤' && "="@[0] == '=' && "=="@[0] == '=' && "=="@[1] == '=');
    assert("!="@[0] == '!' && "≠"@[0] == '≠' && ">="@[0] == '>' && ">="@[1] == '=');
    assert("=>"@[0] == '=' && "=>"@[1] == '>' && "≥"@[0] == '≥' && ">"@[0] == '>');
    match c {
        Comparison::Lt => assert(t[0] == '<' && t.len() == 1),
        Comparison::Le => assert(t[0] == '<' && t[1] == '=' && t.len() == 2),
        Comparison::Eq => assert(t[0] == '=' && t[1] == '=' && t.len() == 2),
        Comparison::Neq => assert(t[0] == '!' && t.len() == 2),
        Comparison::Ge => assert(t[0] == '>' && t[1] == '=' && t.len() == 2),
        Comparison::Gt => assert(t[0] == '>' && t.len() == 1),
    }
}

/// A label that reads back as itself: a non-empty word that does not end with `;`.
pub open spec fn plain_label(l: Seq<char>) -> bool {
    l.len() > 0 && no_ws(l) && l.last() != ';'
}

/// An instruction that reads back as itself: every name in it is plain,
/// and it is not the empty instruction, which is written as nothing.
pub open spec fn plain_instruction(i: InstructionV) -> bool {
    match i {
        InstructionV::Assign(t, v) => plain_target(t) && plain_value(v),
        InstructionV::Calc(t, a, _, b) => plain_target(t) && plain_value(a) && plain_value(b),
        InstructionV::JumpIf(a, _, b, l) => plain_value(a) && plain_value(b) && plain_label(l),
        InstructionV::Goto(l) => plain_label(l),
        InstructionV::Call(l) => plain_label(l),
        InstructionV::Noop => false,
        _ => true,
    }
}

/// A part that does not end with `;` is left as it is.
proof fn lemma_clean(p: Seq<Seq<char>>)
    requires
        forall|k: int| 0 <= k < p.len() ==> (#[trigger] p[k]).len() > 0 && p[k].last() != ';',
    ensures
        cleaned(p) == p,
{
    assert(cleaned(p) =~= p);
}

/// The first word of a target is none of the words that start other instructions.
proof fn lemma_target_head(t: TargetV)
    requires
        plain_target(t),
    ensures
        target_text(t) != "if"@,
        target_text(t) != "goto"@,
        target_text(t) != "push"@,
        target_text(t) != "pop"@,
        target_text(t) != "call"@,
        target_text(t) != "return"@,
        !"stack"@.is_prefix_of(target_text(t)),
{
    reveal_strlit("if");
    reveal_strlit("goto");
    reveal_strlit("push");
    reveal_strlit("pop");
    reveal_strlit("call");
    reveal_strlit("return");
    reveal_strlit("stack");
    reveal_strlit("a");
    reveal_strlit("y");
    reveal_strlit("p(");
    let w = target_text(t);
    assert("if"@[0] == 'i' && "goto"@[0] == 'g' && "call"@[0] == 'c' && "return"@[0] == 'r');
    assert("push"@[1] == 'u' && "pop"@[1] == 'o' && "stack"@[0] == 's');
    match t {
        TargetV::Accumulator(a) => assert(w[0] == 'a'),
        TargetV::Gamma => assert(w[0] == 'y'),
        TargetV::MemoryCell(n) => assert(w[0] == 'p' && w[1] == '('),
        TargetV::IndexMemoryCell(x) => assert(w[0] == 'p' && w[1] == '('),
    }
    if "stack"@.is_prefix_of(w) {
        assert(w.subrange(0, 5)[0] == w[0]);
    }
}

proof fn lemma_keyword(w: Seq<char>)
    requires
        w == "if"@ || w == "goto"@ || w == "call"@ || w == ":="@ || w == "then"@ || w == "push"@
            || w == "pop"@ || w == "return"@,
    ensures
        w.len() > 0,
        no_ws(w),
        w.last() != ';',
{
    reveal_strlit("if");
    reveal_strlit("goto");
    reveal_strlit("call");
    reveal_strlit(":=");
    reveal_strlit("then");
    reveal_strlit("push");
    reveal_strlit("pop");
    reveal_strlit("return");
}

/// An assignment reads back as itself.
/// The cleaned words of the line `s` are `p`.
#[verifier::opaque]
spec fn words_are(s: Seq<char>, p: Seq<Seq<char>>) -> bool {
    cleaned(tokens(s)) == p
}

/// The words `p` spell the instruction `i`, and reading them does not fail
/// without an error.
#[verifier::opaque]
spec fn spells(p: Seq<Seq<char>>, i: InstructionV) -> bool {
    parts_spec(p) == Ok::<InstructionV, ParseErrorV>(i) && !parse_panics(p)
}

/// A line whose cleaned words spell an instruction reads as that instruction.
#[verifier::spinoff_prover]
proof fn lemma_line(s: Seq<char>, p: Seq<Seq<char>>, i: InstructionV)
    requires
        words_are(s, p),
        spells(p, i),
    ensures
        line_spec(s) == Ok::<InstructionV, ParseErrorV>(i),
        !parse_panics(cleaned(tokens(s))),
{
    reveal(words_are);
    reveal(spells);
}

#[verifier::spinoff_prover]
proof fn lemma_assign_line(t: TargetV, v: ValueV)
    requires
        plain_target(t),
        plain_value(v),
    ensures
        words_are(instruction_text(InstructionV::Assign(t, v)), seq![target_text(t), ":="@, value_text(v)]),
{
    reveal(words_are);
    let tt = target_text(t);
    let vv = value_text(v);
    lemma_target(t, (0, 0));
    lemma_value(v, (0, 0));
    lemma_keyword(":="@);
    lemma_tokens_assign_sign();
    reveal_strlit(" := ");
    let x1 = tt + " := "@;
    assert(instruction_text(InstructionV::Assign(t, v)) == x1 + vv);
    assert(x1.last() == " := "@.last());
    lemma_tokens_single(tt);
    lemma_tokens_single(vv);
    lemma_tokens_split(tt, " := "@);
    lemma_tokens_split(x1, vv);
    let p = seq![tt, ":="@, vv];
    assert(tokens(x1 + vv) =~= p);
    lemma_clean(p);
}

#[verifier::spinoff_prover]
proof fn lemma_assign_parts(t: TargetV, v: ValueV)
    requires
        plain_target(t),
        plain_value(v),
    ensures
        spells(seq![target_text(t), ":="@, value_text(v)], InstructionV::Assign(t, v)),
{
    reveal(spells);
    reveal_strlit(":=");
    let p = seq![target_text(t), ":="@, value_text(v)];
    lemma_target(t, part_range_spec(p, 0));
    lemma_value(v, part_range_spec(p, 2));
    lemma_target_head(t);
}

/// An assignment reads back as itself.
#[verifier::spinoff_prover]
pub proof fn lemma_read_assign(t: TargetV, v: ValueV)
    requires
        plain_target(t),
        plain_value(v),
    ensures
        line_spec(instruction_text(InstructionV::Assign(t, v))) == Ok::<InstructionV, ParseErrorV>(InstructionV::Assign(t, v)),
        !parse_panics(cleaned(tokens(instruction_text(InstructionV::Assign(t, v))))),
{
    lemma_assign_line(t, v);
    lemma_assign_parts(t, v);
    lemma_line(instruction_text(InstructionV::Assign(t, v)), seq![target_text(t), ":="@, value_text(v)], InstructionV::Assign(t, v));
}

#[verifier::spinoff_prover]
proof fn lemma_calc_words(t: TargetV, a: ValueV, op: Operation, b: ValueV)
    requires
        plain_target(t),
        plain_value(a),
        plain_value(b),
    ensures
        tokens(instruction_text(InstructionV::Calc(t, a, op, b))) == seq![
            target_text(t),
            ":="@,
            value_text(a),
            operation_text(op),
            value_text(b),
        ],
{
    let tt = target_text(t);
    let aa = value_text(a);
    let oo = operation_text(op);
    let bb = value_text(b);
    lemma_target(t, (0, 0));
    lemma_value(a, (0, 0));
    lemma_value(b, (0, 0));
    lemma_operation(op, (0, 0));
    lemma_tokens_assign_sign();
    lemma_tokens_space();
    reveal_strlit(" ");
    let x1 = tt + " := "@;
    let x2 = x1 + aa;
    let x3 = x2 + " "@;
    let x4 = x3 + oo;
    let x5 = x4 + " "@;
    assert(instruction_text(InstructionV::Calc(t, a, op, b)) == x5 + bb);
    reveal_strlit(" := ");
    assert(x1.last() == " := "@.last());
    assert(" "@.last() == ' ');
    assert(x3.last() == ' ');
    assert(x5.last() == ' ');
    lemma_tokens_single(tt);
    lemma_tokens_single(aa);
    lemma_tokens_single(oo);
    lemma_tokens_single(bb);
    lemma_tokens_split(tt, " := "@);
    lemma_tokens_split(x1, aa);
    lemma_tokens_split(x2, " "@);
    lemma_tokens_split(x3, oo);
    lemma_tokens_split(x4, " "@);
    lemma_tokens_split(x5, bb);
    assert(tokens(x5 + bb) =~= seq![tt, ":="@, aa, oo, bb]);
}

#[verifier::spinoff_prover]
proof fn lemma_parts_calc(p: Seq<Seq<char>>, t: TargetV, a: ValueV, op: Operation, b: ValueV)
    requires
        p.len() == 5,
        p[0] != "if"@ && p[0] != "goto"@ && p[0] != "push"@ && p[0] != "pop"@,
        p[0] != "call"@ && p[0] != "return"@ && !"stack"@.is_prefix_of(p[0]),
        p[0].len() > 0,
        p[1] == ":="@,
        target_spec(p[0], part_range_spec(p, 0)) == Ok::<TargetV, ParseErrorV>(t),
        value_spec(p[2], part_range_spec(p, 2)) == Ok::<ValueV, ParseErrorV>(a),
        operation_spec(p[3], part_range_spec(p, 3)) == Ok::<Operation, ParseErrorV>(op),
        value_spec(p[4], part_range_spec(p, 4)) == Ok::<ValueV, ParseErrorV>(b),
    ensures
        parts_spec(p) == Ok::<InstructionV, ParseErrorV>(InstructionV::Calc(t, a, op, b)),
        !parse_panics(p),
{
}

#[verifier::spinoff_prover]
proof fn lemma_calc_line(t: TargetV, a: ValueV, op: Operation, b: ValueV)
    requires
        plain_target(t),
        plain_value(a),
        plain_value(b),
    ensures
        words_are(instruction_text(InstructionV::Calc(t, a, op, b)), seq![target_text(t), ":="@, value_text(a), operation_text(op), value_text(b)]),
{
    reveal(words_are);
    let p = seq![target_text(t), ":="@, value_text(a), operation_text(op), value_text(b)];
    lemma_calc_words(t, a, op, b);
    lemma_target(t, (0, 0));
    lemma_value(a, (0, 0));
    lemma_value(b, (0, 0));
    lemma_operation(op, (0, 0));
    lemma_keyword(":="@);
    lemma_clean(p);
}

#[verifier::spinoff_prover]
proof fn lemma_calc_parts(t: TargetV, a: ValueV, op: Operation, b: ValueV)
    requires
        plain_target(t),
        plain_value(a),
        plain_value(b),
    ensures
        spells(seq![target_text(t), ":="@, value_text(a), operation_text(op), value_text(b)], InstructionV::Calc(t, a, op, b)),
{
    reveal(spells);
    let p = seq![target_text(t), ":="@, value_text(a), operation_text(op), value_text(b)];
    lemma_target(t, part_range_spec(p, 0));
    lemma_value(a, part_range_spec(p, 2));
    lemma_operation(op, part_range_spec(p, 3));
    lemma_value(b, part_range_spec(p, 4));
    lemma_keyword(":="@);
    lemma_target_head(t);
    lemma_parts_calc(p, t, a, op, b);
}

/// A calculation reads back as itself.
#[verifier::spinoff_prover]
pub proof fn lemma_read_calc(t: TargetV, a: ValueV, op: Operation, b: ValueV)
    requires
        plain_target(t),
        plain_value(a),
        plain_value(b),
    ensures
        line_spec(instruction_text(InstructionV::Calc(t, a, op, b))) == Ok::<InstructionV, ParseErrorV>(InstructionV::Calc(t, a, op, b)),
        !parse_panics(cleaned(tokens(instruction_text(InstructionV::Calc(t, a, op, b))))),
{
    lemma_calc_line(t, a, op, b);
    lemma_calc_parts(t, a, op, b);
    lemma_line(
        instruction_text(InstructionV::Calc(t, a, op, b)),
        seq![target_text(t), ":="@, value_text(a), operation_text(op), value_text(b)],
        InstructionV::Calc(t, a, op, b),
    );
}

#[verifier::spinoff_prover]
proof fn lemma_jump_words(a: ValueV, c: Comparison, b: ValueV, l: Seq<char>)
    requires
        plain_value(a),
        plain_value(b),
        plain_label(l),
    ensures
        tokens(instruction_text(InstructionV::JumpIf(a, c, b, l))) == seq![
            "if"@,
            value_text(a),
            comparison_text(c),
            value_text(b),
            "then"@,
            "goto"@,
            l,
        ],
{
    reveal_strlit("if ");
    reveal_strlit("if");
    reveal_strlit(" ");
    reveal_strlit(" then goto ");
    reveal_strlit("then");
    reveal_strlit("goto");
    let aa = value_text(a);
    let cc = comparison_text(c);
    let bb = value_text(b);
    lemma_value(a, (0, 0));
    lemma_value(b, (0, 0));
    lemma_comparison(c, (0, 0));
    lemma_keyword("if"@);
    lemma_keyword("then"@);
    lemma_keyword("goto"@);
    lemma_tokens_space();
    let sp = " "@;
    let kw_if = "if"@ + sp;
    let tail = sp + ("then"@ + (sp + ("goto"@ + sp)));
    assert("if "@ =~= kw_if);
    assert(" then goto "@ =~= tail);
    lemma_tokens_single("if"@);
    lemma_tokens_single("then"@);
    lemma_tokens_single("goto"@);
    lemma_tokens_single(aa);
    lemma_tokens_single(cc);
    lemma_tokens_single(bb);
    lemma_tokens_single(l);
    lemma_tokens_split("goto"@, sp);
    lemma_tokens_split(sp, "goto"@ + sp);
    lemma_tokens_split("then"@, sp + ("goto"@ + sp));
    lemma_tokens_split(sp, "then"@ + (sp + ("goto"@ + sp)));
    assert(tokens(tail) =~= seq!["then"@, "goto"@]);
    lemma_tokens_split("if"@, sp);
    assert(tokens(kw_if) =~= seq!["if"@]);
    let x1 = kw_if + aa;
    let x2 = x1 + sp;
    let x3 = x2 + cc;
    let x4 = x3 + sp;
    let x5 = x4 + bb;
    let x6 = x5 + tail;
    assert(instruction_text(InstructionV::JumpIf(a, c, b, l)) == x6 + l);
    assert(kw_if.last() == ' ' && x2.last() == ' ' && x4.last() == ' ' && tail[0] == ' ');
    assert(tail.last() == ' ');
    assert(x6.last() == ' ');
    lemma_tokens_split(kw_if, aa);
    lemma_tokens_split(x1, sp);
    lemma_tokens_split(x2, cc);
    lemma_tokens_split(x3, sp);
    lemma_tokens_split(x4, bb);
    lemma_tokens_split(x5, tail);
    lemma_tokens_split(x6, l);
    assert(tokens(x6 + l) =~= seq!["if"@, aa, cc, bb, "then"@, "goto"@, l]);
}

#[verifier::spinoff_prover]
proof fn lemma_parts_jump(p: Seq<Seq<char>>, a: ValueV, c: Comparison, b: ValueV, l: Seq<char>)
    requires
        p.len() == 7,
        p[0] == "if"@,
        p[4] == "then"@,
        p[5] == "goto"@,
        p[6] == l,
        value_spec(p[1], part_range_spec(p, 1)) == Ok::<ValueV, ParseErrorV>(a),
        comparison_spec(p[2], part_range_spec(p, 2)) == Ok::<Comparison, ParseErrorV>(c),
        value_spec(p[3], part_range_spec(p, 3)) == Ok::<ValueV, ParseErrorV>(b),
    ensures
        parts_spec(p) == Ok::<InstructionV, ParseErrorV>(InstructionV::JumpIf(a, c, b, l)),
        !parse_panics(p),
{
    reveal_strlit("if");
}

#[verifier::spinoff_prover]
proof fn lemma_jump_line(a: ValueV, c: Comparison, b: ValueV, l: Seq<char>)
    requires
        plain_value(a),
        plain_value(b),
        plain_label(l),
    ensures
        words_are(instruction_text(InstructionV::JumpIf(a, c, b, l)), seq!["if"@, value_text(a), comparison_text(c), value_text(b), "then"@, "goto"@, l]),
{
    reveal(words_are);
    let p = seq!["if"@, value_text(a), comparison_text(c), value_text(b), "then"@, "goto"@, l];
    lemma_jump_words(a, c, b, l);
    lemma_value(a, (0, 0));
    lemma_value(b, (0, 0));
    lemma_comparison(c, (0, 0));
    lemma_keyword("if"@);
    lemma_keyword("then"@);
    lemma_keyword("goto"@);
    lemma_clean(p);
}

#[verifier::spinoff_prover]
proof fn lemma_jump_parts(a: ValueV, c: Comparison, b: ValueV, l: Seq<char>)
    requires
        plain_value(a),
        plain_value(b),
        plain_label(l),
    ensures
        spells(seq!["if"@, value_text(a), comparison_text(c), value_text(b), "then"@, "goto"@, l], InstructionV::JumpIf(a, c, b, l)),
{
    reveal(spells);
    let p = seq!["if"@, value_text(a), comparison_text(c), value_text(b), "then"@, "goto"@, l];
    lemma_value(a, part_range_spec(p, 1));
    lemma_comparison(c, part_range_spec(p, 2));
    lemma_value(b, part_range_spec(p, 3));
    lemma_parts_jump(p, a, c, b, l);
}

/// A conditional jump reads back as itself.
#[verifier::spinoff_prover]
pub proof fn lemma_read_jump(a: ValueV, c: Comparison, b: ValueV, l: Seq<char>)
    requires
        plain_value(a),
        plain_value(b),
        plain_label(l),
    ensures
        line_spec(instruction_text(InstructionV::JumpIf(a, c, b, l))) == Ok::<InstructionV, ParseErrorV>(InstructionV::JumpIf(a, c, b, l)),
        !parse_panics(cleaned(tokens(instruction_text(InstructionV::JumpIf(a, c, b, l))))),
{
    lemma_jump_line(a, c, b, l);
    lemma_jump_parts(a, c, b, l);
    lemma_line(
        instruction_text(InstructionV::JumpIf(a, c, b, l)),
        seq!["if"@, value_text(a), comparison_text(c), value_text(b), "then"@, "goto"@, l],
        InstructionV::JumpIf(a, c, b, l),
    );
}

#[verifier::spinoff_prover]
proof fn lemma_jump_to_line(i: InstructionV, l: Seq<char>)
    requires
        i == InstructionV::Goto(l) || i == InstructionV::Call(l),
        plain_label(l),
    ensures
        words_are(instruction_text(i), seq![if i is Goto { "goto"@ } else { "call"@ }, l]),
{
    reveal(words_are);
    reveal_strlit("goto ");
    reveal_strlit("call ");
    reveal_strlit("goto");
    reveal_strlit("call");
    let w = if i is Goto { "goto"@ } else { "call"@ };
    lemma_keyword(w);
    assert(instruction_text(i) =~= w + seq![' '] + l);
    lemma_tokens_single(l);
    lemma_tokens_word(w, l);
    let p = seq![w, l];
    assert(tokens(instruction_text(i)) =~= p);
    lemma_clean(p);
}

#[verifier::spinoff_prover]
proof fn lemma_jump_to_parts(i: InstructionV, l: Seq<char>)
    requires
        i == InstructionV::Goto(l) || i == InstructionV::Call(l),
        plain_label(l),
    ensures
        spells(seq![if i is Goto { "goto"@ } else { "call"@ }, l], i),
{
    reveal(spells);
    reveal_strlit("goto");
    reveal_strlit("call");
    reveal_strlit("if");
    reveal_strlit("push");
    reveal_strlit("pop");
    assert("goto"@[0] == 'g' && "call"@[0] == 'c' && "if"@[0] == 'i' && "push"@[0] == 'p' && "pop"@[0] == 'p');
}

/// `goto` and `call` with a label read back as themselves.
#[verifier::spinoff_prover]
pub proof fn lemma_read_jump_to(i: InstructionV, l: Seq<char>)
    requires
        i == InstructionV::Goto(l) || i == InstructionV::Call(l),
        plain_label(l),
    ensures
        line_spec(instruction_text(i)) == Ok::<InstructionV, ParseErrorV>(i),
        !parse_panics(cleaned(tokens(instruction_text(i)))),
{
    lemma_jump_to_line(i, l);
    lemma_jump_to_parts(i, l);
    lemma_line(instruction_text(i), seq![if i is Goto { "goto"@ } else { "call"@ }, l], i);
}

/// `push`, `pop` and `return` read back as themselves.
#[verifier::spinoff_prover]
pub proof fn lemma_read_word(i: InstructionV)
    requires
        i == InstructionV::Push || i == InstructionV::Pop || i == InstructionV::Return,
    ensures
        line_spec(instruction_text(i)) == Ok::<InstructionV, ParseErrorV>(i),
        !parse_panics(cleaned(tokens(instruction_text(i)))),
{
    reveal_strlit("goto");
    reveal_strlit("call");
    reveal_strlit("if");
    reveal_strlit("push");
    reveal_strlit("pop");
    reveal_strlit("return");
    let w = instruction_text(i);
    lemma_keyword(w);
    lemma_tokens_single(w);
    let p = seq![w];
    lemma_clean(p);
    assert("goto"@[0] == 'g' && "call"@[0] == 'c' && "if"@[0] == 'i' && "push"@[0] == 'p');
    assert("pop"@[0] == 'p' && "return"@[0] == 'r' && "push"@.len() != "pop"@.len());
}

/// A stack operation reads back as itself.
#[verifier::spinoff_prover]
pub proof fn lemma_read_stack(op: Operation)
    ensures
        line_spec(instruction_text(InstructionV::StackOp(op))) == Ok::<InstructionV, ParseErrorV>(InstructionV::StackOp(op)),
        !parse_panics(cleaned(tokens(instruction_text(InstructionV::StackOp(op))))),
{
    reveal_strlit("goto");
    reveal_strlit("call");
    reveal_strlit("if");
    reveal_strlit("push");
    reveal_strlit("pop");
    reveal_strlit("return");
    reveal_strlit("stack");
    let o = operation_text(op);
    let w = "stack"@ + o;
    lemma_operation(op, (5, 4 + crate::text::utf8_len(o) as int));
    assert(instruction_text(InstructionV::StackOp(op)) == w);
    assert forall|k: int| 0 <= k < w.len() implies !is_ws(#[trigger] w[k]) by {
        if k == 5 {
            assert(w[k] == o[0]);
        }
    }
    assert(w.last() == o[0]);
    lemma_tokens_single(w);
    let p = seq![w];
    lemma_clean(p);
    assert(w[0] == 's' && w.len() == 6);
    assert("goto"@[0] == 'g' && "call"@[0] == 'c' && "if"@[0] == 'i' && "push"@[0] == 'p');
    assert("pop"@[0] == 'p' && "return"@[0] == 'r');
    assert(w.subrange(0, 5) =~= "stack"@);
    assert(w.skip(5) =~= o);
    assert("stack"@.is_prefix_of(w));
    assert(remove_pattern(o, "stack"@) == o);
    assert(remove_pattern(w, "stack"@) == remove_pattern(w.skip(5), "stack"@));
    assert(remove_pattern(w, "stack"@) == o);
}

} // verus!
