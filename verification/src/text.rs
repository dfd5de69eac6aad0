//! Character level helpers shared by the parser, the formatter and the
//! comment handling.
//!
//! Text is handled as sequences of `char`; the specifications speak of
//! `Seq<char>`, the view of `str` and `String`.
use vstd::prelude::*;

verus! {

/// The Unicode `White_Space` property, as used by `char::is_whitespace`.
pub open spec fn is_ws(c: char) -> bool {
    ||| ('\u{9}' <= c && c <= '\u{d}')
    ||| c == ' '
    ||| c == '\u{85}'
    ||| c == '\u{a0}'
    ||| c == '\u{1680}'
    ||| ('\u{2000}' <= c && c <= '\u{200a}')
    ||| c == '\u{2028}'
    ||| c == '\u{2029}'
    ||| c == '\u{202f}'
    ||| c == '\u{205f}'
    ||| c == '\u{3000}'
}

/// Tells whether `c` is white space (see [`is_ws`]).
pub fn is_whitespace(c: char) -> (res: bool)
    ensures
        res == is_ws(c),
{
    ('\u{9}' <= c && c <= '\u{d}') || c == ' ' || c == '\u{85}' || c == '\u{a0}' || c == '\u{1680}'
        || ('\u{2000}' <= c && c <= '\u{200a}') || c == '\u{2028}' || c == '\u{2029}' || c
        == '\u{202f}' || c == '\u{205f}' || c == '\u{3000}'
}

/// Collects the characters of `s` into a vector.
pub fn to_chars(s: &str) -> (res: Vec<char>)
    ensures
        res@ == s@,
{
    let mut res: Vec<char> = Vec::new();
    for c in it: s.chars()
        invariant
            res@ == it.seq().take(it.index() as int),
            it.seq() == s@,
    {
        res.push(c);
    }
    res
}

/// Builds a `String` holding exactly the characters of `v`.
///
/// Calls std's `FromIterator<&char>` for `String` (`Iterator::collect`); the
/// contract states that the string holds the collected characters in order.
#[verifier::external_body]
pub fn chars_to_string(v: &[char]) -> (res: String)
    ensures
        res@ == v@,
{
    v.iter().collect::<String>()
}

/// Number of bytes that `c` takes in UTF-8.
pub open spec fn char_utf8_len(c: char) -> nat {
    if (c as u32) < 0x80 {
        1
    } else if (c as u32) < 0x800 {
        2
    } else if (c as u32) < 0x10000 {
        3
    } else {
        4
    }
}

/// Number of bytes that `s` takes in UTF-8 (what `str::len` returns).
pub open spec fn utf8_len(s: Seq<char>) -> nat
    decreases s.len(),
{
    if s.len() == 0 {
        0
    } else {
        utf8_len(s.drop_last()) + char_utf8_len(s.last())
    }
}

/// A text is short enough for the arithmetic on byte positions; every
/// `str` of a running program is, as no allocation exceeds `isize::MAX`.
pub open spec fn fits(s: Seq<char>) -> bool {
    utf8_len(s) <= isize::MAX
}

pub proof fn lemma_utf8_len_at_least_len(s: Seq<char>)
    ensures
        utf8_len(s) >= s.len(),
        utf8_len(s) <= 4 * s.len(),
    decreases s.len(),
{
    if s.len() > 0 {
        lemma_utf8_len_at_least_len(s.drop_last());
    }
}

pub proof fn lemma_utf8_len_concat(a: Seq<char>, b: Seq<char>)
    ensures
        utf8_len(a + b) == utf8_len(a) + utf8_len(b),
    decreases b.len(),
{
    if b.len() == 0 {
        assert(a + b =~= a);
    } else {
        lemma_utf8_len_concat(a, b.drop_last());
        assert((a + b).drop_last() =~= a + b.drop_last());
    }
}

pub proof fn lemma_utf8_len_subrange(s: Seq<char>, i: int, j: int)
    requires
        0 <= i <= j <= s.len(),
    ensures
        utf8_len(s.subrange(i, j)) <= utf8_len(s),
{
    lemma_utf8_len_concat(s.subrange(0, i), s.subrange(i, j));
    lemma_utf8_len_concat(s.subrange(0, j), s.subrange(j, s.len() as int));
    assert(s.subrange(0, i) + s.subrange(i, j) =~= s.subrange(0, j));
    assert(s.subrange(0, j) + s.subrange(j, s.len() as int) =~= s);
}

/// Number of bytes of `c` in UTF-8.
pub fn char_len_utf8(c: char) -> (n: usize)
    ensures
        n == char_utf8_len(c),
{
    let u = c as u32;
    if u < 0x80 {
        1
    } else if u < 0x800 {
        2
    } else if u < 0x10000 {
        3
    } else {
        4
    }
}

/// Number of bytes of `s` in UTF-8.
pub fn str_len_utf8(s: &[char]) -> (n: usize)
    requires
        utf8_len(s@) <= usize::MAX,
    ensures
        n == utf8_len(s@),
{
    let mut n: usize = 0;
    let mut i: usize = 0;
    while i < s.len()
        invariant
            i <= s.len(),
            n == utf8_len(s@.take(i as int)),
            utf8_len(s@) <= usize::MAX,
        decreases s.len() - i,
    {
        proof {
            assert(s@.take(i + 1).drop_last() =~= s@.take(i as int));
            lemma_utf8_len_subrange(s@, 0, i + 1);
            assert(s@.take(i + 1) =~= s@.subrange(0, i + 1));
        }
        n = n + char_len_utf8(s[i]);
        i = i + 1;
    }
    assert(s@.take(s.len() as int) =~= s@);
    n
}


/// Number of bytes of `s` in UTF-8, whatever the length of `s`.
pub fn utf8_len_wide(s: &[char]) -> (n: u128)
    ensures
        n == utf8_len(s@),
{
    let mut n: u128 = 0;
    let mut i: usize = 0;
    while i < s.len()
        invariant
            i <= s.len(),
            n == utf8_len(s@.take(i as int)),
            n <= 4 * i,
        decreases s.len() - i,
    {
        proof {
            assert(s@.take(i + 1).drop_last() =~= s@.take(i as int));
        }
        let c = char_len_utf8(s[i]) as u128;
        n = n + c;
        i = i + 1;
    }
    assert(s@.take(s.len() as int) =~= s@);
    n
}

/// Index just past the run of non white space characters that starts at `i`.
pub open spec fn word_end(s: Seq<char>, i: int) -> int
    decreases s.len() - i,
{
    if i < 0 || i >= s.len() || is_ws(s[i]) {
        i
    } else {
        word_end(s, i + 1)
    }
}

pub proof fn lemma_word_end(s: Seq<char>, i: int)
    requires
        0 <= i <= s.len(),
    ensures
        i <= word_end(s, i) <= s.len(),
        i < s.len() && !is_ws(s[i]) ==> word_end(s, i) > i,
        forall|k: int| i <= k < word_end(s, i) ==> !is_ws(#[trigger] s[k]),
        word_end(s, i) < s.len() ==> is_ws(s[word_end(s, i)]),
    decreases s.len() - i,
{
    if i < s.len() && !is_ws(s[i]) {
        lemma_word_end(s, i + 1);
    }
}

/// The white space separated words of `s` from position `i` on, as
/// `str::split_whitespace` yields them.
pub open spec fn tokens_from(s: Seq<char>, i: int) -> Seq<Seq<char>>
    decreases s.len() - i,
{
    if i < 0 || i >= s.len() {
        Seq::empty()
    } else if is_ws(s[i]) {
        tokens_from(s, i + 1)
    } else {
        let j = word_end(s, i);
        proof {
            lemma_word_end(s, i);
        }
        seq![s.subrange(i, j)].add(tokens_from(s, j))
    }
}

/// The white space separated words of `s` (`str::split_whitespace`).
pub open spec fn tokens(s: Seq<char>) -> Seq<Seq<char>> {
    tokens_from(s, 0)
}

/// The views of a vector of character vectors.
pub open spec fn views(v: Seq<Vec<char>>) -> Seq<Seq<char>> {
    v.map_values(|w: Vec<char>| w@)
}

/// The characters of each string.
pub open spec fn string_views(v: Seq<String>) -> Seq<Seq<char>> {
    v.map_values(|w: String| w@)
}

/// The characters of each string slice.
pub open spec fn str_views(v: Seq<&str>) -> Seq<Seq<char>> {
    v.map_values(|w: &str| w@)
}

/// Splits `s` into its white space separated words.
pub fn split_whitespace(s: &[char]) -> (res: Vec<Vec<char>>)
    ensures
        views(res@) == tokens(s@),
{
    let mut res: Vec<Vec<char>> = Vec::new();
    let mut i: usize = 0;
    while i < s.len()
        invariant
            i <= s.len(),
            tokens(s@) == views(res@) + tokens_from(s@, i as int),
        decreases s.len() - i,
    {
        if is_whitespace(s[i]) {
            i = i + 1;
        } else {
            let start = i;
            let mut word: Vec<char> = Vec::new();
            proof {
                lemma_word_end(s@, start as int);
            }
            while i < s.len() && !is_whitespace(s[i])
                invariant
                    start <= i <= s.len(),
                    i <= word_end(s@, start as int),
                    word@ == s@.subrange(start as int, i as int),
                    forall|k: int| start <= k < word_end(s@, start as int) ==> !is_ws(#[trigger] s@[k]),
                    word_end(s@, start as int) <= s@.len(),
                    word_end(s@, start as int) < s@.len() ==> is_ws(s@[word_end(s@, start as int)]),
                decreases s.len() - i,
            {
                word.push(s[i]);
                i = i + 1;
            }
            proof {
                assert(i == word_end(s@, start as int));
                assert(views(res@.push(word)) =~= views(res@).push(word@));
                assert(tokens_from(s@, start as int) == seq![word@].add(tokens_from(s@, i as int)));
                assert(views(res@) + tokens_from(s@, start as int) =~= views(res@.push(word))
                    + tokens_from(s@, i as int));
            }
            res.push(word);
        }
    }
    assert(views(res@) + tokens_from(s@, i as int) =~= views(res@));
    res
}


/// `p` occurs in `s` at position `i`.
pub open spec fn occurs_at(s: Seq<char>, p: Seq<char>, i: int) -> bool {
    0 <= i && i + p.len() <= s.len() && s.subrange(i, i + p.len()) == p
}

/// Position of the first occurrence of `p` in `s` at or after `i` (`str::find`).
pub open spec fn find_from(s: Seq<char>, p: Seq<char>, i: int) -> Option<int>
    decreases s.len() + 1 - i,
{
    if i < 0 || i + p.len() > s.len() {
        None
    } else if occurs_at(s, p, i) {
        Some(i)
    } else {
        find_from(s, p, i + 1)
    }
}

/// Position of the first occurrence of `p` in `s` (`str::find`).
pub open spec fn find(s: Seq<char>, p: Seq<char>) -> Option<int> {
    find_from(s, p, 0)
}

pub proof fn lemma_find_from(s: Seq<char>, p: Seq<char>, i: int)
    requires
        0 <= i,
    ensures
        find_from(s, p, i) matches Some(k) ==> i <= k && occurs_at(s, p, k) && forall|m: int|
            i <= m < k ==> !occurs_at(s, p, m),
        find_from(s, p, i) is None ==> forall|m: int| i <= m ==> !occurs_at(s, p, m),
    decreases s.len() + 1 - i,
{
    if i + p.len() <= s.len() && !occurs_at(s, p, i) {
        lemma_find_from(s, p, i + 1);
    }
}

/// Tells whether `p` occurs in `s` at position `i`.
pub fn occurs_at_exec(s: &[char], p: &[char], i: usize) -> (res: bool)
    ensures
        res == occurs_at(s@, p@, i as int),
{
    if i > s.len() || p.len() > s.len() - i {
        return false;
    }
    let mut k: usize = 0;
    while k < p.len()
        invariant
            i + p.len() <= s.len(),
            k <= p.len(),
            forall|m: int| 0 <= m < k ==> s@[i + m] == p@[m],
        decreases p.len() - k,
    {
        if s[i + k] != p[k] {
            assert(s@.subrange(i as int, i + p@.len())[k as int] != p@[k as int]);
            return false;
        }
        k = k + 1;
    }
    assert(s@.subrange(i as int, i + p@.len()) =~= p@);
    true
}

/// Position of the first occurrence of `p` in `s` (`str::find`).
pub fn find_exec(s: &[char], p: &[char]) -> (res: Option<usize>)
    ensures
        res matches Some(k) ==> find(s@, p@) == Some(k as int),
        res is None ==> find(s@, p@) is None,
{
    if p.len() > s.len() {
        return None;
    }
    let last = s.len() - p.len();
    let mut i: usize = 0;
    while i <= last
        invariant
            last + p.len() == s.len(),
            i <= last + 1,
            find(s@, p@) == find_from(s@, p@, i as int),
        decreases last + 1 - i,
    {
        if occurs_at_exec(s, p, i) {
            return Some(i);
        }
        if i == last {
            assert(find_from(s@, p@, i + 1) is None);
            return None;
        }
        i = i + 1;
    }
    None
}

/// `s` without the first occurrence of `p` (`str::replacen(p, "", 1)`).
pub open spec fn remove_first(s: Seq<char>, p: Seq<char>) -> Seq<char> {
    match find(s, p) {
        Some(i) => s.take(i) + s.skip(i + p.len()),
        None => s,
    }
}

/// Appends `s[a..b]` to `out`.
pub fn push_range(out: &mut Vec<char>, s: &[char], a: usize, b: usize)
    requires
        a <= b <= s.len(),
    ensures
        final(out)@ == old(out)@ + s@.subrange(a as int, b as int),
{
    let mut k = a;
    while k < b
        invariant
            a <= k <= b <= s.len(),
            out@ == old(out)@ + s@.subrange(a as int, k as int),
        decreases b - k,
    {
        proof {
            assert(old(out)@ + s@.subrange(a as int, k + 1) =~= (old(out)@ + s@.subrange(
                a as int,
                k as int,
            )).push(s@[k as int]));
        }
        out.push(s[k]);
        k = k + 1;
    }
}

/// A copy of `s` in a new vector.
pub fn copy_chars(s: &[char]) -> (res: Vec<char>)
    ensures
        res@ == s@,
{
    let mut res: Vec<char> = Vec::new();
    push_range(&mut res, s, 0, s.len());
    assert(res@ =~= s@);
    res
}

/// Removes the first occurrence of `p` from `s`.
pub fn remove_first_exec(s: &[char], p: &[char]) -> (res: Vec<char>)
    ensures
        res@ == remove_first(s@, p@),
{
    proof {
        lemma_find_from(s@, p@, 0);
    }
    match find_exec(s, p) {
        Some(i) => {
            assert(occurs_at(s@, p@, i as int));
            assert(i + p@.len() <= s@.len());
            let sl = s.len();
            assert(sl == s@.len());
            let after: usize = i + p.len();
            let mut res: Vec<char> = Vec::new();
            push_range(&mut res, s, 0, i);
            push_range(&mut res, s, after, s.len());
            assert(res@ =~= s@.take(i as int) + s@.skip(i + p@.len()));
            res
        },
        None => copy_chars(s),
    }
}


/// Tells whether `p` is a prefix of `s` (`str::starts_with`).
pub fn starts_with(s: &[char], p: &[char]) -> (res: bool)
    ensures
        res == p@.is_prefix_of(s@),
{
    let r = occurs_at_exec(s, p, 0);
    proof {
        if r {
            assert(s@.subrange(0, p@.len() as int) =~= s@.take(p@.len() as int));
        } else if p@.len() <= s@.len() {
            assert(s@.subrange(0, p@.len() as int) =~= s@.take(p@.len() as int));
        }
    }
    r
}

/// Tells whether `p` is a suffix of `s` (`str::ends_with`).
pub fn ends_with(s: &[char], p: &[char]) -> (res: bool)
    ensures
        res == p@.is_suffix_of(s@),
{
    if p.len() > s.len() {
        return false;
    }
    let r = occurs_at_exec(s, p, s.len() - p.len());
    proof {
        assert(s@.subrange(s@.len() - p@.len(), s@.len() as int) =~= s@.skip(
            s@.len() - p@.len(),
        ));
    }
    r
}

/// Tells whether the characters of `s` are those of the literal `lit`.
pub fn eq_str(s: &[char], lit: &str) -> (res: bool)
    ensures
        res == (s@ == lit@),
{
    let l = to_chars(lit);
    if s.len() != l.len() {
        return false;
    }
    let r = occurs_at_exec(s, l.as_slice(), 0);
    proof {
        if r {
            assert(s@ =~= s@.subrange(0, l@.len() as int));
        } else {
            assert(s@ =~= s@.subrange(0, l@.len() as int));
        }
    }
    r
}

/// Tells whether the literal `lit` is a prefix of `s`.
pub fn starts_with_str(s: &[char], lit: &str) -> (res: bool)
    ensures
        res == lit@.is_prefix_of(s@),
{
    let l = to_chars(lit);
    starts_with(s, l.as_slice())
}

/// Index of the first non white space character at or after `i`.
pub open spec fn skip_ws(s: Seq<char>, i: int) -> int
    decreases s.len() - i,
{
    if i < 0 || i >= s.len() || !is_ws(s[i]) {
        i
    } else {
        skip_ws(s, i + 1)
    }
}

/// Index just past the last non white space character before `j`.
pub open spec fn trim_end_at(s: Seq<char>, j: int) -> int
    decreases j,
{
    if j <= 0 || j > s.len() || !is_ws(s[j - 1]) {
        j
    } else {
        trim_end_at(s, j - 1)
    }
}

/// `s` without leading and trailing white space (`str::trim`).
pub open spec fn trim(s: Seq<char>) -> Seq<char> {
    let a = skip_ws(s, 0);
    let b = trim_end_at(s, s.len() as int);
    if b <= a {
        Seq::empty()
    } else {
        s.subrange(a, b)
    }
}

proof fn lemma_skip_ws(s: Seq<char>, i: int)
    requires
        0 <= i <= s.len(),
    ensures
        i <= skip_ws(s, i) <= s.len(),
    decreases s.len() - i,
{
    if i < s.len() && is_ws(s[i]) {
        lemma_skip_ws(s, i + 1);
    }
}

proof fn lemma_trim_end_at(s: Seq<char>, j: int)
    requires
        0 <= j <= s.len(),
    ensures
        0 <= trim_end_at(s, j) <= j,
    decreases j,
{
    if j > 0 && is_ws(s[j - 1]) {
        lemma_trim_end_at(s, j - 1);
    }
}

proof fn lemma_trim_end_prefix(x: Seq<char>, w: Seq<char>, j: int)
    requires
        0 <= j <= x.len(),
    ensures
        trim_end_at(x + w, j) == trim_end_at(x, j),
    decreases j,
{
    if j > 0 {
        assert((x + w)[j - 1] == x[j - 1]);
        if is_ws(x[j - 1]) {
            lemma_trim_end_prefix(x, w, j - 1);
        }
    }
}

proof fn lemma_trim_end_over_ws(x: Seq<char>, w: Seq<char>, k: int)
    requires
        0 <= k <= w.len(),
        forall|i: int| 0 <= i < w.len() ==> is_ws(#[trigger] w[i]),
    ensures
        trim_end_at(x + w, x.len() + k) == trim_end_at(x, x.len() as int),
    decreases k,
{
    if k > 0 {
        assert((x + w)[x.len() + k - 1] == w[k - 1]);
        lemma_trim_end_over_ws(x, w, k - 1);
    } else {
        lemma_trim_end_prefix(x, w, x.len() as int);
    }
}

proof fn lemma_skip_ws_prefix(x: Seq<char>, w: Seq<char>, i: int)
    requires
        0 <= i <= x.len(),
    ensures
        skip_ws(x, i) < x.len() ==> skip_ws(x + w, i) == skip_ws(x, i),
        skip_ws(x, i) >= x.len() ==> skip_ws(x + w, i) >= x.len(),
    decreases x.len() - i,
{
    lemma_skip_ws(x, i);
    if i < x.len() {
        assert((x + w)[i] == x[i]);
        if is_ws(x[i]) {
            lemma_skip_ws_prefix(x, w, i + 1);
        }
    } else {
        lemma_skip_ws(x + w, i);
    }
}

/// White space after a text does not change the text trimmed.
pub proof fn lemma_trim_append_ws(x: Seq<char>, w: Seq<char>)
    requires
        forall|i: int| 0 <= i < w.len() ==> is_ws(#[trigger] w[i]),
    ensures
        trim(x + w) == trim(x),
{
    let s = x + w;
    lemma_trim_end_over_ws(x, w, w.len() as int);
    lemma_skip_ws_prefix(x, w, 0);
    lemma_skip_ws(x, 0);
    lemma_trim_end_at(x, x.len() as int);
    let a = skip_ws(x, 0);
    let b = trim_end_at(x, x.len() as int);
    if a >= x.len() {
        lemma_skip_ws_all(x, 0);
        lemma_trim_end_all_ws(x, x.len() as int);
    } else if a < b {
        assert(s.subrange(a, b) =~= x.subrange(a, b));
    }
}

proof fn lemma_trim_end_all_ws(s: Seq<char>, j: int)
    requires
        0 <= j <= s.len(),
        forall|k: int| 0 <= k < j ==> is_ws(#[trigger] s[k]),
    ensures
        trim_end_at(s, j) == 0,
    decreases j,
{
    if j > 0 {
        lemma_trim_end_all_ws(s, j - 1);
    }
}

proof fn lemma_skip_ws_all(s: Seq<char>, i: int)
    requires
        0 <= i <= s.len(),
    ensures
        forall|k: int| i <= k < skip_ws(s, i) ==> is_ws(#[trigger] s[k]),
    decreases s.len() - i,
{
    if i < s.len() && is_ws(s[i]) {
        lemma_skip_ws_all(s, i + 1);
    }
}

/// Removes leading and trailing white space.
pub fn trim_exec(s: &[char]) -> (res: Vec<char>)
    ensures
        res@ == trim(s@),
{
    let mut a: usize = 0;
    while a < s.len() && is_whitespace(s[a])
        invariant
            a <= s.len(),
            skip_ws(s@, 0) == skip_ws(s@, a as int),
        decreases s.len() - a,
    {
        a = a + 1;
    }
    let mut b: usize = s.len();
    while b > 0 && is_whitespace(s[b - 1])
        invariant
            b <= s.len(),
            trim_end_at(s@, s@.len() as int) == trim_end_at(s@, b as int),
        decreases b,
    {
        b = b - 1;
    }
    let mut res: Vec<char> = Vec::new();
    if a < b {
        push_range(&mut res, s, a, b);
    }
    assert(res@ =~= trim(s@));
    res
}

/// The words `parts` joined by single spaces (`[&str]::join(" ")`).
pub open spec fn join_space(parts: Seq<Seq<char>>) -> Seq<char>
    decreases parts.len(),
{
    if parts.len() == 0 {
        Seq::empty()
    } else if parts.len() == 1 {
        parts[0]
    } else {
        join_space(parts.drop_last()) + seq![' '] + parts.last()
    }
}

/// Joins `parts` with single spaces.
pub fn join_space_exec(parts: &Vec<Vec<char>>) -> (res: Vec<char>)
    ensures
        res@ == join_space(views(parts@)),
{
    let mut res: Vec<char> = Vec::new();
    let mut i: usize = 0;
    while i < parts.len()
        invariant
            i <= parts.len(),
            res@ == join_space(views(parts@).take(i as int)),
        decreases parts.len() - i,
    {
        let ghost before = res@;
        if i > 0 {
            res.push(' ');
        }
        let w = &parts[i];
        push_range(&mut res, w.as_slice(), 0, w.len());
        proof {
            let t = views(parts@).take(i + 1);
            assert(t.drop_last() =~= views(parts@).take(i as int));
            assert(w@.subrange(0, w@.len() as int) =~= w@);
            if i == 0 {
                assert(res@ =~= t[0]);
            } else {
                assert(res@ =~= before + seq![' '] + t.last());
            }
        }
        i = i + 1;
    }
    assert(views(parts@).take(parts.len() as int) =~= views(parts@));
    res
}

/// `s` without any character in `cs` (`str::replace(cs, "")`).
pub open spec fn remove_all(s: Seq<char>, cs: Seq<char>) -> Seq<char> {
    s.filter(|c: char| !cs.contains(c))
}

/// Removes every occurrence of the characters `x` and `y` from `s`.
pub fn remove_both(s: &[char], x: char, y: char) -> (res: Vec<char>)
    ensures
        res@ == remove_all(s@, seq![x, y]),
{
    let mut res: Vec<char> = Vec::new();
    let ghost cs = seq![x, y];
    let ghost pred = |c: char| !cs.contains(c);
    let mut i: usize = 0;
    while i < s.len()
        invariant
            i <= s.len(),
            cs == seq![x, y],
            pred == (|c: char| !cs.contains(c)),
            res@ == s@.take(i as int).filter(pred),
        decreases s.len() - i,
    {
        proof {
            reveal_with_fuel(Seq::<_>::filter, 1);
            assert(s@.take(i + 1).drop_last() =~= s@.take(i as int));
            assert(cs.contains(s@[i as int]) <==> (s@[i as int] == x || s@[i as int] == y)) by {
                if s@[i as int] == x {
                    assert(cs[0] == x);
                }
                if s@[i as int] == y {
                    assert(cs[1] == y);
                }
            }
        }
        if s[i] != x && s[i] != y {
            res.push(s[i]);
        }
        i = i + 1;
    }
    assert(s@.take(s.len() as int) =~= s@);
    res
}


/// `c` is one of the ASCII digits `0` to `9`.
pub open spec fn is_digit(c: char) -> bool {
    '0' <= c && c <= '9'
}

/// Value of the ASCII digit `c`.
pub open spec fn digit_value(c: char) -> int {
    (c as int) - ('0' as int)
}

/// Every character of `s` is an ASCII digit.
pub open spec fn all_digits(s: Seq<char>) -> bool {
    forall|i: int| 0 <= i < s.len() ==> is_digit(#[trigger] s[i])
}

/// The number that the decimal digits `s` denote.
pub open spec fn digits_value(s: Seq<char>) -> int
    decreases s.len(),
{
    if s.len() == 0 {
        0
    } else {
        10 * digits_value(s.drop_last()) + digit_value(s.last())
    }
}

/// The unsigned digits of a number literal: without a leading `+`.
pub open spec fn unsigned_digits(s: Seq<char>) -> Seq<char> {
    if s.len() > 0 && s[0] == '+' {
        s.drop_first()
    } else {
        s
    }
}

/// What `<usize as FromStr>::from_str` gives: an optional `+` followed by at
/// least one ASCII digit, of a value that fits.
pub open spec fn parse_usize_spec(s: Seq<char>) -> Option<usize> {
    let d = unsigned_digits(s);
    if d.len() > 0 && all_digits(d) && digits_value(d) <= usize::MAX {
        Some(digits_value(d) as usize)
    } else {
        None
    }
}

/// What `<i32 as FromStr>::from_str` gives: an optional `+` or `-` followed
/// by at least one ASCII digit, of a value that fits.
pub open spec fn parse_i32_spec(s: Seq<char>) -> Option<i32> {
    if s.len() > 0 && s[0] == '-' {
        let d = s.drop_first();
        if d.len() > 0 && all_digits(d) && digits_value(d) <= 0x8000_0000 {
            Some((-digits_value(d)) as i32)
        } else {
            None
        }
    } else {
        let d = unsigned_digits(s);
        if d.len() > 0 && all_digits(d) && digits_value(d) <= i32::MAX {
            Some(digits_value(d) as i32)
        } else {
            None
        }
    }
}

proof fn lemma_digits_value_nonneg(s: Seq<char>)
    requires
        all_digits(s),
    ensures
        digits_value(s) >= 0,
    decreases s.len(),
{
    if s.len() > 0 {
        assert(all_digits(s.drop_last())) by {
            assert forall|i: int| 0 <= i < s.drop_last().len() implies is_digit(
                #[trigger] s.drop_last()[i],
            ) by {
                assert(s.drop_last()[i] == s[i]);
            }
        }
        lemma_digits_value_nonneg(s.drop_last());
        assert(is_digit(s[s.len() - 1]));
    }
}

proof fn lemma_digits_value_prefix(s: Seq<char>, i: int)
    requires
        all_digits(s),
        0 <= i <= s.len(),
    ensures
        digits_value(s.take(i)) <= digits_value(s),
    decreases s.len() - i,
{
    if i < s.len() {
        let t = s.take(i + 1);
        assert(t.drop_last() =~= s.take(i));
        assert(all_digits(s.take(i))) by {
            assert forall|k: int| 0 <= k < s.take(i).len() implies is_digit(
                #[trigger] s.take(i)[k],
            ) by {
                assert(s.take(i)[k] == s[k]);
            }
        }
        lemma_digits_value_nonneg(s.take(i));
        assert(is_digit(s[i]));
        lemma_digits_value_prefix(s, i + 1);
    } else {
        assert(s.take(i) =~= s);
    }
}

/// Value of the ASCII digit `c`.
fn digit_of(c: char) -> (d: u64)
    requires
        is_digit(c),
    ensures
        d == digit_value(c),
        d <= 9,
{
    if c == '0' { 0 }
    else if c == '1' { 1 }
    else if c == '2' { 2 }
    else if c == '3' { 3 }
    else if c == '4' { 4 }
    else if c == '5' { 5 }
    else if c == '6' { 6 }
    else if c == '7' { 7 }
    else if c == '8' { 8 }
    else { 9 }
}

/// Value of the decimal digits `s[from..]`, or `None` when a character is
/// not a digit, there is no digit, or the value exceeds `limit`.
fn digits_up_to(s: &[char], from: usize, limit: u64) -> (res: Option<u64>)
    requires
        from <= s.len(),
    ensures
        ({
            let d = s@.skip(from as int);
            match res {
                Some(v) => d.len() > 0 && all_digits(d) && v == digits_value(d) && v <= limit,
                None => !(d.len() > 0 && all_digits(d) && digits_value(d) <= limit),
            }
        }),
{
    let ghost d = s@.skip(from as int);
    if from == s.len() {
        return None;
    }
    let mut k = from;
    while k < s.len()
        invariant
            from <= k <= s.len(),
            d == s@.skip(from as int),
            forall|m: int| 0 <= m < k - from ==> is_digit(#[trigger] d[m]),
        decreases s.len() - k,
    {
        if !('0' <= s[k] && s[k] <= '9') {
            assert(!is_digit(d[k - from]));
            return None;
        }
        k = k + 1;
    }
    assert(all_digits(d));
    let mut v: u64 = 0;
    let mut k = from;
    while k < s.len()
        invariant
            from <= k <= s.len(),
            d == s@.skip(from as int),
            all_digits(d),
            v == digits_value(d.take(k - from)),
            v <= limit,
        decreases s.len() - k,
    {
        proof {
            assert(d.take(k - from + 1).drop_last() =~= d.take(k - from));
            assert(d[k - from] == s@[k as int]);
        }
        let dg = digit_of(s[k]);
        if dg > limit || v > (limit - dg) / 10 {
            proof {
                if dg <= limit {
                    assert(10 * v + dg > limit) by (nonlinear_arith)
                        requires
                            v > (limit - dg) / 10,
                            dg <= limit,
                    ;
                }
                lemma_digits_value_prefix(d, k - from + 1);
            }
            return None;
        }
        proof {
            assert(10 * v + dg <= limit) by (nonlinear_arith)
                requires
                    v <= (limit - dg) / 10,
                    dg <= limit,
            ;
        }
        v = 10 * v + dg;
        k = k + 1;
    }
    assert(d.take(s.len() - from) =~= d);
    Some(v)
}

/// Parses `s` as `str::parse::<usize>` does.
pub fn parse_usize(s: &[char]) -> (res: Option<usize>)
    ensures
        res == parse_usize_spec(s@),
{
    let from: usize = if s.len() > 0 && s[0] == '+' { 1 } else { 0 };
    assert(unsigned_digits(s@) =~= s@.skip(from as int));
    let max: usize = usize::MAX;
    match digits_up_to(s, from, max as u64) {
        Some(v) => Some(v as usize),
        None => None,
    }
}

/// Parses `s` as `str::parse::<i32>` does.
pub fn parse_i32(s: &[char]) -> (res: Option<i32>)
    ensures
        res == parse_i32_spec(s@),
{
    if s.len() > 0 && s[0] == '-' {
        assert(s@.drop_first() =~= s@.skip(1));
        match digits_up_to(s, 1, 0x8000_0000) {
            Some(v) => {
                let r: i64 = 0 - (v as i64);
                Some(r as i32)
            },
            None => None,
        }
    } else {
        let from: usize = if s.len() > 0 && s[0] == '+' { 1 } else { 0 };
        assert(unsigned_digits(s@) =~= s@.skip(from as int));
        match digits_up_to(s, from, 0x7fff_ffff) {
            Some(v) => Some(v as i32),
            None => None,
        }
    }
}

/// The ASCII digit of `d`.
pub open spec fn digit_char(d: int) -> char {
    if d == 0 { '0' }
    else if d == 1 { '1' }
    else if d == 2 { '2' }
    else if d == 3 { '3' }
    else if d == 4 { '4' }
    else if d == 5 { '5' }
    else if d == 6 { '6' }
    else if d == 7 { '7' }
    else if d == 8 { '8' }
    else { '9' }
}

/// Decimal representation of `n` (`u64::to_string`).
pub open spec fn decimal(n: nat) -> Seq<char>
    decreases n,
{
    if n < 10 {
        seq![digit_char(n as int)]
    } else {
        decimal(n / 10) + seq![digit_char((n % 10) as int)]
    }
}

/// Decimal representation of `n` (`i32::to_string`).
pub open spec fn decimal_i32(n: i32) -> Seq<char> {
    if n < 0 {
        seq!['-'] + decimal((-n) as nat)
    } else {
        decimal(n as nat)
    }
}

fn digit_to_char(d: u64) -> (c: char)
    requires
        d <= 9,
    ensures
        c == digit_char(d as int),
{
    if d == 0 { '0' }
    else if d == 1 { '1' }
    else if d == 2 { '2' }
    else if d == 3 { '3' }
    else if d == 4 { '4' }
    else if d == 5 { '5' }
    else if d == 6 { '6' }
    else if d == 7 { '7' }
    else if d == 8 { '8' }
    else { '9' }
}

/// Appends the decimal representation of `n` to `out`.
pub fn push_decimal(out: &mut Vec<char>, n: u64)
    ensures
        final(out)@ == old(out)@ + decimal(n as nat),
    decreases n,
{
    if n >= 10 {
        push_decimal(out, n / 10);
    }
    out.push(digit_to_char(n % 10));
    proof {
        if n >= 10 {
            assert(final(out)@ =~= old(out)@ + decimal(n as nat));
        } else {
            assert(final(out)@ =~= old(out)@ + decimal(n as nat));
        }
    }
}

/// Appends the decimal representation of `n` to `out`.
pub fn push_decimal_i32(out: &mut Vec<char>, n: i32)
    ensures
        final(out)@ == old(out)@ + decimal_i32(n),
{
    if n < 0 {
        out.push('-');
        let m: i64 = 0 - (n as i64);
        push_decimal(out, m as u64);
        assert(final(out)@ =~= old(out)@ + decimal_i32(n));
    } else {
        push_decimal(out, n as u64);
    }
}


/// Appends the characters of `lit` to `out`.
pub fn push_str(out: &mut Vec<char>, lit: &str)
    ensures
        final(out)@ == old(out)@ + lit@,
{
    let c = to_chars(lit);
    push_range(out, c.as_slice(), 0, c.len());
    assert(c@.subrange(0, c@.len() as int) =~= c@);
}

/// Appends the characters of `s` to `out`.
pub fn push_all(out: &mut Vec<char>, s: &[char])
    ensures
        final(out)@ == old(out)@ + s@,
{
    push_range(out, s, 0, s.len());
    assert(s@.subrange(0, s@.len() as int) =~= s@);
}


/// `a` comes before `b` in the order of `str`: character by character, a
/// prefix first.
pub open spec fn lex_lt(a: Seq<char>, b: Seq<char>) -> bool
    decreases a.len(),
{
    if a.len() == 0 {
        b.len() > 0
    } else if b.len() == 0 {
        false
    } else if a[0] != b[0] {
        a[0] < b[0]
    } else {
        lex_lt(a.drop_first(), b.drop_first())
    }
}

/// `x` put into the sorted list `s` before the first element that does not
/// come before it.
pub open spec fn insert_sorted(s: Seq<Seq<char>>, x: Seq<char>) -> Seq<Seq<char>>
    decreases s.len(),
{
    if s.len() == 0 || !lex_lt(s[0], x) {
        seq![x] + s
    } else {
        seq![s[0]] + insert_sorted(s.drop_first(), x)
    }
}

/// The texts `s` in the order of `str`.
pub open spec fn sorted(s: Seq<Seq<char>>) -> Seq<Seq<char>>
    decreases s.len(),
{
    if s.len() == 0 {
        s
    } else {
        insert_sorted(sorted(s.drop_last()), s.last())
    }
}

/// The texts `parts` joined by line breaks (`[String]::join("\n")`).
pub open spec fn join_lines(parts: Seq<Seq<char>>) -> Seq<char>
    decreases parts.len(),
{
    if parts.len() == 0 {
        Seq::empty()
    } else if parts.len() == 1 {
        parts[0]
    } else {
        join_lines(parts.drop_last()) + seq!['\n'] + parts.last()
    }
}

/// Tells whether `a` comes before `b` in the order of `str`.
pub fn lex_lt_exec(a: &[char], b: &[char]) -> (res: bool)
    ensures
        res == lex_lt(a@, b@),
{
    let mut i: usize = 0;
    assert(a@.skip(0) =~= a@);
    assert(b@.skip(0) =~= b@);
    while i < a.len() && i < b.len() && a[i] == b[i]
        invariant
            i <= a.len(),
            i <= b.len(),
            lex_lt(a@, b@) == lex_lt(a@.skip(i as int), b@.skip(i as int)),
        decreases a.len() - i,
    {
        assert(a@.skip(i as int).drop_first() =~= a@.skip(i + 1));
        assert(b@.skip(i as int).drop_first() =~= b@.skip(i + 1));
        i = i + 1;
    }
    if i == a.len() {
        i < b.len()
    } else if i == b.len() {
        false
    } else {
        a[i] < b[i]
    }
}

proof fn lemma_insert_sorted_at(s: Seq<Seq<char>>, x: Seq<char>, i: int)
    requires
        0 <= i <= s.len(),
        forall|k: int| 0 <= k < i ==> lex_lt(#[trigger] s[k], x),
        i == s.len() || !lex_lt(s[i], x),
    ensures
        insert_sorted(s, x) == s.take(i) + seq![x] + s.skip(i),
    decreases i,
{
    if i == 0 {
        assert(s.take(0) + seq![x] + s.skip(0) =~= seq![x] + s);
    } else {
        lemma_insert_sorted_at(s.drop_first(), x, i - 1);
        assert(seq![s[0]] + (s.drop_first().take(i - 1) + seq![x] + s.drop_first().skip(i - 1)) =~= s.take(i)
            + seq![x] + s.skip(i));
    }
}

/// Sorts the texts `v` in the order of `str`.
pub fn sort_texts(v: &Vec<Vec<char>>) -> (res: Vec<Vec<char>>)
    ensures
        views(res@) == sorted(views(v@)),
{
    let mut res: Vec<Vec<char>> = Vec::new();
    let mut i: usize = 0;
    while i < v.len()
        invariant
            i <= v.len(),
            views(res@) == sorted(views(v@).take(i as int)),
        decreases v.len() - i,
    {
        let x = copy_chars(v[i].as_slice());
        let mut k: usize = 0;
        while k < res.len() && lex_lt_exec(res[k].as_slice(), x.as_slice())
            invariant
                k <= res.len(),
                forall|j: int| 0 <= j < k ==> lex_lt(#[trigger] views(res@)[j], x@),
            decreases res.len() - k,
        {
            assert(views(res@)[k as int] == res@[k as int]@);
            k = k + 1;
        }
        proof {
            if k < res.len() {
                assert(views(res@)[k as int] == res@[k as int]@);
            }
            lemma_insert_sorted_at(views(res@), x@, k as int);
            assert(views(v@).take(i + 1).drop_last() =~= views(v@).take(i as int));
        }
        let ghost before = res@;
        res.insert(k, x);
        assert(views(res@) =~= views(before).take(k as int) + seq![x@] + views(before).skip(k as int));
        i = i + 1;
    }
    assert(views(v@).take(v.len() as int) =~= views(v@));
    res
}

/// Joins `parts` with line breaks.
pub fn join_lines_exec(parts: &Vec<Vec<char>>) -> (res: Vec<char>)
    ensures
        res@ == join_lines(views(parts@)),
{
    let mut res: Vec<char> = Vec::new();
    let mut i: usize = 0;
    while i < parts.len()
        invariant
            i <= parts.len(),
            res@ == join_lines(views(parts@).take(i as int)),
        decreases parts.len() - i,
    {
        let ghost t = views(parts@).take(i + 1);
        assert(t.drop_last() =~= views(parts@).take(i as int));
        assert(t.last() == parts@[i as int]@);
        if i > 0 {
            res.push('\n');
        } else {
            assert(res@ =~= Seq::<char>::empty());
        }
        push_all(&mut res, parts[i].as_slice());
        proof {
            if i == 0 {
                assert(t =~= seq![parts@[0]@]);
            }
        }
        assert(res@ =~= join_lines(t));
        i = i + 1;
    }
    assert(views(parts@).take(parts.len() as int) =~= views(parts@));
    res
}


/// The pieces of `s` between the occurrences of `sep` (`str::split`).
pub open spec fn segments(s: Seq<char>, sep: char) -> Seq<Seq<char>>
    decreases s.len(),
{
    if s.len() == 0 {
        seq![Seq::empty()]
    } else if s.last() == sep {
        segments(s.drop_last(), sep).push(Seq::empty())
    } else {
        let segs = segments(s.drop_last(), sep);
        segs.update(segs.len() - 1, segs.last().push(s.last()))
    }
}

pub proof fn lemma_segments_nonempty(s: Seq<char>, sep: char)
    ensures
        segments(s, sep).len() >= 1,
    decreases s.len(),
{
    if s.len() > 0 {
        lemma_segments_nonempty(s.drop_last(), sep);
    }
}

/// Text without the separator is one segment.
pub proof fn lemma_segments_single(s: Seq<char>, sep: char)
    requires
        forall|i: int| 0 <= i < s.len() ==> #[trigger] s[i] != sep,
    ensures
        segments(s, sep) == seq![s],
    decreases s.len(),
{
    if s.len() > 0 {
        lemma_segments_single(s.drop_last(), sep);
        assert(s.drop_last().push(s.last()) =~= s);
    } else {
        assert(s =~= Seq::<char>::empty());
    }
}

/// Text without a line feed is one line.
pub proof fn lemma_text_lines_single(s: Seq<char>)
    requires
        s.len() > 0,
        forall|i: int| 0 <= i < s.len() ==> #[trigger] s[i] != '\n',
    ensures
        text_lines(s) == seq![strip_cr(s)],
{
    lemma_segments_single(s, '\n');
    assert(s[s.len() - 1] != '\n');
    assert(seq![s].map_values(|l: Seq<char>| strip_cr(l)) =~= seq![strip_cr(s)]);
}

/// Splits `s` at every `sep`.
pub fn split_char(s: &[char], sep: char) -> (res: Vec<Vec<char>>)
    ensures
        views(res@) == segments(s@, sep),
{
    let mut done: Vec<Vec<char>> = Vec::new();
    let mut cur: Vec<char> = Vec::new();
    let mut i: usize = 0;
    assert(s@.take(0) =~= Seq::<char>::empty());
    while i < s.len()
        invariant
            i <= s.len(),
            views(done@).push(cur@) == segments(s@.take(i as int), sep),
        decreases s.len() - i,
    {
        proof {
            lemma_segments_nonempty(s@.take(i as int), sep);
            assert(s@.take(i + 1).drop_last() =~= s@.take(i as int));
            assert(s@.take(i + 1).last() == s@[i as int]);
        }
        if s[i] == sep {
            let ghost before = done@;
            let finished = cur;
            done.push(finished);
            cur = Vec::new();
            assert(views(done@) =~= views(before).push(finished@));
            assert(views(done@).push(cur@) =~= views(before).push(finished@).push(Seq::<char>::empty()));
        } else {
            let ghost old_cur = cur@;
            cur.push(s[i]);
            assert(views(done@).push(cur@) =~= views(done@).push(old_cur).update(
                views(done@).len() as int,
                old_cur.push(s@[i as int]),
            ));
        }
        i = i + 1;
    }
    assert(s@.take(s.len() as int) =~= s@);
    let ghost before = done@;
    done.push(cur);
    assert(views(done@) =~= views(before).push(cur@));
    done
}

/// `l` without a carriage return at its end.
pub open spec fn strip_cr(l: Seq<char>) -> Seq<char> {
    if l.len() > 0 && l.last() == '\r' {
        l.drop_last()
    } else {
        l
    }
}

/// The lines of `s` (`str::lines`): pieces between line feeds, each without
/// a carriage return at its end; a line feed at the end starts no line.
pub open spec fn text_lines(s: Seq<char>) -> Seq<Seq<char>> {
    if s.len() == 0 {
        Seq::empty()
    } else if s.last() == '\n' {
        segments(s, '\n').drop_last().map_values(|l: Seq<char>| strip_cr(l))
    } else {
        segments(s, '\n').map_values(|l: Seq<char>| strip_cr(l))
    }
}

/// Splits `s` into its lines.
pub fn lines_exec(s: &[char]) -> (res: Vec<Vec<char>>)
    ensures
        views(res@) == text_lines(s@),
{
    if s.len() == 0 {
        let res: Vec<Vec<char>> = Vec::new();
        assert(views(res@) =~= text_lines(s@));
        return res;
    }
    let segs = split_char(s, '\n');
    proof {
        lemma_segments_nonempty(s@, '\n');
    }
    let count = if s[s.len() - 1] == '\n' { segs.len() - 1 } else { segs.len() };
    let ghost kept = if s@.last() == '\n' { segments(s@, '\n').drop_last() } else { segments(s@, '\n') };
    assert(kept =~= views(segs@).take(count as int));
    let mut res: Vec<Vec<char>> = Vec::new();
    let mut i: usize = 0;
    while i < count
        invariant
            i <= count <= segs.len(),
            kept == views(segs@).take(count as int),
            views(res@) == kept.take(i as int).map_values(|l: Seq<char>| strip_cr(l)),
        decreases count - i,
    {
        let l = segs[i].as_slice();
        let line = if l.len() > 0 && l[l.len() - 1] == '\r' {
            let mut c: Vec<char> = Vec::new();
            push_range(&mut c, l, 0, l.len() - 1);
            assert(c@ =~= l@.drop_last());
            c
        } else {
            copy_chars(l)
        };
        let ghost before = res@;
        res.push(line);
        assert(views(res@) =~= views(before).push(line@));
        assert(kept.take(i + 1).map_values(|l: Seq<char>| strip_cr(l)) =~= kept.take(i as int).map_values(
            |l: Seq<char>| strip_cr(l),
        ).push(strip_cr(kept[i as int])));
        i = i + 1;
    }
    assert(kept.take(count as int) =~= kept);
    res
}

} // verus!
