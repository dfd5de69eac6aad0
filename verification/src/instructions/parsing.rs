//! Reading instructions from text.
//!
//! A line is split into white space separated parts; a part that ends with
//! `;` loses all its semicolons. Errors mark the byte range of the part that
//! caused them.
use vstd::prelude::*;

use crate::base::{comparison_from, operation_from, Comparison, Operation};
use crate::instructions::error_handling::{irange, InstructionParseError, ParseErrorV};
use crate::instructions::{
    IndexMemoryCellIndexType, IndexV, Instruction, InstructionV, TargetType, TargetV, Value, ValueV,
};
use crate::text::{
    chars_to_string, parse_i32, parse_i32_spec, parse_usize, parse_usize_spec, push_range, remove_all,
    remove_both, remove_first, remove_first_exec, starts_with_str, to_chars, utf8_len,
    lemma_utf8_len_concat, lemma_utf8_len_at_least_len, join_space, join_space_exec, split_whitespace,
    str_len_utf8, tokens, views, string_views, eq_str, occurs_at, occurs_at_exec, lemma_utf8_len_subrange,
};

verus! {

/// `res` is the result that `spec` describes, for results without a view.
pub open spec fn parsed_as<T>(res: Result<T, InstructionParseError>, spec: Result<T, ParseErrorV>) -> bool {
    match spec {
        Ok(v) => res == Ok::<T, InstructionParseError>(v),
        Err(e) => res matches Err(x) && x@ == e,
    }
}

/// `res` is the result that `spec` describes, the value taken by its view.
pub open spec fn parsed_to<T: View>(res: Result<T, InstructionParseError>, spec: Result<T::V, ParseErrorV>) -> bool {
    match spec {
        Ok(v) => res matches Ok(t) && t@ == v,
        Err(e) => res matches Err(x) && x@ == e,
    }
}

/// Every character of `s` is ASCII (`str::is_ascii`).
pub open spec fn ascii(s: Seq<char>) -> bool {
    forall|i: int| 0 <= i < s.len() ==> (s[i] as u32) < 128
}

/// `c` is an ASCII letter, `A` to `Z` or `a` to `z`.
pub open spec fn is_ascii_letter(c: char) -> bool {
    ('A' <= c && c <= 'Z') || ('a' <= c && c <= 'z')
}

/// `s` may name a memory cell: it holds only the letters `A` to `Z` and `a`
/// to `z` and the digits `0` to `9`, and at least one letter.
pub open spec fn valid_cell_name(s: Seq<char>) -> bool {
    &&& forall|i: int| 0 <= i < s.len() ==> is_ascii_letter(#[trigger] s[i]) || ('0' <= s[i] && s[i] <= '9')
    &&& exists|i: int| 0 <= i < s.len() && is_ascii_letter(#[trigger] s[i])
}

/// `s` names the gamma accumulator.
pub open spec fn is_gamma(s: Seq<char>) -> bool {
    s == "y"@ || s == "γ"@
}

/// `s` starts with an accumulator letter, `a` or `α`.
pub open spec fn starts_alpha(s: Seq<char>) -> bool {
    s.len() > 0 && (s[0] == 'a' || s[0] == 'α')
}

/// `s` without its accumulator letters.
pub open spec fn alpha_digits(s: Seq<char>) -> Seq<char> {
    remove_all(s, seq!['a', 'α'])
}

/// The index of the accumulator `s`, where a missing index means `0`.
pub open spec fn alpha_spec(s: Seq<char>, r: (int, int)) -> Result<usize, ParseErrorV> {
    if s.len() > 0 && !starts_alpha(s) {
        Err(ParseErrorV::InvalidExpression(r, s))
    } else if alpha_digits(s).len() == 0 {
        Ok(0)
    } else {
        match parse_usize_spec(alpha_digits(s)) {
            Some(x) => Ok(x),
            None => Err(ParseErrorV::NotANumber((r.0 + 1, r.1), alpha_digits(s))),
        }
    }
}

/// The index of the accumulator `s` when `s` names one with an index.
pub open spec fn accumulator_index(s: Seq<char>) -> Option<usize> {
    if starts_alpha(s) && alpha_digits(s).len() > 0 {
        parse_usize_spec(alpha_digits(s))
    } else {
        None
    }
}

/// The range `r` allows the errors of reading `s` as an accumulator.
pub open spec fn alpha_range_ok(s: Seq<char>, r: (int, int)) -> bool {
    alpha_spec(s, r) is Err && !(alpha_spec(s, r)->Err_0 is InvalidExpression) ==> r.0 < usize::MAX
}

/// The operation `s`.
pub open spec fn operation_spec(s: Seq<char>, r: (int, int)) -> Result<Operation, ParseErrorV> {
    match operation_from(s) {
        Some(o) => Ok(o),
        None => if ascii(s) {
            Err(ParseErrorV::UnknownOperation(r, s))
        } else {
            Err(ParseErrorV::UnknownOperation((r.0, r.1 + 1), s))
        },
    }
}

/// The comparison `s`.
pub open spec fn comparison_spec(s: Seq<char>, r: (int, int)) -> Result<Comparison, ParseErrorV> {
    match comparison_from(s) {
        Some(c) => Ok(c),
        None => if ascii(s) {
            Err(ParseErrorV::UnknownComparison(r, s))
        } else {
            Err(ParseErrorV::UnknownComparison((r.0, r.1 + 1), s))
        },
    }
}

/// `s` is written like a memory cell: `p(` or `ρ` first, `)` last.
pub open spec fn cell_shape(s: Seq<char>) -> bool {
    &&& "p("@.is_prefix_of(s) || (s.len() > 0 && s[0] == 'ρ')
    &&& s.len() > 0 && s.last() == ')'
}

/// The name inside the memory cell `s`: the first `p(`, the first `ρ(` and
/// the first `)` taken out.
pub open spec fn cell_name(s: Seq<char>) -> Seq<char> {
    remove_first(remove_first(remove_first(s, "p("@), "ρ("@), ")"@)
}

/// The name of the memory cell `s`, which must be a valid memory cell name.
pub open spec fn memory_cell_spec(s: Seq<char>, r: (int, int)) -> Result<Seq<char>, ParseErrorV> {
    if !cell_shape(s) || cell_name(s).len() == 0 {
        Err(ParseErrorV::InvalidExpression(r, s))
    } else if !valid_cell_name(cell_name(s)) {
        Err(ParseErrorV::InvalidExpression((r.0 + 2, r.1 - 2), cell_name(s)))
    } else {
        Ok(cell_name(s))
    }
}

/// The range `r` allows the errors of reading `s` as a memory cell.
pub open spec fn cell_range_ok(s: Seq<char>, r: (int, int)) -> bool {
    cell_shape(s) && cell_name(s).len() > 0 && !valid_cell_name(cell_name(s)) ==> 2 <= r.1 && r.0 + 2
        <= usize::MAX
}

/// `s` is written like an index memory cell: `p(` or `ρ(` first, `)` last.
pub open spec fn index_shape(s: Seq<char>) -> bool {
    &&& "p("@.is_prefix_of(s) || "ρ("@.is_prefix_of(s)
    &&& s.len() > 0 && s.last() == ')'
}

/// What is inside the brackets of an index memory cell.
pub open spec fn index_location(s: Seq<char>) -> Seq<char> {
    s.subrange(2, s.len() - 1)
}

/// The index of the index memory cell `s`.
pub open spec fn index_memory_cell_spec(s: Seq<char>, r: (int, int)) -> Result<IndexV, ParseErrorV>
    decreases s.len(),
{
    if !index_shape(s) || s.len() < 3 {
        Err(ParseErrorV::InvalidExpression(r, s))
    } else {
        let loc = index_location(s);
        if parse_usize_spec(loc) is Some {
            Ok(IndexV::Direct(parse_usize_spec(loc)->0))
        } else if memory_cell_spec(loc, r) is Ok {
            Ok(IndexV::MemoryCell(memory_cell_spec(loc, r)->Ok_0))
        } else if accumulator_index(loc) is Some {
            Ok(IndexV::Accumulator(accumulator_index(loc)->0))
        } else if is_gamma(loc) {
            Ok(IndexV::Gamma)
        } else {
            match index_memory_cell_spec(loc, (r.0 + 2, r.1 - 1)) {
                Ok(IndexV::Direct(i)) => Ok(IndexV::Index(i)),
                Ok(_) => Err(ParseErrorV::UnknownInstruction((0, 0), loc)),
                Err(e) => Err(e),
            }
        }
    }
}

/// The range `r` allows the errors of reading `s` as an index memory cell.
pub open spec fn index_range_ok(s: Seq<char>, r: (int, int)) -> bool
    decreases s.len(),
{
    if !index_shape(s) || s.len() < 3 || parse_usize_spec(index_location(s)) is Some {
        true
    } else {
        let loc = index_location(s);
        &&& cell_range_ok(loc, r)
        &&& (memory_cell_spec(loc, r) is Ok || accumulator_index(loc) is Some || is_gamma(loc) || (1
            <= r.1 && r.0 + 2 <= usize::MAX && index_range_ok(loc, (r.0 + 2, r.1 - 1))))
    }
}

/// The value `s`: an index memory cell, a memory cell, a constant, the
/// gamma accumulator or an accumulator, tried in this order.
pub open spec fn value_spec(s: Seq<char>, r: (int, int)) -> Result<ValueV, ParseErrorV> {
    if index_memory_cell_spec(s, r) is Ok {
        Ok(ValueV::IndexMemoryCell(index_memory_cell_spec(s, r)->Ok_0))
    } else if memory_cell_spec(s, r) is Ok {
        Ok(ValueV::MemoryCell(memory_cell_spec(s, r)->Ok_0))
    } else if parse_i32_spec(s) is Some {
        Ok(ValueV::Constant(parse_i32_spec(s)->0))
    } else if is_gamma(s) {
        Ok(ValueV::Gamma)
    } else {
        match alpha_spec(s, r) {
            Ok(a) => Ok(ValueV::Accumulator(a)),
            Err(e) => Err(e),
        }
    }
}

/// The target `s`: an index memory cell, a memory cell, the gamma
/// accumulator or an accumulator, tried in this order.
pub open spec fn target_spec(s: Seq<char>, r: (int, int)) -> Result<TargetV, ParseErrorV> {
    if index_memory_cell_spec(s, r) is Ok {
        Ok(TargetV::IndexMemoryCell(index_memory_cell_spec(s, r)->Ok_0))
    } else if memory_cell_spec(s, r) is Ok {
        Ok(TargetV::MemoryCell(memory_cell_spec(s, r)->Ok_0))
    } else if is_gamma(s) {
        Ok(TargetV::Gamma)
    } else {
        match alpha_spec(s, r) {
            Ok(a) => Ok(TargetV::Accumulator(a)),
            Err(e) => Err(e),
        }
    }
}

/// The range `r` allows every error of reading `s` as a value or a target.
pub open spec fn operand_range_ok(s: Seq<char>, r: (int, int)) -> bool {
    index_range_ok(s, r) && cell_range_ok(s, r) && alpha_range_ok(s, r)
}

fn invalid_expression(r: (usize, usize), s: &[char]) -> (e: InstructionParseError)
    ensures
        e@ == ParseErrorV::InvalidExpression(irange(r), s@),
{
    InstructionParseError::InvalidExpression(r, chars_to_string(s))
}

fn is_ascii_chars(s: &[char]) -> (res: bool)
    ensures
        res == ascii(s@),
{
    let mut i: usize = 0;
    while i < s.len()
        invariant
            i <= s.len(),
            forall|k: int| 0 <= k < i ==> (s@[k] as u32) < 128,
        decreases s.len() - i,
    {
        if (s[i] as u32) >= 128 {
            return false;
        }
        i = i + 1;
    }
    true
}

fn valid_cell_name_chars(s: &[char]) -> (res: bool)
    ensures
        res == valid_cell_name(s@),
{
    let mut letter = false;
    let mut i: usize = 0;
    while i < s.len()
        invariant
            i <= s.len(),
            forall|k: int| 0 <= k < i ==> is_ascii_letter(#[trigger] s@[k]) || ('0' <= s@[k] && s@[k] <= '9'),
            letter == exists|k: int| 0 <= k < i && is_ascii_letter(#[trigger] s@[k]),
        decreases s.len() - i,
    {
        let c = s[i];
        let is_letter = ('A' <= c && c <= 'Z') || ('a' <= c && c <= 'z');
        if !is_letter && !('0' <= c && c <= '9') {
            return false;
        }
        if is_letter {
            letter = true;
        }
        i = i + 1;
    }
    letter
}

fn is_gamma_chars(s: &[char]) -> (res: bool)
    ensures
        res == is_gamma(s@),
{
    crate::text::eq_str(s, "y") || crate::text::eq_str(s, "γ")
}

fn alpha_chars(s: &[char], r: (usize, usize)) -> (res: Result<usize, InstructionParseError>)
    requires
        alpha_range_ok(s@, irange(r)),
    ensures
        parsed_as(res, alpha_spec(s@, irange(r))),
{
    if s.len() > 0 && !(s[0] == 'a' || s[0] == 'α') {
        return Err(invalid_expression(r, s));
    }
    let input = remove_both(s, 'a', 'α');
    if input.len() == 0 {
        return Ok(0);
    }
    match parse_usize(input.as_slice()) {
        Some(x) => Ok(x),
        None => Err(InstructionParseError::NotANumber((r.0 + 1, r.1), chars_to_string(input.as_slice()))),
    }
}

/// Reads the index of an accumulator.
///
/// An accumulator is written `a` or `α`, then its index; `a` alone is
/// accumulator `0`. `part_range` is the range of `s` in its line.
pub fn parse_alpha(s: &str, part_range: (usize, usize)) -> (res: Result<usize, InstructionParseError>)
    requires
        alpha_range_ok(s@, irange(part_range)),
    ensures
        parsed_as(res, alpha_spec(s@, irange(part_range))),
{
    let c = to_chars(s);
    alpha_chars(c.as_slice(), part_range)
}

fn accumulator_index_chars(s: &[char]) -> (res: Option<usize>)
    ensures
        res == accumulator_index(s@),
{
    if !(s.len() > 0 && (s[0] == 'a' || s[0] == 'α')) {
        return None;
    }
    let input = remove_both(s, 'a', 'α');
    if input.len() == 0 {
        return None;
    }
    parse_usize(input.as_slice())
}

/// Reads the gamma accumulator, written `y` or `γ`.
pub fn parse_gamma(s: &str, part_range: (usize, usize)) -> (res: Result<(), InstructionParseError>)
    ensures
        is_gamma(s@) ==> res is Ok,
        !is_gamma(s@) ==> (res matches Err(e) && e@ == ParseErrorV::InvalidExpression(irange(part_range), s@)),
{
    let c = to_chars(s);
    if is_gamma_chars(c.as_slice()) {
        Ok(())
    } else {
        Err(invalid_expression(part_range, c.as_slice()))
    }
}

fn operation_chars(s: &[char], r: (usize, usize)) -> (res: Result<Operation, InstructionParseError>)
    requires
        r.1 < usize::MAX,
    ensures
        parsed_as(res, operation_spec(s@, irange(r))),
{
    let text = chars_to_string(s);
    match Operation::try_from(text.as_str()) {
        Ok(o) => Ok(o),
        Err(()) => if is_ascii_chars(s) {
            Err(InstructionParseError::UnknownOperation(r, text))
        } else {
            Err(InstructionParseError::UnknownOperation((r.0, r.1 + 1), text))
        },
    }
}

/// Reads an operation: `+`, `-`, `*` (`×`), `/` (`÷`) or `%`.
pub fn parse_operation(s: &str, part_range: (usize, usize)) -> (res: Result<Operation, InstructionParseError>)
    requires
        part_range.1 < usize::MAX,
    ensures
        parsed_as(res, operation_spec(s@, irange(part_range))),
{
    let c = to_chars(s);
    operation_chars(c.as_slice(), part_range)
}

fn comparison_chars(s: &[char], r: (usize, usize)) -> (res: Result<Comparison, InstructionParseError>)
    requires
        r.1 < usize::MAX,
    ensures
        parsed_as(res, comparison_spec(s@, irange(r))),
{
    let text = chars_to_string(s);
    match Comparison::try_from(text.as_str()) {
        Ok(c) => Ok(c),
        Err(()) => if is_ascii_chars(s) {
            Err(InstructionParseError::UnknownComparison(r, text))
        } else {
            Err(InstructionParseError::UnknownComparison((r.0, r.1 + 1), text))
        },
    }
}

/// Reads a comparison: `<`, `<=`, `==`, `!=`, `>=`, `>` and their other spellings.
pub fn parse_comparison(s: &str, part_range: (usize, usize)) -> (res: Result<Comparison, InstructionParseError>)
    requires
        part_range.1 < usize::MAX,
    ensures
        parsed_as(res, comparison_spec(s@, irange(part_range))),
{
    let c = to_chars(s);
    comparison_chars(c.as_slice(), part_range)
}

fn memory_cell_chars(s: &[char], r: (usize, usize)) -> (res: Result<String, InstructionParseError>)
    requires
        cell_range_ok(s@, irange(r)),
    ensures
        parsed_to(res, memory_cell_spec(s@, irange(r))),
{
    let open_p = to_chars("p(");
    let open_rho = to_chars("ρ(");
    let close = to_chars(")");
    let prefixed = crate::text::starts_with(s, open_p.as_slice()) || (s.len() > 0 && s[0] == 'ρ');
    if !prefixed || !(s.len() > 0 && s[s.len() - 1] == ')') {
        return Err(invalid_expression(r, s));
    }
    let n1 = remove_first_exec(s, open_p.as_slice());
    let n2 = remove_first_exec(n1.as_slice(), open_rho.as_slice());
    let name = remove_first_exec(n2.as_slice(), close.as_slice());
    if name.len() == 0 {
        return Err(invalid_expression(r, s));
    }
    if !valid_cell_name_chars(name.as_slice()) {
        return Err(invalid_expression((r.0 + 2, r.1 - 2), name.as_slice()));
    }
    Ok(chars_to_string(name.as_slice()))
}

/// Reads the name of a memory cell, written `p(NAME)` or `ρ(NAME)`.
///
/// The name may hold only ASCII letters and digits, and at least one letter.
pub fn parse_memory_cell(s: &str, part_range: (usize, usize)) -> (res: Result<String, InstructionParseError>)
    requires
        cell_range_ok(s@, irange(part_range)),
    ensures
        parsed_to(res, memory_cell_spec(s@, irange(part_range))),
{
    let c = to_chars(s);
    memory_cell_chars(c.as_slice(), part_range)
}

fn index_memory_cell_chars(s: &[char], r: (usize, usize)) -> (res: Result<IndexMemoryCellIndexType, InstructionParseError>)
    requires
        index_range_ok(s@, irange(r)),
    ensures
        parsed_to(res, index_memory_cell_spec(s@, irange(r))),
    decreases s.len(),
{
    if !(starts_with_str(s, "p(") || starts_with_str(s, "ρ(")) || !(s.len() > 0 && s[s.len() - 1] == ')')
        || s.len() < 3 {
        return Err(invalid_expression(r, s));
    }
    let mut loc: Vec<char> = Vec::new();
    push_range(&mut loc, s, 2, s.len() - 1);
    assert(loc@ =~= index_location(s@));
    if let Some(i) = parse_usize(loc.as_slice()) {
        return Ok(IndexMemoryCellIndexType::Direct(i));
    }
    if let Ok(name) = memory_cell_chars(loc.as_slice(), r) {
        return Ok(IndexMemoryCellIndexType::MemoryCell(name));
    }
    if let Some(a) = accumulator_index_chars(loc.as_slice()) {
        return Ok(IndexMemoryCellIndexType::Accumulator(a));
    }
    if is_gamma_chars(loc.as_slice()) {
        return Ok(IndexMemoryCellIndexType::Gamma);
    }
    match index_memory_cell_chars(loc.as_slice(), (r.0 + 2, r.1 - 1)) {
        Ok(IndexMemoryCellIndexType::Direct(i)) => Ok(IndexMemoryCellIndexType::Index(i)),
        Ok(_) => Err(InstructionParseError::UnknownInstruction((0, 0), chars_to_string(loc.as_slice()))),
        Err(e) => Err(e),
    }
}

/// Reads where an index memory cell takes its index from, written
/// `p(INDEX)` or `ρ(INDEX)`: a number, a memory cell, an accumulator, the
/// gamma accumulator, or an index memory cell with a number inside.
pub fn parse_index_memory_cell(s: &str, part_range: (usize, usize)) -> (res: Result<IndexMemoryCellIndexType, InstructionParseError>)
    requires
        index_range_ok(s@, irange(part_range)),
    ensures
        parsed_to(res, index_memory_cell_spec(s@, irange(part_range))),
{
    let c = to_chars(s);
    index_memory_cell_chars(c.as_slice(), part_range)
}

pub(crate) fn value_chars(s: &[char], r: (usize, usize)) -> (res: Result<Value, InstructionParseError>)
    requires
        operand_range_ok(s@, irange(r)),
    ensures
        parsed_to(res, value_spec(s@, irange(r))),
{
    if let Ok(t) = index_memory_cell_chars(s, r) {
        return Ok(Value::IndexMemoryCell(t));
    }
    if let Ok(n) = memory_cell_chars(s, r) {
        return Ok(Value::MemoryCell(n));
    }
    if let Some(c) = parse_i32(s) {
        return Ok(Value::Constant(c));
    }
    if is_gamma_chars(s) {
        return Ok(Value::Gamma);
    }
    match alpha_chars(s, r) {
        Ok(a) => Ok(Value::Accumulator(a)),
        Err(e) => Err(e),
    }
}

pub(crate) fn target_chars(s: &[char], r: (usize, usize)) -> (res: Result<TargetType, InstructionParseError>)
    requires
        operand_range_ok(s@, irange(r)),
    ensures
        parsed_to(res, target_spec(s@, irange(r))),
{
    if let Ok(t) = index_memory_cell_chars(s, r) {
        return Ok(TargetType::IndexMemoryCell(t));
    }
    if let Ok(n) = memory_cell_chars(s, r) {
        return Ok(TargetType::MemoryCell(n));
    }
    if is_gamma_chars(s) {
        return Ok(TargetType::Gamma);
    }
    match alpha_chars(s, r) {
        Ok(a) => Ok(TargetType::Accumulator(a)),
        Err(e) => Err(e),
    }
}

impl TargetType {
    /// Reads a target from `value.0`, whose range in its line is `value.1`.
    pub fn try_from(value: (&String, (usize, usize))) -> (res: Result<TargetType, InstructionParseError>)
        requires
            operand_range_ok(value.0@, irange(value.1)),
        ensures
            parsed_to(res, target_spec(value.0@, irange(value.1))),
    {
        let c = to_chars(value.0.as_str());
        target_chars(c.as_slice(), value.1)
    }
}

impl Value {
    /// Reads a value from `value.0`, whose range in its line is `value.1`.
    pub fn try_from(value: (&String, (usize, usize))) -> (res: Result<Value, InstructionParseError>)
        requires
            operand_range_ok(value.0@, irange(value.1)),
        ensures
            parsed_to(res, value_spec(value.0@, irange(value.1))),
    {
        let c = to_chars(value.0.as_str());
        value_chars(c.as_slice(), value.1)
    }
}


proof fn lemma_utf8_split(a: Seq<char>, b: Seq<char>, c: Seq<char>)
    ensures
        utf8_len(a + b + c) == utf8_len(a) + utf8_len(b) + utf8_len(c),
{
    lemma_utf8_len_concat(a + b, c);
    lemma_utf8_len_concat(a, b);
}

proof fn lemma_utf8_single(c: char)
    ensures
        utf8_len(seq![c]) == crate::text::char_utf8_len(c),
{
    assert(seq![c].drop_last() =~= Seq::<char>::empty());
    assert(utf8_len(Seq::<char>::empty()) == 0);
    assert(seq![c].last() == c);
}

/// A memory cell as a part of `utf8_len(s)` bytes at `r` leaves room for its errors.
proof fn lemma_cell_range(s: Seq<char>, r: (int, int))
    requires
        utf8_len(s) <= r.1 + 1,
        0 <= r.0,
        r.0 + utf8_len(s) <= usize::MAX,
    ensures
        cell_range_ok(s, r),
{
    if cell_shape(s) && cell_name(s).len() > 0 && !valid_cell_name(cell_name(s)) {
        lemma_utf8_len_at_least_len(s);
        if s.len() > 0 && s[0] == 'ρ' && s.len() < 3 {
            let a = seq![s[0]];
            let b = s.subrange(1, s.len() - 1);
            let c = seq![s.last()];
            assert(a + b + c =~= s);
            lemma_utf8_split(a, b, c);
            lemma_utf8_single(s[0]);
            lemma_utf8_single(s.last());
        } else if "p("@.is_prefix_of(s) {
            assert(s[1] == "p("@[1]) by {
                reveal_strlit("p(");
            }
            reveal_strlit("p(");
        }
    }
}

/// An index memory cell as a part of `utf8_len(s)` bytes at `r` leaves room for its errors.
proof fn lemma_index_range(s: Seq<char>, r: (int, int))
    requires
        utf8_len(s) <= r.1 + 1,
        0 <= r.0,
        r.0 + utf8_len(s) <= usize::MAX,
    ensures
        index_range_ok(s, r),
    decreases s.len(),
{
    if index_shape(s) && s.len() >= 3 && parse_usize_spec(index_location(s)) is None {
        let loc = index_location(s);
        let a = s.subrange(0, 2);
        let c = seq![s.last()];
        assert(a + loc + c =~= s);
        lemma_utf8_split(a, loc, c);
        lemma_utf8_len_at_least_len(a);
        lemma_utf8_single(s.last());
        lemma_cell_range(loc, r);
        lemma_index_range(loc, (r.0 + 2, r.1 - 1));
    }
}

/// An operand as a part of `utf8_len(s)` bytes at `r` leaves room for its errors.
pub proof fn lemma_operand_range(s: Seq<char>, r: (int, int))
    requires
        utf8_len(s) <= r.1 + 1,
        0 <= r.0,
        r.0 + utf8_len(s) <= usize::MAX,
    ensures
        operand_range_ok(s, r),
{
    lemma_cell_range(s, r);
    lemma_index_range(s, r);
    lemma_utf8_len_at_least_len(s);
    if s.len() == 0 {
        assert(alpha_digits(s) =~= Seq::<char>::empty());
    }
}


/// A part as it is read: a part that ends with `;` loses all its semicolons.
pub open spec fn clean_part(t: Seq<char>) -> Seq<char> {
    if t.len() > 0 && t.last() == ';' {
        t.filter(|c: char| c != ';')
    } else {
        t
    }
}

/// The parts of a line once each is cleaned.
pub open spec fn cleaned(ts: Seq<Seq<char>>) -> Seq<Seq<char>> {
    ts.map_values(|t: Seq<char>| clean_part(t))
}

/// The bytes that the parts take, each followed by one separator.
pub open spec fn widths(p: Seq<Seq<char>>) -> int
    decreases p.len(),
{
    if p.len() == 0 {
        0
    } else {
        widths(p.drop_last()) + utf8_len(p.last()) + 1
    }
}

/// The byte position at which part `i` starts when the parts are joined by spaces.
pub open spec fn part_start(p: Seq<Seq<char>>, i: int) -> int {
    widths(p.take(i))
}

/// The byte range of part `i`: its first and its last byte.
pub open spec fn part_range_spec(p: Seq<Seq<char>>, i: int) -> (int, int) {
    (part_start(p, i), part_start(p, i) + utf8_len(p[i]) - 1)
}

/// The byte range of all parts joined by spaces.
pub open spec fn whole_range_spec(p: Seq<Seq<char>>) -> (int, int) {
    (0, utf8_len(join_space(p)) - 1)
}

/// The help of a missing expression error, with what might be missing.
pub open spec fn missing_help(suggestion: Option<Seq<char>>) -> Seq<char> {
    match suggestion {
        Some(s) => "Make sure that you use a supported instruction."@ + "\nMaybe you are missing: "@ + s,
        None => "Make sure that you use a supported instruction."@,
    }
}

/// The error for a line whose parts end before part `n`.
pub open spec fn missing_spec(p: Seq<Seq<char>>, n: int, suggestion: Option<Seq<char>>) -> Option<ParseErrorV> {
    if p.len() <= n {
        let pos = utf8_len(join_space(p)) as int;
        Some(ParseErrorV::MissingExpression((pos, pos), missing_help(suggestion)))
    } else {
        None
    }
}

/// A conditional jump: `if VALUE CMP VALUE then goto LABEL`.
pub open spec fn jump_if_spec(p: Seq<Seq<char>>) -> Result<InstructionV, ParseErrorV> {
    if missing_spec(p, 1, Some("an accumulator"@)) is Some {
        Err(missing_spec(p, 1, Some("an accumulator"@))->0)
    } else if value_spec(p[1], part_range_spec(p, 1)) is Err {
        Err(value_spec(p[1], part_range_spec(p, 1))->Err_0)
    } else if missing_spec(p, 2, Some("a comparison"@)) is Some {
        Err(missing_spec(p, 2, Some("a comparison"@))->0)
    } else if comparison_spec(p[2], part_range_spec(p, 2)) is Err {
        Err(comparison_spec(p[2], part_range_spec(p, 2))->Err_0)
    } else if missing_spec(p, 3, None) is Some {
        Err(missing_spec(p, 3, None)->0)
    } else if missing_spec(p, 4, Some("then"@)) is Some {
        Err(missing_spec(p, 4, Some("then"@))->0)
    } else if p[4] != "then"@ {
        Err(ParseErrorV::InvalidExpression(part_range_spec(p, 4), p[4]))
    } else if missing_spec(p, 5, Some("goto"@)) is Some {
        Err(missing_spec(p, 5, Some("goto"@))->0)
    } else if p[5] != "goto"@ {
        Err(ParseErrorV::InvalidExpression(part_range_spec(p, 5), p[5]))
    } else if missing_spec(p, 6, Some("a label"@)) is Some {
        Err(missing_spec(p, 6, Some("a label"@))->0)
    } else {
        match value_spec(p[3], part_range_spec(p, 3)) {
            Err(e) => Err(e),
            Ok(b) => Ok(
                InstructionV::JumpIf(
                    value_spec(p[1], part_range_spec(p, 1))->Ok_0,
                    comparison_spec(p[2], part_range_spec(p, 2))->Ok_0,
                    b,
                    p[6],
                ),
            ),
        }
    }
}

/// `s` with every occurrence of `pat` taken out, from left to right
/// (`str::replace(pat, "")`).
pub open spec fn remove_pattern(s: Seq<char>, pat: Seq<char>) -> Seq<char>
    decreases s.len(),
{
    if pat.len() == 0 || s.len() < pat.len() {
        s
    } else if pat.is_prefix_of(s) {
        remove_pattern(s.skip(pat.len() as int), pat)
    } else {
        seq![s[0]] + remove_pattern(s.skip(1), pat)
    }
}

/// A stack operation: `stackOP` or `stack OP`.
pub open spec fn stack_op_spec(p: Seq<Seq<char>>) -> Result<InstructionV, ParseErrorV> {
    if p.len() == 1 {
        let op = remove_pattern(p[0], "stack"@);
        match operation_spec(op, (5, 4 + utf8_len(op) as int)) {
            Ok(o) => Ok(InstructionV::StackOp(o)),
            Err(e) => Err(e),
        }
    } else if p.len() == 2 {
        match operation_spec(p[1], (6, 5 + utf8_len(p[1]) as int)) {
            Ok(o) => Ok(InstructionV::StackOp(o)),
            Err(e) => Err(e),
        }
    } else {
        Err(ParseErrorV::UnknownInstruction(whole_range_spec(p), join_space(p)))
    }
}

/// An assignment: `TARGET := VALUE` or `TARGET := VALUE OP VALUE`.
pub open spec fn assignment_spec(p: Seq<Seq<char>>) -> Result<InstructionV, ParseErrorV> {
    let fill = "Try inserting an accumulator or a memory cell"@;
    match target_spec(p[0], part_range_spec(p, 0)) {
        Err(e) => Err(e),
        Ok(t) => if p.len() == 2 {
            let pos = part_range_spec(p, 1).1 + 1;
            Err(ParseErrorV::MissingExpression((pos, pos), fill))
        } else {
            match value_spec(p[2], part_range_spec(p, 2)) {
                Err(e) => Err(e),
                Ok(a) => if p.len() == 3 {
                    Ok(InstructionV::Assign(t, a))
                } else if p.len() == 4 {
                    let pos = part_range_spec(p, 3).1 + 1;
                    Err(ParseErrorV::MissingExpression((pos, pos), fill))
                } else if p.len() == 5 {
                    match operation_spec(p[3], part_range_spec(p, 3)) {
                        Err(e) => Err(e),
                        Ok(op) => match value_spec(p[4], part_range_spec(p, 4)) {
                            Err(e) => Err(e),
                            Ok(b) => Ok(InstructionV::Calc(t, a, op, b)),
                        },
                    }
                } else {
                    Err(ParseErrorV::UnknownInstruction(whole_range_spec(p), join_space(p)))
                },
            }
        },
    }
}

/// The instruction that the cleaned parts `p` of a line spell.
pub open spec fn parts_spec(p: Seq<Seq<char>>) -> Result<InstructionV, ParseErrorV> {
    if p[0] == "if"@ {
        jump_if_spec(p)
    } else if p[0] == "goto"@ {
        if missing_spec(p, 1, Some("a label"@)) is Some {
            Err(missing_spec(p, 1, Some("a label"@))->0)
        } else {
            Ok(InstructionV::Goto(p[1]))
        }
    } else if p[0] == "push"@ && p.len() == 1 {
        Ok(InstructionV::Push)
    } else if p[0] == "pop"@ && p.len() == 1 {
        Ok(InstructionV::Pop)
    } else if p[0] == "call"@ && p.len() == 2 {
        Ok(InstructionV::Call(p[1]))
    } else if p[0] == "return"@ && p.len() == 1 {
        Ok(InstructionV::Return)
    } else if "stack"@.is_prefix_of(p[0]) {
        stack_op_spec(p)
    } else if p.len() < 2 {
        let pos = utf8_len(p[0]) as int;
        Err(ParseErrorV::MissingExpression((pos, pos), "You might be missing ':='"@))
    } else if p[1] != ":="@ && p[1] != "="@ {
        Err(ParseErrorV::UnknownInstruction(whole_range_spec(p), join_space(p)))
    } else {
        assignment_spec(p)
    }
}

/// The inputs on which reading the parts fails without an error: no
/// parts; an assignment to an empty first part.
pub open spec fn parse_panics(p: Seq<Seq<char>>) -> bool {
    ||| p.len() == 0
    ||| (p[0].len() == 0 && p.len() >= 2 && (p[1] == ":="@ || p[1] == "="@))
}

/// The parts of a line can be read: they do not make the reading fail
/// without an error, and their byte positions fit in a `usize`.
pub open spec fn readable(p: Seq<Seq<char>>) -> bool {
    !parse_panics(p) && widths(p) <= usize::MAX
}

/// The instruction that the line `s` spells.
pub open spec fn line_spec(s: Seq<char>) -> Result<InstructionV, ParseErrorV> {
    parts_spec(cleaned(tokens(s)))
}

proof fn lemma_widths_step(p: Seq<Seq<char>>, i: int)
    requires
        0 <= i < p.len(),
    ensures
        widths(p.take(i + 1)) == widths(p.take(i)) + utf8_len(p[i]) + 1,
{
    assert(p.take(i + 1).drop_last() =~= p.take(i));
}

proof fn lemma_widths_mono(p: Seq<Seq<char>>, i: int, j: int)
    requires
        0 <= i <= j <= p.len(),
    ensures
        widths(p.take(i)) <= widths(p.take(j)),
        widths(p.take(j)) <= widths(p),
    decreases j - i,
{
    if i < j {
        lemma_widths_step(p, j - 1);
        lemma_widths_mono(p, i, j - 1);
    }
    assert(p.take(p.len() as int) =~= p);
    if j < p.len() {
        lemma_widths_rest(p, j);
    }
}

proof fn lemma_widths_rest(p: Seq<Seq<char>>, j: int)
    requires
        0 <= j <= p.len(),
    ensures
        widths(p.take(j)) <= widths(p),
    decreases p.len() - j,
{
    assert(p.take(p.len() as int) =~= p);
    if j < p.len() {
        lemma_widths_step(p, j);
        lemma_widths_rest(p, j + 1);
    }
}

/// Joined by spaces, the parts take one byte less than their widths.
pub proof fn lemma_join_width(p: Seq<Seq<char>>)
    requires
        p.len() > 0,
    ensures
        utf8_len(join_space(p)) + 1 == widths(p),
    decreases p.len(),
{
    assert(crate::text::char_utf8_len(' ') == 1);
    if p.len() == 1 {
        assert(p.drop_last() =~= Seq::<Seq<char>>::empty());
        assert(widths(p.drop_last()) == 0);
        assert(p.last() == p[0]);
    } else {
        lemma_join_width(p.drop_last());
        lemma_utf8_split(join_space(p.drop_last()), seq![' '], p.last());
        lemma_utf8_single(' ');
    }
}

/// Part `i` lies within the widths of all parts.
proof fn lemma_part_bounds(p: Seq<Seq<char>>, i: int)
    requires
        0 <= i < p.len(),
    ensures
        0 <= part_start(p, i),
        part_start(p, i) + utf8_len(p[i]) + 1 <= widths(p),
        i > 0 ==> part_start(p, i) >= 1 + utf8_len(p[0]),
{
    lemma_widths_step(p, i);
    lemma_widths_mono(p, i, i + 1);
    lemma_widths_nonneg(p.take(i));
    if i > 0 {
        lemma_widths_step(p, 0);
        assert(p.take(0) =~= Seq::<Seq<char>>::empty());
        lemma_widths_mono(p, 1, i);
    }
}

proof fn lemma_widths_nonneg(p: Seq<Seq<char>>)
    ensures
        widths(p) >= 0,
    decreases p.len(),
{
    if p.len() > 0 {
        lemma_widths_nonneg(p.drop_last());
    }
}

/// Part `i`, at its range, leaves room for every error of reading it.
proof fn lemma_part_operand(p: Seq<Seq<char>>, i: int)
    requires
        0 <= i < p.len(),
        widths(p) <= usize::MAX,
    ensures
        operand_range_ok(p[i], part_range_spec(p, i)),
        part_range_spec(p, i).1 + 1 < usize::MAX || part_range_spec(p, i).1 + 1 <= widths(p),
{
    lemma_part_bounds(p, i);
    lemma_operand_range(p[i], part_range_spec(p, i));
}

fn remove_semicolons(t: &[char]) -> (res: Vec<char>)
    ensures
        res@ == t@.filter(|c: char| c != ';'),
{
    let ghost pred = |c: char| c != ';';
    let mut res: Vec<char> = Vec::new();
    let mut i: usize = 0;
    while i < t.len()
        invariant
            i <= t.len(),
            pred == (|c: char| c != ';'),
            res@ == t@.take(i as int).filter(pred),
        decreases t.len() - i,
    {
        proof {
            reveal_with_fuel(Seq::<_>::filter, 1);
            assert(t@.take(i + 1).drop_last() =~= t@.take(i as int));
        }
        if t[i] != ';' {
            res.push(t[i]);
        }
        i = i + 1;
    }
    assert(t@.take(t.len() as int) =~= t@);
    res
}

fn clean_parts(raw: &Vec<Vec<char>>) -> (res: Vec<Vec<char>>)
    ensures
        views(res@) == cleaned(views(raw@)),
{
    let mut res: Vec<Vec<char>> = Vec::new();
    let mut i: usize = 0;
    while i < raw.len()
        invariant
            i <= raw.len(),
            views(res@) == cleaned(views(raw@)).take(i as int),
        decreases raw.len() - i,
    {
        let t = raw[i].as_slice();
        let c = if t.len() > 0 && t[t.len() - 1] == ';' {
            remove_semicolons(t)
        } else {
            crate::text::copy_chars(t)
        };
        let ghost before = res@;
        res.push(c);
        assert(views(res@) =~= views(before).push(c@));
        assert(cleaned(views(raw@)).take(i + 1) =~= cleaned(views(raw@)).take(i as int).push(
            clean_part(views(raw@)[i as int]),
        ));
        i = i + 1;
    }
    assert(cleaned(views(raw@)).take(raw.len() as int) =~= cleaned(views(raw@)));
    res
}

fn part_range_chars(parts: &Vec<Vec<char>>, idx: usize) -> (r: (usize, usize))
    requires
        idx < parts.len(),
        widths(views(parts@)) <= usize::MAX,
        part_start(views(parts@), idx as int) + utf8_len(parts@[idx as int]@) >= 1,
    ensures
        irange(r) == part_range_spec(views(parts@), idx as int),
{
    let ghost p = views(parts@);
    proof {
        lemma_part_bounds(p, idx as int);
    }
    let mut start: usize = 0;
    let mut i: usize = 0;
    assert(p.take(0) =~= Seq::<Seq<char>>::empty());
    while i < idx
        invariant
            i <= idx < parts.len(),
            p == views(parts@),
            widths(p) <= usize::MAX,
            start == widths(p.take(i as int)),
        decreases idx - i,
    {
        proof {
            lemma_widths_step(p, i as int);
            lemma_widths_mono(p, i + 1, idx as int);
            lemma_part_bounds(p, idx as int);
            lemma_utf8_len_at_least_len(p[i as int]);
        }
        assert(p[i as int] == parts@[i as int]@);
        let n = str_len_utf8(parts[i].as_slice());
        start = start + n + 1;
        i = i + 1;
    }
    assert(p[idx as int] == parts@[idx as int]@);
    let n = str_len_utf8(parts[idx].as_slice());
    (start, start + n - 1)
}

/// The byte range of part `part_idx` when `parts` are joined by spaces.
pub fn part_range(parts: &[String], part_idx: usize) -> (res: (usize, usize))
    requires
        part_idx < parts.len(),
        widths(string_views(parts@)) <= usize::MAX,
        part_start(string_views(parts@), part_idx as int) + utf8_len(parts@[part_idx as int]@) >= 1,
    ensures
        irange(res) == part_range_spec(string_views(parts@), part_idx as int),
{
    let mut cs: Vec<Vec<char>> = Vec::new();
    let mut i: usize = 0;
    while i < parts.len()
        invariant
            i <= parts.len(),
            views(cs@) == string_views(parts@).take(i as int),
        decreases parts.len() - i,
    {
        let c = to_chars(parts[i].as_str());
        let ghost before = cs@;
        cs.push(c);
        assert(views(cs@) =~= views(before).push(c@));
        assert(string_views(parts@).take(i + 1) =~= string_views(parts@).take(i as int).push(parts@[i as int]@));
        i = i + 1;
    }
    assert(string_views(parts@).take(parts.len() as int) =~= string_views(parts@));
    assert(views(cs@)[part_idx as int] == cs@[part_idx as int]@);
    part_range_chars(&cs, part_idx)
}

fn joined_length(parts: &Vec<Vec<char>>) -> (res: (Vec<char>, usize))
    requires
        parts.len() > 0,
        widths(views(parts@)) <= usize::MAX,
    ensures
        res.0@ == join_space(views(parts@)),
        res.1 == utf8_len(join_space(views(parts@))),
{
    let joined = join_space_exec(parts);
    proof {
        lemma_join_width(views(parts@));
    }
    let n = str_len_utf8(joined.as_slice());
    (joined, n)
}

fn unknown_instruction(parts: &Vec<Vec<char>>) -> (e: InstructionParseError)
    requires
        parts.len() > 0,
        widths(views(parts@)) <= usize::MAX,
        utf8_len(join_space(views(parts@))) >= 1,
    ensures
        e@ == ParseErrorV::UnknownInstruction(whole_range_spec(views(parts@)), join_space(views(parts@))),
{
    let (joined, n) = joined_length(parts);
    InstructionParseError::UnknownInstruction((0, n - 1), chars_to_string(joined.as_slice()))
}

/// The byte range of `parts` joined by spaces.
pub fn whole_range(parts: &[String]) -> (res: (usize, usize))
    requires
        parts.len() > 0,
        widths(string_views(parts@)) <= usize::MAX,
        utf8_len(join_space(string_views(parts@))) >= 1,
    ensures
        irange(res) == whole_range_spec(string_views(parts@)),
{
    let mut cs: Vec<Vec<char>> = Vec::new();
    let mut i: usize = 0;
    while i < parts.len()
        invariant
            i <= parts.len(),
            views(cs@) == string_views(parts@).take(i as int),
        decreases parts.len() - i,
    {
        let c = to_chars(parts[i].as_str());
        let ghost before = cs@;
        cs.push(c);
        assert(views(cs@) =~= views(before).push(c@));
        assert(string_views(parts@).take(i + 1) =~= string_views(parts@).take(i as int).push(parts@[i as int]@));
        i = i + 1;
    }
    assert(string_views(parts@).take(parts.len() as int) =~= string_views(parts@));
    let (_, n) = joined_length(&cs);
    (0, n - 1)
}

fn check_expression_missing(parts: &Vec<Vec<char>>, number: usize, suggestion: Option<&str>) -> (res: Result<(), InstructionParseError>)
    requires
        parts.len() > 0,
        widths(views(parts@)) <= usize::MAX,
    ensures
        match missing_spec(views(parts@), number as int, match suggestion {
            Some(s) => Some(s@),
            None => None,
        }) {
            Some(e) => res matches Err(x) && x@ == e,
            None => res is Ok,
        },
{
    if parts.len() <= number {
        let (_, pos) = joined_length(parts);
        let mut help = to_chars("Make sure that you use a supported instruction.");
        match suggestion {
            Some(s) => {
                let more = to_chars("\nMaybe you are missing: ");
                push_range(&mut help, more.as_slice(), 0, more.len());
                let sc = to_chars(s);
                push_range(&mut help, sc.as_slice(), 0, sc.len());
                assert(more@.subrange(0, more@.len() as int) =~= more@);
                assert(sc@.subrange(0, sc@.len() as int) =~= sc@);
            },
            None => {},
        }
        return Err(InstructionParseError::MissingExpression {
            range: (pos, pos),
            help: chars_to_string(help.as_slice()),
        });
    }
    Ok(())
}


proof fn lemma_widths_len(p: Seq<Seq<char>>)
    ensures
        widths(p) >= p.len(),
    decreases p.len(),
{
    if p.len() > 0 {
        lemma_widths_len(p.drop_last());
    }
}

/// Taking a pattern out of a text makes it no longer.
proof fn lemma_remove_pattern_len(s: Seq<char>, pat: Seq<char>)
    requires
        pat.len() > 0,
    ensures
        utf8_len(remove_pattern(s, pat)) <= utf8_len(s),
        pat.is_prefix_of(s) ==> utf8_len(remove_pattern(s, pat)) + pat.len() <= utf8_len(s),
    decreases s.len(),
{
    if s.len() >= pat.len() {
        if pat.is_prefix_of(s) {
            let k = pat.len() as int;
            lemma_remove_pattern_len(s.skip(k), pat);
            lemma_utf8_len_concat(s.take(k), s.skip(k));
            assert(s.take(k) + s.skip(k) =~= s);
            lemma_utf8_len_at_least_len(s.take(k));
        } else {
            lemma_remove_pattern_len(s.skip(1), pat);
            lemma_utf8_len_concat(seq![s[0]], s.skip(1));
            assert(seq![s[0]] + s.skip(1) =~= s);
            lemma_utf8_len_concat(seq![s[0]], remove_pattern(s.skip(1), pat));
        }
    }
}

pub(crate) fn remove_pattern_chars(s: &[char], pat: &[char]) -> (res: Vec<char>)
    requires
        pat.len() > 0,
    ensures
        res@ == remove_pattern(s@, pat@),
{
    let mut res: Vec<char> = Vec::new();
    let mut i: usize = 0;
    assert(s@.skip(0) =~= s@);
    while i < s.len()
        invariant
            i <= s.len(),
            pat@.len() > 0,
            res@ + remove_pattern(s@.skip(i as int), pat@) == remove_pattern(s@, pat@),
        decreases s.len() - i,
    {
        let ghost rest = s@.skip(i as int);
        if occurs_at_exec(s, pat, i) {
            assert(pat@.is_prefix_of(rest)) by {
                assert(rest.take(pat@.len() as int) =~= s@.subrange(i as int, i + pat@.len()));
            }
            assert(rest.skip(pat@.len() as int) =~= s@.skip(i + pat@.len()));
            i = i + pat.len();
        } else {
            proof {
                assert(rest.skip(1) =~= s@.skip(i + 1));
                if rest.len() >= pat@.len() {
                    assert(!pat@.is_prefix_of(rest)) by {
                        if pat@.is_prefix_of(rest) {
                            assert(rest.take(pat@.len() as int) =~= s@.subrange(i as int, i + pat@.len()));
                        }
                    }
                } else {
                    assert(remove_pattern(s@.skip(i + 1), pat@) == s@.skip(i + 1));
                    assert(rest =~= seq![s@[i as int]] + s@.skip(i + 1));
                }
            }
            let ghost before = res@;
            res.push(s[i]);
            assert(res@ + remove_pattern(s@.skip(i + 1), pat@) =~= before + (seq![s@[i as int]]
                + remove_pattern(s@.skip(i + 1), pat@)));
            i = i + 1;
        }
    }
    assert(s@.skip(i as int) =~= Seq::<char>::empty());
    assert(res@ + Seq::<char>::empty() =~= res@);
    res
}

fn missing_with(pos: usize, help: &str) -> (e: InstructionParseError)
    ensures
        e@ == ParseErrorV::MissingExpression((pos as int, pos as int), help@),
{
    InstructionParseError::MissingExpression { range: (pos, pos), help: help.to_string() }
}

fn jump_if_chars(parts: &Vec<Vec<char>>) -> (res: Result<Instruction, InstructionParseError>)
    requires
        parts.len() > 0,
        readable(views(parts@)),
        views(parts@)[0] == "if"@,
    ensures
        parsed_to(res, jump_if_spec(views(parts@))),
{
    let ghost p = views(parts@);
    match check_expression_missing(parts, 1, Some("an accumulator")) {
        Err(e) => return Err(e),
        Ok(()) => {},
    }
    proof {
        lemma_part_operand(p, 1);
        lemma_part_bounds(p, 1);
        assert(p[1] == parts@[1]@);
    }
    let r1 = part_range_chars(parts, 1);
    let a = match value_chars(parts[1].as_slice(), r1) {
        Err(e) => return Err(e),
        Ok(a) => a,
    };
    match check_expression_missing(parts, 2, Some("a comparison")) {
        Err(e) => return Err(e),
        Ok(()) => {},
    }
    proof {
        lemma_part_bounds(p, 2);
        assert(p[2] == parts@[2]@);
    }
    let r2 = part_range_chars(parts, 2);
    let c = match comparison_chars(parts[2].as_slice(), r2) {
        Err(e) => return Err(e),
        Ok(c) => c,
    };
    match check_expression_missing(parts, 3, None) {
        Err(e) => return Err(e),
        Ok(()) => {},
    }
    match check_expression_missing(parts, 4, Some("then")) {
        Err(e) => return Err(e),
        Ok(()) => {},
    }
    proof {
        lemma_part_bounds(p, 4);
        assert(p[4] == parts@[4]@);
    }
    if !eq_str(parts[4].as_slice(), "then") {
        let r4 = part_range_chars(parts, 4);
        return Err(invalid_expression(r4, parts[4].as_slice()));
    }
    match check_expression_missing(parts, 5, Some("goto")) {
        Err(e) => return Err(e),
        Ok(()) => {},
    }
    proof {
        lemma_part_bounds(p, 5);
        assert(p[5] == parts@[5]@);
    }
    if !eq_str(parts[5].as_slice(), "goto") {
        let r5 = part_range_chars(parts, 5);
        return Err(invalid_expression(r5, parts[5].as_slice()));
    }
    match check_expression_missing(parts, 6, Some("a label")) {
        Err(e) => return Err(e),
        Ok(()) => {},
    }
    proof {
        lemma_part_operand(p, 3);
        lemma_part_bounds(p, 3);
        assert(p[3] == parts@[3]@);
        assert(p[6] == parts@[6]@);
    }
    let r3 = part_range_chars(parts, 3);
    let b = match value_chars(parts[3].as_slice(), r3) {
        Err(e) => return Err(e),
        Ok(b) => b,
    };
    Ok(Instruction::JumpIf(a, c, b, chars_to_string(parts[6].as_slice())))
}

fn stack_op_chars(parts: &Vec<Vec<char>>) -> (res: Result<Instruction, InstructionParseError>)
    requires
        parts.len() > 0,
        readable(views(parts@)),
        "stack"@.is_prefix_of(views(parts@)[0]),
    ensures
        parsed_to(res, stack_op_spec(views(parts@))),
{
    let ghost p = views(parts@);
    proof {
        lemma_part_bounds(p, 0);
        assert(p[0] == parts@[0]@);
        reveal_strlit("stack");
        assert(p.take(0) =~= Seq::<Seq<char>>::empty());
    }
    if parts.len() == 1 {
        let pat = to_chars("stack");
        let op = remove_pattern_chars(parts[0].as_slice(), pat.as_slice());
        proof {
            lemma_remove_pattern_len(p[0], "stack"@);
        }
        let n = str_len_utf8(op.as_slice());
        return match operation_chars(op.as_slice(), (5, 4 + n)) {
            Ok(o) => Ok(Instruction::StackOp(o)),
            Err(e) => Err(e),
        };
    }
    if parts.len() == 2 {
        proof {
            lemma_part_bounds(p, 1);
            assert(p[1] == parts@[1]@);
            lemma_utf8_len_at_least_len(p[0]);
        }
        let n = str_len_utf8(parts[1].as_slice());
        return match operation_chars(parts[1].as_slice(), (6, 5 + n)) {
            Ok(o) => Ok(Instruction::StackOp(o)),
            Err(e) => Err(e),
        };
    }
    proof {
        lemma_widths_len(p);
        lemma_join_width(p);
    }
    Err(unknown_instruction(parts))
}

fn assignment_chars(parts: &Vec<Vec<char>>) -> (res: Result<Instruction, InstructionParseError>)
    requires
        parts.len() >= 2,
        readable(views(parts@)),
        views(parts@)[1] == ":="@ || views(parts@)[1] == "="@,
    ensures
        parsed_to(res, assignment_spec(views(parts@))),
{
    let ghost p = views(parts@);
    proof {
        lemma_part_operand(p, 0);
        lemma_part_bounds(p, 0);
        assert(p[0] == parts@[0]@);
        assert(p.take(0) =~= Seq::<Seq<char>>::empty());
        lemma_utf8_len_at_least_len(p[0]);
    }
    let r0 = part_range_chars(parts, 0);
    let t = match target_chars(parts[0].as_slice(), r0) {
        Err(e) => return Err(e),
        Ok(t) => t,
    };
    if parts.len() == 2 {
        proof {
            lemma_part_bounds(p, 1);
            assert(p[1] == parts@[1]@);
        }
        let r1 = part_range_chars(parts, 1);
        return Err(missing_with(r1.1 + 1, "Try inserting an accumulator or a memory cell"));
    }
    proof {
        lemma_part_operand(p, 2);
        lemma_part_bounds(p, 2);
        assert(p[2] == parts@[2]@);
    }
    let r2 = part_range_chars(parts, 2);
    let a = match value_chars(parts[2].as_slice(), r2) {
        Err(e) => return Err(e),
        Ok(a) => a,
    };
    if parts.len() == 3 {
        return Ok(Instruction::Assign(t, a));
    }
    proof {
        lemma_part_bounds(p, 3);
        assert(p[3] == parts@[3]@);
    }
    let r3 = part_range_chars(parts, 3);
    if parts.len() == 4 {
        return Err(missing_with(r3.1 + 1, "Try inserting an accumulator or a memory cell"));
    }
    if parts.len() == 5 {
        let op = match operation_chars(parts[3].as_slice(), r3) {
            Err(e) => return Err(e),
            Ok(op) => op,
        };
        proof {
            lemma_part_operand(p, 4);
            lemma_part_bounds(p, 4);
            assert(p[4] == parts@[4]@);
        }
        let r4 = part_range_chars(parts, 4);
        return match value_chars(parts[4].as_slice(), r4) {
            Err(e) => Err(e),
            Ok(b) => Ok(Instruction::Calc(t, a, op, b)),
        };
    }
    proof {
        lemma_widths_len(p);
        lemma_join_width(p);
    }
    Err(unknown_instruction(parts))
}

/// Tells whether the parts `raw` of a line can be read (see [`readable`]),
/// which [`Instruction::try_from_parts`] requires.
pub fn parts_readable(raw: &Vec<Vec<char>>) -> (res: bool)
    ensures
        res == readable(cleaned(views(raw@))),
{
    let parts = clean_parts(raw);
    let ghost p = views(parts@);
    let mut total: u128 = 0;
    let mut i: usize = 0;
    while i < parts.len()
        invariant
            i <= parts.len(),
            p == views(parts@),
            p == cleaned(views(raw@)),
            total == widths(p.take(i as int)),
            total <= usize::MAX,
        decreases parts.len() - i,
    {
        assert(p[i as int] == parts@[i as int]@);
        let plen = parts[i].len();
        let n = crate::text::utf8_len_wide(parts[i].as_slice());
        assert(n <= 4 * plen) by {
            crate::text::lemma_utf8_len_at_least_len(p[i as int]);
        }
        proof {
            lemma_widths_step(p, i as int);
            crate::text::lemma_utf8_len_at_least_len(p[i as int]);
        }
        let t = total + n + 1;
        if t > usize::MAX as u128 {
            proof {
                lemma_widths_mono(p, i + 1, p.len() as int);
            }
            return false;
        }
        total = t;
        i = i + 1;
    }
    assert(p.take(p.len() as int) =~= p);
    if parts.len() == 0 {
        return false;
    }
    assert(p[0] == parts@[0]@);
    if parts.len() >= 2 && parts[0].len() == 0 {
        assert(p[1] == parts@[1]@);
        if eq_str(parts[1].as_slice(), ":=") || eq_str(parts[1].as_slice(), "=") {
            return false;
        }
    }
    true
}

/// Tells whether the line `s` can be read (see [`readable`]), which
/// [`Instruction::try_from`] requires.
pub fn instruction_readable(s: &str) -> (res: bool)
    ensures
        res == readable(cleaned(tokens(s@))),
{
    let c = to_chars(s);
    let t = split_whitespace(c.as_slice());
    parts_readable(&t)
}

impl Instruction {
    /// Reads an instruction from the white space separated parts of a line.
    pub fn try_from_parts(raw: &Vec<Vec<char>>) -> (res: Result<Instruction, InstructionParseError>)
        requires
            readable(cleaned(views(raw@))),
        ensures
            parsed_to(res, parts_spec(cleaned(views(raw@)))),
    {
        let parts = clean_parts(raw);
        let ghost p = views(parts@);
        assert(p[0] == parts@[0]@);
        let p0 = parts[0].as_slice();
        if eq_str(p0, "if") {
            return jump_if_chars(&parts);
        }
        if eq_str(p0, "goto") {
            match check_expression_missing(&parts, 1, Some("a label")) {
                Err(e) => return Err(e),
                Ok(()) => {},
            }
            assert(p[1] == parts@[1]@);
            return Ok(Instruction::Goto(chars_to_string(parts[1].as_slice())));
        }
        if eq_str(p0, "push") && parts.len() == 1 {
            return Ok(Instruction::Push);
        }
        if eq_str(p0, "pop") && parts.len() == 1 {
            return Ok(Instruction::Pop);
        }
        if eq_str(p0, "call") && parts.len() == 2 {
            assert(p[1] == parts@[1]@);
            return Ok(Instruction::Call(chars_to_string(parts[1].as_slice())));
        }
        if eq_str(p0, "return") && parts.len() == 1 {
            return Ok(Instruction::Return);
        }
        if starts_with_str(p0, "stack") {
            return stack_op_chars(&parts);
        }
        if parts.len() < 2 {
            proof {
                lemma_part_bounds(p, 0);
                assert(p.take(0) =~= Seq::<Seq<char>>::empty());
            }
            let n = str_len_utf8(p0);
            return Err(missing_with(n, "You might be missing ':='"));
        }
        assert(p[1] == parts@[1]@);
        if !eq_str(parts[1].as_slice(), ":=") && !eq_str(parts[1].as_slice(), "=") {
            proof {
                lemma_widths_len(p);
                lemma_join_width(p);
            }
            return Err(unknown_instruction(&parts));
        }
        assignment_chars(&parts)
    }

    /// Reads the instruction that the line `s` spells.
    pub fn try_from(s: &str) -> (res: Result<Instruction, InstructionParseError>)
        requires
            readable(cleaned(tokens(s@))),
        ensures
            parsed_to(res, line_spec(s@)),
    {
        let c = to_chars(s);
        let t = split_whitespace(c.as_slice());
        Self::try_from_parts(&t)
    }
}

} // verus!
