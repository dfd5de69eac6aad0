//! The values a program works on: accumulators, memory cells, and the
//! comparisons and operations of the alpha notation.
use vstd::prelude::*;

use crate::runtime::error_handling::{CalcError, CalcErrorV, RuntimeErrorType, RuntimeErrorV};
use crate::text::{eq_str, to_chars};






verus! {

/// A single accumulator ("Akkumulator" / alpha).
#[derive(Debug, Clone, PartialEq, Eq, Structural)]
pub struct Accumulator {
    /// Used to identify the accumulator.
    pub id: usize,
    /// The data stored in the accumulator.
    pub data: Option<i32>,
}

impl Accumulator {
    /// Creates a new accumulator that holds no value.
    pub fn new(id: usize) -> (res: Self)
        ensures
            res.id == id,
            res.data is None,
    {
        Self { id, data: None }
    }
}

/// A single memory cell ("Speicherzelle"), identified by its label.
#[derive(Debug, Clone)]
pub struct MemoryCell {
    pub label: String,
    pub data: Option<i32>,
}

impl MemoryCell {
    /// Creates a new memory cell that holds no value.
    pub fn new(label: &str) -> (res: Self)
        ensures
            res.label@ == label@,
            res.data is None,
    {
        Self { label: label.to_string(), data: None }
    }
}

/// A single index memory cell, identified by its index.
#[derive(Debug, Clone, PartialEq, Eq, Structural)]
pub struct IndexMemoryCell {
    pub index: usize,
    pub data: i32,
}


/// The ways in which two values can be compared.
#[derive(Debug, PartialEq, Eq, Structural, Clone, Copy, Hash)]
pub enum Comparison {
    Lt,
    Le,
    Eq,
    Neq,
    Ge,
    Gt,
}

/// Whether `x` relates to `y` as `c` says.
pub open spec fn compares(c: Comparison, x: i32, y: i32) -> bool {
    match c {
        Comparison::Lt => x < y,
        Comparison::Le => x <= y,
        Comparison::Eq => x == y,
        Comparison::Neq => x != y,
        Comparison::Ge => x >= y,
        Comparison::Gt => x > y,
    }
}

/// The comparison that the text `s` names, if any.
pub open spec fn comparison_from(s: Seq<char>) -> Option<Comparison> {
    if s == "<"@ {
        Some(Comparison::Lt)
    } else if s == "<="@ || s == "=<"@ || s == "≤"@ {
        Some(Comparison::Le)
    } else if s == "="@ || s == "=="@ {
        Some(Comparison::Eq)
    } else if s == "!="@ || s == "≠"@ {
        Some(Comparison::Neq)
    } else if s == ">="@ || s == "=>"@ || s == "≥"@ {
        Some(Comparison::Ge)
    } else if s == ">"@ {
        Some(Comparison::Gt)
    } else {
        None
    }
}

/// How a comparison is written.
pub open spec fn comparison_text(c: Comparison) -> Seq<char> {
    match c {
        Comparison::Lt => "<"@,
        Comparison::Le => "<="@,
        Comparison::Eq => "=="@,
        Comparison::Neq => "!="@,
        Comparison::Ge => ">="@,
        Comparison::Gt => ">"@,
    }
}

/// The command line name of a comparison.
pub open spec fn comparison_hint(c: Comparison) -> Seq<char> {
    match c {
        Comparison::Lt => "lt"@,
        Comparison::Le => "le"@,
        Comparison::Eq => "eq"@,
        Comparison::Neq => "neq"@,
        Comparison::Ge => "ge"@,
        Comparison::Gt => "gt"@,
    }
}

impl Comparison {
    /// Compares two values with the selected method of comparison.
    pub fn cmp(&self, x: i32, y: i32) -> (res: bool)
        ensures
            res == compares(*self, x, y),
    {
        match self {
            Comparison::Lt => x < y,
            Comparison::Le => x <= y,
            Comparison::Eq => x == y,
            Comparison::Neq => x != y,
            Comparison::Ge => x >= y,
            Comparison::Gt => x > y,
        }
    }

    /// Reads a comparison from its written form.
    pub fn try_from(value: &str) -> (res: Result<Comparison, ()>)
        ensures
            res matches Ok(c) ==> comparison_from(value@) == Some(c),
            res is Err ==> comparison_from(value@) is None,
    {
        let s = to_chars(value);
        let s = s.as_slice();
        if eq_str(s, "<") {
            Ok(Comparison::Lt)
        } else if eq_str(s, "<=") || eq_str(s, "=<") || eq_str(s, "≤") {
            Ok(Comparison::Le)
        } else if eq_str(s, "=") || eq_str(s, "==") {
            Ok(Comparison::Eq)
        } else if eq_str(s, "!=") || eq_str(s, "≠") {
            Ok(Comparison::Neq)
        } else if eq_str(s, ">=") || eq_str(s, "=>") || eq_str(s, "≥") {
            Ok(Comparison::Ge)
        } else if eq_str(s, ">") {
            Ok(Comparison::Gt)
        } else {
            Err(())
        }
    }

    /// How the comparison is written in a program.
    pub fn to_string(&self) -> (res: String)
        ensures
            res@ == comparison_text(*self),
    {
        match self {
            Comparison::Lt => "<".to_string(),
            Comparison::Le => "<=".to_string(),
            Comparison::Eq => "==".to_string(),
            Comparison::Neq => "!=".to_string(),
            Comparison::Ge => ">=".to_string(),
            Comparison::Gt => ">".to_string(),
        }
    }
}

/// The arithmetic operations.
#[derive(Debug, PartialEq, Eq, Structural, Clone, Copy, Hash)]
pub enum Operation {
    Add,
    Sub,
    Mul,
    Div,
    Mod,
}

/// Quotient of `x` by `y` rounded towards zero, as Rust's `/` on integers.
pub open spec fn trunc_div(x: int, y: int) -> int {
    if x >= 0 && y > 0 {
        x / y
    } else if x < 0 && y < 0 {
        (-x) / (-y)
    } else if x < 0 {
        -((-x) / y)
    } else {
        -(x / (-y))
    }
}

/// The exact result of `x op y` on the integers; `None` for a division by zero.
pub open spec fn exact_result(op: Operation, x: i32, y: i32) -> Option<int> {
    match op {
        Operation::Add => Some(x + y),
        Operation::Sub => Some(x - y),
        Operation::Mul => Some(x * y),
        Operation::Div => if y == 0 { None } else { Some(trunc_div(x as int, y as int)) },
        Operation::Mod => if y == 0 { None } else { Some((x as int) % (y as int)) },
    }
}

/// The verb and noun that name an operation in an overflow error.
pub open spec fn overflow_words(op: Operation) -> (Seq<char>, Seq<char>) {
    match op {
        Operation::Add => ("add"@, "Addition"@),
        Operation::Sub => ("subtract"@, "Subtraction"@),
        Operation::Mul => ("multiply"@, "Multiplication"@),
        Operation::Div => ("divide"@, "Division"@),
        Operation::Mod => ("mod"@, "Modulo"@),
    }
}

/// What `x op y` evaluates to: the exact result when it fits in an `i32`
/// (`%` is the Euclidean remainder), else the error that explains why not.
/// The remainder of `i32::MIN` by `-1` counts as an overflow, as the
/// quotient that it belongs to does not fit.
pub open spec fn calc_spec(op: Operation, x: i32, y: i32) -> Result<i32, CalcErrorV> {
    let overflow = CalcErrorV::AttemptToOverflow(overflow_words(op).0, overflow_words(op).1);
    match exact_result(op, x, y) {
        None => Err(CalcErrorV::AttemptToDivideByZero),
        Some(v) => if op == Operation::Mod && x == i32::MIN && y == -1 {
            Err(overflow)
        } else if i32::MIN <= v <= i32::MAX {
            Ok(v as i32)
        } else {
            Err(overflow)
        },
    }
}

/// How the operation is written.
pub open spec fn operation_text(op: Operation) -> Seq<char> {
    match op {
        Operation::Add => "+"@,
        Operation::Sub => "-"@,
        Operation::Mul => "*"@,
        Operation::Div => "/"@,
        Operation::Mod => "%"@,
    }
}

/// The operation that the text `s` names, if any.
pub open spec fn operation_from(s: Seq<char>) -> Option<Operation> {
    if s == "+"@ {
        Some(Operation::Add)
    } else if s == "-"@ {
        Some(Operation::Sub)
    } else if s == "*"@ || s == "×"@ {
        Some(Operation::Mul)
    } else if s == "/"@ || s == "÷"@ {
        Some(Operation::Div)
    } else if s == "%"@ {
        Some(Operation::Mod)
    } else {
        None
    }
}

/// The command line name of an operation.
pub open spec fn operation_hint(op: Operation) -> Seq<char> {
    match op {
        Operation::Add => "add"@,
        Operation::Sub => "sub"@,
        Operation::Mul => "mul"@,
        Operation::Div => "div"@,
        Operation::Mod => "mod"@,
    }
}

fn overflow_error(verb: &str, noun: &str) -> (res: RuntimeErrorType)
    ensures
        res@ == RuntimeErrorV::IllegalCalculation(CalcErrorV::AttemptToOverflow(verb@, noun@)),
{
    RuntimeErrorType::IllegalCalculation {
        cause: CalcError::AttemptToOverflow(verb.to_string(), noun.to_string()),
    }
}

fn divide_by_zero_error() -> (res: RuntimeErrorType)
    ensures
        res@ == RuntimeErrorV::IllegalCalculation(CalcErrorV::AttemptToDivideByZero),
{
    RuntimeErrorType::IllegalCalculation { cause: CalcError::AttemptToDivideByZero() }
}

impl Operation {
    /// Calculates `x op y`.
    ///
    /// Fails when `y` is zero in a division or remainder, and when the
    /// result does not fit in an `i32`.
    pub fn calc(self, x: i32, y: i32) -> (res: Result<i32, RuntimeErrorType>)
        ensures
            match calc_spec(self, x, y) {
                Ok(v) => res == Ok::<i32, RuntimeErrorType>(v),
                Err(e) => res matches Err(r) && r@ == RuntimeErrorV::IllegalCalculation(e),
            },
    {
        match self {
            Operation::Add => match x.checked_add(y) {
                Some(v) => {
                    assert(calc_spec(self, x, y) == Ok::<i32, CalcErrorV>(v));
                    Ok(v)
                },
                None => Err(overflow_error("add", "Addition")),
            },
            Operation::Sub => match x.checked_sub(y) {
                Some(v) => {
                    assert(calc_spec(self, x, y) == Ok::<i32, CalcErrorV>(v));
                    Ok(v)
                },
                None => Err(overflow_error("subtract", "Subtraction")),
            },
            Operation::Mul => match x.checked_mul(y) {
                Some(v) => {
                    assert(calc_spec(self, x, y) == Ok::<i32, CalcErrorV>(v));
                    Ok(v)
                },
                None => Err(overflow_error("multiply", "Multiplication")),
            },
            Operation::Div => {
                if y == 0 {
                    Err(divide_by_zero_error())
                } else {
                    match x.checked_div(y) {
                        Some(v) => {
                            assert(calc_spec(self, x, y) == Ok::<i32, CalcErrorV>(v));
                            Ok(v)
                        },
                        None => Err(overflow_error("divide", "Division")),
                    }
                }
            },
            Operation::Mod => {
                if y == 0 {
                    Err(divide_by_zero_error())
                } else {
                    match x.checked_rem_euclid(y) {
                        Some(v) => {
                            assert(calc_spec(self, x, y) == Ok::<i32, CalcErrorV>(v));
                            Ok(v)
                        },
                        None => Err(overflow_error("mod", "Modulo")),
                    }
                }
            },
        }
    }

    /// Reads an operation from its written form.
    pub fn try_from(value: &str) -> (res: Result<Operation, ()>)
        ensures
            res matches Ok(o) ==> operation_from(value@) == Some(o),
            res is Err ==> operation_from(value@) is None,
    {
        let s = to_chars(value);
        let s = s.as_slice();
        if eq_str(s, "+") {
            Ok(Operation::Add)
        } else if eq_str(s, "-") {
            Ok(Operation::Sub)
        } else if eq_str(s, "*") || eq_str(s, "×") {
            Ok(Operation::Mul)
        } else if eq_str(s, "/") || eq_str(s, "÷") {
            Ok(Operation::Div)
        } else if eq_str(s, "%") {
            Ok(Operation::Mod)
        } else {
            Err(())
        }
    }

    /// How the operation is written in a program.
    pub fn to_string(&self) -> (res: String)
        ensures
            res@ == operation_text(*self),
    {
        match self {
            Operation::Add => "+".to_string(),
            Operation::Sub => "-".to_string(),
            Operation::Mul => "*".to_string(),
            Operation::Div => "/".to_string(),
            Operation::Mod => "%".to_string(),
        }
    }
}

} // verus!
