//! Errors of reading instructions and of building a program from them.
use vstd::prelude::*;

verus! {

/// Why a line could not be read as an instruction. Each error carries the
/// byte range of the line that it concerns.
#[derive(Debug, PartialEq)]
pub enum InstructionParseError {
    /// The operation does not exist.
    UnknownOperation((usize, usize), String),
    /// The comparison does not exist.
    UnknownComparison((usize, usize), String),
    /// A value that should be a number is not one.
    NotANumber((usize, usize), String),
    /// The marked expression is not valid.
    InvalidExpression((usize, usize), String),
    /// No instruction matches the line.
    UnknownInstruction((usize, usize), String),
    /// A part of the instruction is missing; `help` says which.
    MissingExpression { range: (usize, usize), help: String },
}

/// The mathematical value of an [`InstructionParseError`]: ranges as pairs of
/// integers and texts as character sequences.
pub enum ParseErrorV {
    UnknownOperation((int, int), Seq<char>),
    UnknownComparison((int, int), Seq<char>),
    NotANumber((int, int), Seq<char>),
    InvalidExpression((int, int), Seq<char>),
    UnknownInstruction((int, int), Seq<char>),
    MissingExpression((int, int), Seq<char>),
}

/// A byte range as a pair of integers.
pub open spec fn irange(r: (usize, usize)) -> (int, int) {
    (r.0 as int, r.1 as int)
}

impl View for InstructionParseError {
    type V = ParseErrorV;

    open spec fn view(&self) -> ParseErrorV {
        match self {
            InstructionParseError::UnknownOperation(r, s) => ParseErrorV::UnknownOperation(irange(*r), s@),
            InstructionParseError::UnknownComparison(r, s) => ParseErrorV::UnknownComparison(irange(*r), s@),
            InstructionParseError::NotANumber(r, s) => ParseErrorV::NotANumber(irange(*r), s@),
            InstructionParseError::InvalidExpression(r, s) => ParseErrorV::InvalidExpression(irange(*r), s@),
            InstructionParseError::UnknownInstruction(r, s) => ParseErrorV::UnknownInstruction(irange(*r), s@),
            InstructionParseError::MissingExpression { range, help } => ParseErrorV::MissingExpression(
                irange(*range),
                help@,
            ),
        }
    }
}

/// The range of an error.
pub open spec fn error_range(e: ParseErrorV) -> (int, int) {
    match e {
        ParseErrorV::UnknownOperation(r, _) => r,
        ParseErrorV::UnknownComparison(r, _) => r,
        ParseErrorV::NotANumber(r, _) => r,
        ParseErrorV::InvalidExpression(r, _) => r,
        ParseErrorV::UnknownInstruction(r, _) => r,
        ParseErrorV::MissingExpression(r, _) => r,
    }
}

impl InstructionParseError {
    /// The byte range of the line that the error concerns.
    pub fn range(&self) -> (res: (usize, usize))
        ensures
            irange(res) == error_range(self@),
    {
        match self {
            InstructionParseError::UnknownOperation(c, _) => *c,
            InstructionParseError::UnknownComparison(c, _) => *c,
            InstructionParseError::NotANumber(c, _) => *c,
            InstructionParseError::InvalidExpression(c, _) => *c,
            InstructionParseError::UnknownInstruction(c, _) => *c,
            InstructionParseError::MissingExpression { range: c, help: _ } => *c,
        }
    }
}

/// Why a program could not be built.
#[derive(Debug, PartialEq)]
pub enum BuildProgramErrorTypes {
    /// Line `line` of the file `file_name` is no instruction.
    ParseError { file_name: String, line: usize, reason: InstructionParseError },
    /// A label is defined more than once.
    LabelDefinedMultipleTimes(String),
    /// The main label is defined more than once, or both `main` and `MAIN` are.
    MainLabelDefinedMultipleTimes,
    /// The instruction in line `.0`, written `.1`, is of a kind (`.2`) that is
    /// not allowed; `.3` lists the allowed kinds, one per line.
    InstructionNotAllowed(usize, String, String, String),
    /// The comparison `.1` in line `.0` is not allowed; `.2` is its command line name.
    ComparisonNotAllowed(usize, String, String),
    /// The operation `.1` in line `.0` is not allowed; `.2` is its command line name.
    OperationNotAllowed(usize, String, String),
}

/// An error of building a program.
#[derive(Debug, PartialEq)]
pub struct BuildProgramError {
    pub reason: BuildProgramErrorTypes,
}

/// The mathematical value of a [`BuildProgramError`].
pub enum ProgramErrorV {
    ParseError(Seq<char>, usize, ParseErrorV),
    LabelDefinedMultipleTimes(Seq<char>),
    MainLabelDefinedMultipleTimes,
    InstructionNotAllowed(usize, Seq<char>, Seq<char>, Seq<char>),
    ComparisonNotAllowed(usize, Seq<char>, Seq<char>),
    OperationNotAllowed(usize, Seq<char>, Seq<char>),
}

impl View for BuildProgramError {
    type V = ProgramErrorV;

    open spec fn view(&self) -> ProgramErrorV {
        match &self.reason {
            BuildProgramErrorTypes::ParseError { file_name, line, reason } => ProgramErrorV::ParseError(
                file_name@,
                *line,
                reason@,
            ),
            BuildProgramErrorTypes::LabelDefinedMultipleTimes(l) => ProgramErrorV::LabelDefinedMultipleTimes(l@),
            BuildProgramErrorTypes::MainLabelDefinedMultipleTimes => ProgramErrorV::MainLabelDefinedMultipleTimes,
            BuildProgramErrorTypes::InstructionNotAllowed(n, a, b, c) => ProgramErrorV::InstructionNotAllowed(
                *n,
                a@,
                b@,
                c@,
            ),
            BuildProgramErrorTypes::ComparisonNotAllowed(n, a, b) => ProgramErrorV::ComparisonNotAllowed(*n, a@, b@),
            BuildProgramErrorTypes::OperationNotAllowed(n, a, b) => ProgramErrorV::OperationNotAllowed(*n, a@, b@),
        }
    }
}

} // verus!
