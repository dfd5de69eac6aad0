//! Errors of building and running a program.
use vstd::prelude::*;

use crate::base::Operation;
use crate::instructions::error_handling::{BuildProgramError, ProgramErrorV};

verus! {

/// Errors that can occur when a runtime is constructed from a `RuntimeBuilder`.
#[derive(Debug, PartialEq)]
pub enum RuntimeBuildError {
    RuntimeArgsMissing,
    InstructionsMissing,
    /// A label is used in an instruction but defined nowhere.
    LabelUndefined(String),
    MemoryCellMissing(String),
    AccumulatorMissing(String),
    /// The gamma accumulator is used although it is disabled.
    GammaDisabled,
    /// The program uses an instruction, a comparison or an operation that is not allowed.
    InstructionsNotAllowed(BuildProgramError),
}

/// The mathematical value of a [`RuntimeBuildError`].
pub enum BuildErrorV {
    RuntimeArgsMissing,
    InstructionsMissing,
    LabelUndefined(Seq<char>),
    MemoryCellMissing(Seq<char>),
    AccumulatorMissing(Seq<char>),
    GammaDisabled,
    InstructionsNotAllowed(ProgramErrorV),
}

impl View for RuntimeBuildError {
    type V = BuildErrorV;

    open spec fn view(&self) -> BuildErrorV {
        match self {
            RuntimeBuildError::RuntimeArgsMissing => BuildErrorV::RuntimeArgsMissing,
            RuntimeBuildError::InstructionsMissing => BuildErrorV::InstructionsMissing,
            RuntimeBuildError::LabelUndefined(l) => BuildErrorV::LabelUndefined(l@),
            RuntimeBuildError::MemoryCellMissing(n) => BuildErrorV::MemoryCellMissing(n@),
            RuntimeBuildError::AccumulatorMissing(n) => BuildErrorV::AccumulatorMissing(n@),
            RuntimeBuildError::GammaDisabled => BuildErrorV::GammaDisabled,
            RuntimeBuildError::InstructionsNotAllowed(e) => BuildErrorV::InstructionsNotAllowed(e@),
        }
    }
}

/// Errors of `RuntimeBuilder::add_label`.
#[derive(Debug, Clone, PartialEq, Eq, Structural)]
pub enum AddLabelError {
    InstructionsNotSet,
    IndexOutOfBounds,
}

/// A runtime error together with the line in which it occurred.
#[derive(Debug, Clone, PartialEq)]
pub struct RuntimeError {
    pub reason: RuntimeErrorType,
    pub line_number: usize,
}

/// The reasons for which running an instruction can fail.
#[derive(Debug, Clone, PartialEq)]
pub enum RuntimeErrorType {
    AccumulatorUninitialized(usize),
    AccumulatorDoesNotExist(usize),
    GammaUninitialized,
    GammaDoesNotExist,
    MemoryCellUninitialized(String),
    MemoryCellDoesNotExist(String),
    IndexMemoryCellUninitialized(usize),
    IndexMemoryCellDoesNotExist(usize),
    PushFail,
    PopFail,
    StackOpFail(Operation),
    StackOverflowError,
    LabelMissing(String),
    IllegalCalculation { cause: CalcError },
    IndexMemoryCellNegativeIndex(i32),
    /// The runtime has executed as many instructions as it allows.
    DesignLimitReached(usize),
}

/// The reasons for which a calculation can fail.
#[derive(Debug, Clone, PartialEq)]
pub enum CalcError {
    AttemptToDivideByZero(),
    /// First the verb, then the noun of the operation that overflowed.
    AttemptToOverflow(String, String),
}

/// The mathematical value of a [`CalcError`].
pub enum CalcErrorV {
    AttemptToDivideByZero,
    AttemptToOverflow(Seq<char>, Seq<char>),
}

/// The mathematical value of a [`RuntimeErrorType`]: names as character sequences.
pub enum RuntimeErrorV {
    AccumulatorUninitialized(usize),
    AccumulatorDoesNotExist(usize),
    GammaUninitialized,
    GammaDoesNotExist,
    MemoryCellUninitialized(Seq<char>),
    MemoryCellDoesNotExist(Seq<char>),
    IndexMemoryCellUninitialized(usize),
    IndexMemoryCellDoesNotExist(usize),
    PushFail,
    PopFail,
    StackOpFail(Operation),
    StackOverflowError,
    LabelMissing(Seq<char>),
    IllegalCalculation(CalcErrorV),
    IndexMemoryCellNegativeIndex(i32),
    DesignLimitReached(usize),
}

impl View for CalcError {
    type V = CalcErrorV;

    open spec fn view(&self) -> CalcErrorV {
        match self {
            CalcError::AttemptToDivideByZero() => CalcErrorV::AttemptToDivideByZero,
            CalcError::AttemptToOverflow(a, b) => CalcErrorV::AttemptToOverflow(a@, b@),
        }
    }
}

impl View for RuntimeErrorType {
    type V = RuntimeErrorV;

    open spec fn view(&self) -> RuntimeErrorV {
        match self {
            RuntimeErrorType::AccumulatorUninitialized(i) => RuntimeErrorV::AccumulatorUninitialized(*i),
            RuntimeErrorType::AccumulatorDoesNotExist(i) => RuntimeErrorV::AccumulatorDoesNotExist(*i),
            RuntimeErrorType::GammaUninitialized => RuntimeErrorV::GammaUninitialized,
            RuntimeErrorType::GammaDoesNotExist => RuntimeErrorV::GammaDoesNotExist,
            RuntimeErrorType::MemoryCellUninitialized(s) => RuntimeErrorV::MemoryCellUninitialized(s@),
            RuntimeErrorType::MemoryCellDoesNotExist(s) => RuntimeErrorV::MemoryCellDoesNotExist(s@),
            RuntimeErrorType::IndexMemoryCellUninitialized(i) => RuntimeErrorV::IndexMemoryCellUninitialized(*i),
            RuntimeErrorType::IndexMemoryCellDoesNotExist(i) => RuntimeErrorV::IndexMemoryCellDoesNotExist(*i),
            RuntimeErrorType::PushFail => RuntimeErrorV::PushFail,
            RuntimeErrorType::PopFail => RuntimeErrorV::PopFail,
            RuntimeErrorType::StackOpFail(op) => RuntimeErrorV::StackOpFail(*op),
            RuntimeErrorType::StackOverflowError => RuntimeErrorV::StackOverflowError,
            RuntimeErrorType::LabelMissing(s) => RuntimeErrorV::LabelMissing(s@),
            RuntimeErrorType::IllegalCalculation { cause } => RuntimeErrorV::IllegalCalculation(cause@),
            RuntimeErrorType::IndexMemoryCellNegativeIndex(i) => RuntimeErrorV::IndexMemoryCellNegativeIndex(*i),
            RuntimeErrorType::DesignLimitReached(n) => RuntimeErrorV::DesignLimitReached(*n),
        }
    }
}

} // verus!
