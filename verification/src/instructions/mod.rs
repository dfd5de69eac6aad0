//! The instructions of the alpha notation, how they are read and what they do.
use vstd::prelude::*;

use crate::base::{Comparison, Operation};

pub mod error_handling;
pub mod instruction_config;
pub mod notation;
pub mod parsing;
pub mod roundtrip;
pub mod semantics;

verus! {

/// Where an index memory cell takes its index from.
#[derive(Debug, PartialEq, Clone)]
pub enum IndexMemoryCellIndexType {
    /// The value of an accumulator, e.g. `p(a0)`.
    Accumulator(usize),
    /// A direct index, e.g. `p(1)`.
    Direct(usize),
    /// The value of the gamma accumulator, `p(y)`.
    Gamma,
    /// The value of a memory cell, e.g. `p(p(h1))`.
    MemoryCell(String),
    /// The value of an index memory cell, e.g. `p(p(1))`.
    Index(usize),
}

/// A location that an instruction writes to.
#[derive(Debug, PartialEq, Clone)]
pub enum TargetType {
    Accumulator(usize),
    Gamma,
    MemoryCell(String),
    IndexMemoryCell(IndexMemoryCellIndexType),
}

/// A value that an instruction reads.
#[derive(Debug, PartialEq, Clone)]
pub enum Value {
    Accumulator(usize),
    Gamma,
    MemoryCell(String),
    Constant(i32),
    IndexMemoryCell(IndexMemoryCellIndexType),
}

/// A single instruction of a program.
#[derive(Debug, PartialEq, Clone)]
pub enum Instruction {
    Assign(TargetType, Value),
    Calc(TargetType, Value, Operation, Value),
    JumpIf(Value, Comparison, Value, String),
    Goto(String),
    Push,
    Pop,
    StackOp(Operation),
    Call(String),
    Return,
    /// Does nothing; stands for empty lines and lines with a label only.
    Noop,
}

/// [`IndexMemoryCellIndexType`] with names as character sequences.
pub enum IndexV {
    Accumulator(usize),
    Direct(usize),
    Gamma,
    MemoryCell(Seq<char>),
    Index(usize),
}

/// [`TargetType`] with names as character sequences.
pub enum TargetV {
    Accumulator(usize),
    Gamma,
    MemoryCell(Seq<char>),
    IndexMemoryCell(IndexV),
}

/// [`Value`] with names as character sequences.
pub enum ValueV {
    Accumulator(usize),
    Gamma,
    MemoryCell(Seq<char>),
    Constant(i32),
    IndexMemoryCell(IndexV),
}

/// [`Instruction`] with names as character sequences.
pub enum InstructionV {
    Assign(TargetV, ValueV),
    Calc(TargetV, ValueV, Operation, ValueV),
    JumpIf(ValueV, Comparison, ValueV, Seq<char>),
    Goto(Seq<char>),
    Push,
    Pop,
    StackOp(Operation),
    Call(Seq<char>),
    Return,
    Noop,
}

impl View for IndexMemoryCellIndexType {
    type V = IndexV;

    open spec fn view(&self) -> IndexV {
        match self {
            IndexMemoryCellIndexType::Accumulator(a) => IndexV::Accumulator(*a),
            IndexMemoryCellIndexType::Direct(i) => IndexV::Direct(*i),
            IndexMemoryCellIndexType::Gamma => IndexV::Gamma,
            IndexMemoryCellIndexType::MemoryCell(n) => IndexV::MemoryCell(n@),
            IndexMemoryCellIndexType::Index(i) => IndexV::Index(*i),
        }
    }
}

impl View for TargetType {
    type V = TargetV;

    open spec fn view(&self) -> TargetV {
        match self {
            TargetType::Accumulator(a) => TargetV::Accumulator(*a),
            TargetType::Gamma => TargetV::Gamma,
            TargetType::MemoryCell(n) => TargetV::MemoryCell(n@),
            TargetType::IndexMemoryCell(t) => TargetV::IndexMemoryCell(t@),
        }
    }
}

impl View for Value {
    type V = ValueV;

    open spec fn view(&self) -> ValueV {
        match self {
            Value::Accumulator(a) => ValueV::Accumulator(*a),
            Value::Gamma => ValueV::Gamma,
            Value::MemoryCell(n) => ValueV::MemoryCell(n@),
            Value::Constant(c) => ValueV::Constant(*c),
            Value::IndexMemoryCell(t) => ValueV::IndexMemoryCell(t@),
        }
    }
}

impl View for Instruction {
    type V = InstructionV;

    open spec fn view(&self) -> InstructionV {
        match self {
            Instruction::Assign(t, v) => InstructionV::Assign(t@, v@),
            Instruction::Calc(t, a, op, b) => InstructionV::Calc(t@, a@, *op, b@),
            Instruction::JumpIf(a, c, b, l) => InstructionV::JumpIf(a@, *c, b@, l@),
            Instruction::Goto(l) => InstructionV::Goto(l@),
            Instruction::Push => InstructionV::Push,
            Instruction::Pop => InstructionV::Pop,
            Instruction::StackOp(op) => InstructionV::StackOp(*op),
            Instruction::Call(l) => InstructionV::Call(l@),
            Instruction::Return => InstructionV::Return,
            Instruction::Noop => InstructionV::Noop,
        }
    }
}


impl IndexMemoryCellIndexType {
    /// An equal index.
    pub fn duplicate(&self) -> (res: Self)
        ensures
            res@ == self@,
    {
        match self {
            IndexMemoryCellIndexType::Accumulator(a) => IndexMemoryCellIndexType::Accumulator(*a),
            IndexMemoryCellIndexType::Direct(i) => IndexMemoryCellIndexType::Direct(*i),
            IndexMemoryCellIndexType::Gamma => IndexMemoryCellIndexType::Gamma,
            IndexMemoryCellIndexType::MemoryCell(n) => IndexMemoryCellIndexType::MemoryCell(n.clone()),
            IndexMemoryCellIndexType::Index(i) => IndexMemoryCellIndexType::Index(*i),
        }
    }

    /// Whether the index is the gamma accumulator.
    pub fn is_gamma(&self) -> (res: bool)
        ensures
            res == (self@ is Gamma),
    {
        match self {
            IndexMemoryCellIndexType::Gamma => true,
            _ => false,
        }
    }
}

impl TargetType {
    /// An equal target.
    pub fn duplicate(&self) -> (res: Self)
        ensures
            res@ == self@,
    {
        match self {
            TargetType::Accumulator(a) => TargetType::Accumulator(*a),
            TargetType::Gamma => TargetType::Gamma,
            TargetType::MemoryCell(n) => TargetType::MemoryCell(n.clone()),
            TargetType::IndexMemoryCell(t) => TargetType::IndexMemoryCell(t.duplicate()),
        }
    }

    /// Whether the target is an index memory cell whose index is the gamma accumulator.
    pub fn is_imc_gamma(&self) -> (res: bool)
        ensures
            res == (self@ == TargetV::IndexMemoryCell(IndexV::Gamma)),
    {
        match self {
            TargetType::IndexMemoryCell(t) => t.is_gamma(),
            _ => false,
        }
    }
}

impl Value {
    /// An equal value.
    pub fn duplicate(&self) -> (res: Self)
        ensures
            res@ == self@,
    {
        match self {
            Value::Accumulator(a) => Value::Accumulator(*a),
            Value::Gamma => Value::Gamma,
            Value::MemoryCell(n) => Value::MemoryCell(n.clone()),
            Value::Constant(c) => Value::Constant(*c),
            Value::IndexMemoryCell(t) => Value::IndexMemoryCell(t.duplicate()),
        }
    }

    /// Whether the value is an index memory cell whose index is the gamma accumulator.
    pub fn is_imc_gamma(&self) -> (res: bool)
        ensures
            res == (self@ == ValueV::IndexMemoryCell(IndexV::Gamma)),
    {
        match self {
            Value::IndexMemoryCell(t) => t.is_gamma(),
            _ => false,
        }
    }
}

impl Instruction {
    /// An equal instruction.
    pub fn duplicate(&self) -> (res: Self)
        ensures
            res@ == self@,
    {
        match self {
            Instruction::Assign(t, v) => Instruction::Assign(t.duplicate(), v.duplicate()),
            Instruction::Calc(t, a, op, b) => Instruction::Calc(t.duplicate(), a.duplicate(), *op, b.duplicate()),
            Instruction::JumpIf(a, c, b, l) => Instruction::JumpIf(a.duplicate(), *c, b.duplicate(), l.clone()),
            Instruction::Goto(l) => Instruction::Goto(l.clone()),
            Instruction::Push => Instruction::Push,
            Instruction::Pop => Instruction::Pop,
            Instruction::StackOp(op) => Instruction::StackOp(*op),
            Instruction::Call(l) => Instruction::Call(l.clone()),
            Instruction::Return => Instruction::Return,
            Instruction::Noop => Instruction::Noop,
        }
    }
}

} // verus!
