//! How instructions are written, and the kinds of instructions that a
//! whitelist of allowed instructions speaks of.
use vstd::prelude::*;

use crate::base::{comparison_text, operation_text, Accumulator, Comparison, MemoryCell, Operation};
use crate::instructions::{
    IndexMemoryCellIndexType, IndexV, Instruction, InstructionV, TargetType, TargetV, Value, ValueV,
};
use crate::text::{chars_to_string, decimal, decimal_i32, push_all, push_decimal, push_decimal_i32, push_str, to_chars};

verus! {

/// Stands for an accumulator in an instruction kind.
pub const ACCUMULATOR_IDENTIFIER: &'static str = "A";

/// Stands for the gamma accumulator in an instruction kind.
pub const GAMMA_IDENTIFIER: &'static str = "Y";

/// Stands for a memory cell in an instruction kind.
pub const MEMORY_CELL_IDENTIFIER: &'static str = "M";

/// Stands for an index memory cell in an instruction kind.
pub const INDEX_MEMORY_CELL_IDENTIFIER: &'static str = "M";

/// Stands for a constant in an instruction kind.
pub const CONSTANT_IDENTIFIER: &'static str = "C";

/// Stands for a comparison in an instruction kind.
pub const COMPARISON_IDENTIFIER: &'static str = "CMP";

/// Stands for an operation in an instruction kind.
pub const OPERATOR_IDENTIFIER: &'static str = "OP";

/// Gives the kind of a part of an instruction, as a whitelist of allowed
/// instructions writes it.
pub trait Identifier {
    fn identifier(&self) -> String;
}

/// How the index of an index memory cell is written.
pub open spec fn index_text(t: IndexV) -> Seq<char> {
    match t {
        IndexV::Accumulator(a) => "a"@ + decimal(a as nat),
        IndexV::Direct(i) => decimal(i as nat),
        IndexV::Gamma => "y"@,
        IndexV::Index(i) => "p("@ + decimal(i as nat) + ")"@,
        IndexV::MemoryCell(n) => "p("@ + n + ")"@,
    }
}

/// How a value is written.
pub open spec fn value_text(v: ValueV) -> Seq<char> {
    match v {
        ValueV::Accumulator(a) => "a"@ + decimal(a as nat),
        ValueV::Gamma => "y"@,
        ValueV::MemoryCell(n) => "p("@ + n + ")"@,
        ValueV::Constant(c) => decimal_i32(c),
        ValueV::IndexMemoryCell(t) => "p("@ + index_text(t) + ")"@,
    }
}

/// How a target is written.
pub open spec fn target_text(t: TargetV) -> Seq<char> {
    match t {
        TargetV::Accumulator(a) => "a"@ + decimal(a as nat),
        TargetV::Gamma => "y"@,
        TargetV::MemoryCell(n) => "p("@ + n + ")"@,
        TargetV::IndexMemoryCell(x) => "p("@ + index_text(x) + ")"@,
    }
}

/// How an instruction is written.
pub open spec fn instruction_text(i: InstructionV) -> Seq<char> {
    match i {
        InstructionV::Assign(t, v) => target_text(t) + " := "@ + value_text(v),
        InstructionV::Calc(t, a, op, b) => target_text(t) + " := "@ + value_text(a) + " "@ + operation_text(op)
            + " "@ + value_text(b),
        InstructionV::JumpIf(a, c, b, l) => "if "@ + value_text(a) + " "@ + comparison_text(c) + " "@
            + value_text(b) + " then goto "@ + l,
        InstructionV::Goto(l) => "goto "@ + l,
        InstructionV::Push => "push"@,
        InstructionV::Pop => "pop"@,
        InstructionV::StackOp(op) => "stack"@ + operation_text(op),
        InstructionV::Call(l) => "call "@ + l,
        InstructionV::Return => "return"@,
        InstructionV::Noop => Seq::empty(),
    }
}

/// The kind of the index of an index memory cell.
pub open spec fn index_kind(t: IndexV) -> Seq<char> {
    match t {
        IndexV::Accumulator(_) => "A"@,
        IndexV::Direct(_) => "C"@,
        IndexV::Gamma => "Y"@,
        IndexV::Index(_) => "M(C)"@,
        IndexV::MemoryCell(_) => "M"@,
    }
}

/// The kind of a value; an index memory cell counts as a memory cell.
pub open spec fn value_kind(v: ValueV) -> Seq<char> {
    match v {
        ValueV::Accumulator(_) => "A"@,
        ValueV::Gamma => "Y"@,
        ValueV::MemoryCell(_) => "M"@,
        ValueV::Constant(_) => "C"@,
        ValueV::IndexMemoryCell(_) => "M"@,
    }
}

/// The kind of a target; an index memory cell shows the kind of its index.
pub open spec fn target_kind(t: TargetV) -> Seq<char> {
    match t {
        TargetV::Accumulator(_) => "A"@,
        TargetV::Gamma => "Y"@,
        TargetV::MemoryCell(_) => "M"@,
        TargetV::IndexMemoryCell(x) => "M("@ + index_kind(x) + ")"@,
    }
}

/// The kind of an instruction, as a whitelist writes it.
pub open spec fn instruction_kind(i: InstructionV) -> Seq<char> {
    match i {
        InstructionV::Assign(t, v) => target_kind(t) + " := "@ + value_kind(v),
        InstructionV::Calc(t, a, _, b) => target_kind(t) + " := "@ + value_kind(a) + " OP "@ + value_kind(b),
        InstructionV::JumpIf(a, _, b, _) => "if "@ + value_kind(a) + " CMP "@ + value_kind(b) + " then goto"@,
        InstructionV::Goto(_) => "goto"@,
        InstructionV::Push => "push"@,
        InstructionV::Pop => "pop"@,
        InstructionV::StackOp(_) => "stackOP"@,
        InstructionV::Call(_) => "call"@,
        InstructionV::Return => "return"@,
        InstructionV::Noop => "NOOP"@,
    }
}

fn push_index(out: &mut Vec<char>, t: &IndexMemoryCellIndexType)
    ensures
        final(out)@ == old(out)@ + index_text(t@),
{
    match t {
        IndexMemoryCellIndexType::Accumulator(a) => {
            push_str(out, "a");
            push_decimal(out, *a as u64);
        },
        IndexMemoryCellIndexType::Direct(i) => push_decimal(out, *i as u64),
        IndexMemoryCellIndexType::Gamma => push_str(out, "y"),
        IndexMemoryCellIndexType::Index(i) => {
            push_str(out, "p(");
            push_decimal(out, *i as u64);
            push_str(out, ")");
        },
        IndexMemoryCellIndexType::MemoryCell(n) => {
            push_str(out, "p(");
            push_str(out, n.as_str());
            push_str(out, ")");
        },
    }
    assert(final(out)@ =~= old(out)@ + index_text(t@));
}

fn push_value(out: &mut Vec<char>, v: &Value)
    ensures
        final(out)@ == old(out)@ + value_text(v@),
{
    match v {
        Value::Accumulator(a) => {
            push_str(out, "a");
            push_decimal(out, *a as u64);
        },
        Value::Gamma => push_str(out, "y"),
        Value::MemoryCell(n) => {
            push_str(out, "p(");
            push_str(out, n.as_str());
            push_str(out, ")");
        },
        Value::Constant(c) => push_decimal_i32(out, *c),
        Value::IndexMemoryCell(t) => {
            push_str(out, "p(");
            push_index(out, t);
            push_str(out, ")");
        },
    }
    assert(final(out)@ =~= old(out)@ + value_text(v@));
}

fn push_target(out: &mut Vec<char>, t: &TargetType)
    ensures
        final(out)@ == old(out)@ + target_text(t@),
{
    match t {
        TargetType::Accumulator(a) => {
            push_str(out, "a");
            push_decimal(out, *a as u64);
        },
        TargetType::Gamma => push_str(out, "y"),
        TargetType::MemoryCell(n) => {
            push_str(out, "p(");
            push_str(out, n.as_str());
            push_str(out, ")");
        },
        TargetType::IndexMemoryCell(x) => {
            push_str(out, "p(");
            push_index(out, x);
            push_str(out, ")");
        },
    }
    assert(final(out)@ =~= old(out)@ + target_text(t@));
}

fn push_operation(out: &mut Vec<char>, op: Operation)
    ensures
        final(out)@ == old(out)@ + operation_text(op),
{
    let s = op.to_string();
    push_str(out, s.as_str());
}

fn push_comparison(out: &mut Vec<char>, c: Comparison)
    ensures
        final(out)@ == old(out)@ + comparison_text(c),
{
    let s = c.to_string();
    push_str(out, s.as_str());
}

impl IndexMemoryCellIndexType {
    /// How the index is written.
    pub fn to_string(&self) -> (res: String)
        ensures
            res@ == index_text(self@),
    {
        let mut out: Vec<char> = Vec::new();
        push_index(&mut out, self);
        assert(out@ =~= index_text(self@));
        chars_to_string(out.as_slice())
    }
}

impl Value {
    /// How the value is written.
    pub fn to_string(&self) -> (res: String)
        ensures
            res@ == value_text(self@),
    {
        let mut out: Vec<char> = Vec::new();
        push_value(&mut out, self);
        assert(out@ =~= value_text(self@));
        chars_to_string(out.as_slice())
    }
}

impl TargetType {
    /// How the target is written.
    pub fn to_string(&self) -> (res: String)
        ensures
            res@ == target_text(self@),
    {
        let mut out: Vec<char> = Vec::new();
        push_target(&mut out, self);
        assert(out@ =~= target_text(self@));
        chars_to_string(out.as_slice())
    }
}

impl Instruction {
    /// How the instruction is written.
    pub fn to_string(&self) -> (res: String)
        ensures
            res@ == instruction_text(self@),
    {
        let mut out: Vec<char> = Vec::new();
        match self {
            Instruction::Assign(t, v) => {
                push_target(&mut out, t);
                push_str(&mut out, " := ");
                push_value(&mut out, v);
            },
            Instruction::Calc(t, a, op, b) => {
                push_target(&mut out, t);
                push_str(&mut out, " := ");
                push_value(&mut out, a);
                push_str(&mut out, " ");
                push_operation(&mut out, *op);
                push_str(&mut out, " ");
                push_value(&mut out, b);
            },
            Instruction::JumpIf(a, c, b, l) => {
                push_str(&mut out, "if ");
                push_value(&mut out, a);
                push_str(&mut out, " ");
                push_comparison(&mut out, *c);
                push_str(&mut out, " ");
                push_value(&mut out, b);
                push_str(&mut out, " then goto ");
                push_str(&mut out, l.as_str());
            },
            Instruction::Goto(l) => {
                push_str(&mut out, "goto ");
                push_str(&mut out, l.as_str());
            },
            Instruction::Push => push_str(&mut out, "push"),
            Instruction::Pop => push_str(&mut out, "pop"),
            Instruction::StackOp(op) => {
                push_str(&mut out, "stack");
                push_operation(&mut out, *op);
            },
            Instruction::Call(l) => {
                push_str(&mut out, "call ");
                push_str(&mut out, l.as_str());
            },
            Instruction::Return => push_str(&mut out, "return"),
            Instruction::Noop => {},
        }
        assert(out@ =~= instruction_text(self@));
        chars_to_string(out.as_slice())
    }

    /// The comparison of the instruction, if it has one.
    pub fn comparison(&self) -> (res: Option<&Comparison>)
        ensures
            match self@ {
                InstructionV::JumpIf(_, c, _, _) => res == Some(&c),
                _ => res is None,
            },
    {
        match self {
            Instruction::JumpIf(_, c, _, _) => Some(c),
            _ => None,
        }
    }

    /// The operation of the instruction, if it has one.
    pub fn operation(&self) -> (res: Option<&Operation>)
        ensures
            match self@ {
                InstructionV::Calc(_, _, op, _) => res == Some(&op),
                InstructionV::StackOp(op) => res == Some(&op),
                _ => res is None,
            },
    {
        match self {
            Instruction::Calc(_, _, op, _) => Some(op),
            Instruction::StackOp(op) => Some(op),
            _ => None,
        }
    }
}

fn push_index_kind(out: &mut Vec<char>, t: &IndexMemoryCellIndexType)
    ensures
        final(out)@ == old(out)@ + index_kind(t@),
{
    match t {
        IndexMemoryCellIndexType::Accumulator(_) => push_str(out, "A"),
        IndexMemoryCellIndexType::Direct(_) => push_str(out, "C"),
        IndexMemoryCellIndexType::Gamma => push_str(out, "Y"),
        IndexMemoryCellIndexType::Index(_) => push_str(out, "M(C)"),
        IndexMemoryCellIndexType::MemoryCell(_) => push_str(out, "M"),
    }
}

fn push_value_kind(out: &mut Vec<char>, v: &Value)
    ensures
        final(out)@ == old(out)@ + value_kind(v@),
{
    match v {
        Value::Accumulator(_) => push_str(out, "A"),
        Value::Gamma => push_str(out, "Y"),
        Value::MemoryCell(_) => push_str(out, "M"),
        Value::Constant(_) => push_str(out, "C"),
        Value::IndexMemoryCell(_) => push_str(out, "M"),
    }
}

fn push_target_kind(out: &mut Vec<char>, t: &TargetType)
    ensures
        final(out)@ == old(out)@ + target_kind(t@),
{
    match t {
        TargetType::Accumulator(_) => push_str(out, "A"),
        TargetType::Gamma => push_str(out, "Y"),
        TargetType::MemoryCell(_) => push_str(out, "M"),
        TargetType::IndexMemoryCell(x) => {
            push_str(out, "M(");
            push_index_kind(out, x);
            push_str(out, ")");
            assert(final(out)@ =~= old(out)@ + target_kind(t@));
        },
    }
}

impl Identifier for Value {
    fn identifier(&self) -> (res: String)
        ensures
            res@ == value_kind(self@),
    {
        let mut out: Vec<char> = Vec::new();
        push_value_kind(&mut out, self);
        assert(out@ =~= value_kind(self@));
        chars_to_string(out.as_slice())
    }
}

impl Identifier for TargetType {
    fn identifier(&self) -> (res: String)
        ensures
            res@ == target_kind(self@),
    {
        let mut out: Vec<char> = Vec::new();
        push_target_kind(&mut out, self);
        assert(out@ =~= target_kind(self@));
        chars_to_string(out.as_slice())
    }
}

impl Identifier for Comparison {
    fn identifier(&self) -> (res: String)
        ensures
            res@ == "CMP"@,
    {
        COMPARISON_IDENTIFIER.to_string()
    }
}

impl Identifier for Operation {
    fn identifier(&self) -> (res: String)
        ensures
            res@ == "OP"@,
    {
        OPERATOR_IDENTIFIER.to_string()
    }
}

impl Identifier for Instruction {
    fn identifier(&self) -> (res: String)
        ensures
            res@ == instruction_kind(self@),
    {
        let mut out: Vec<char> = Vec::new();
        match self {
            Instruction::Assign(t, v) => {
                push_target_kind(&mut out, t);
                push_str(&mut out, " := ");
                push_value_kind(&mut out, v);
            },
            Instruction::Calc(t, a, _, b) => {
                push_target_kind(&mut out, t);
                push_str(&mut out, " := ");
                push_value_kind(&mut out, a);
                push_str(&mut out, " OP ");
                push_value_kind(&mut out, b);
            },
            Instruction::JumpIf(a, _, b, _) => {
                push_str(&mut out, "if ");
                push_value_kind(&mut out, a);
                push_str(&mut out, " CMP ");
                push_value_kind(&mut out, b);
                push_str(&mut out, " then goto");
            },
            Instruction::Goto(_) => push_str(&mut out, "goto"),
            Instruction::Push => push_str(&mut out, "push"),
            Instruction::Pop => push_str(&mut out, "pop"),
            Instruction::StackOp(_) => push_str(&mut out, "stackOP"),
            Instruction::Call(_) => push_str(&mut out, "call"),
            Instruction::Return => push_str(&mut out, "return"),
            Instruction::Noop => push_str(&mut out, "NOOP"),
        }
        assert(out@ =~= instruction_kind(self@));
        chars_to_string(out.as_slice())
    }
}


/// `s` padded with spaces on the left to at least two characters.
pub open spec fn pad_left(s: Seq<char>) -> Seq<char> {
    if s.len() < 2 {
        Seq::new((2 - s.len()) as nat, |i: int| ' ') + s
    } else {
        s
    }
}

/// `s` padded with spaces on the right to at least two characters.
pub open spec fn pad_right(s: Seq<char>) -> Seq<char> {
    if s.len() < 2 {
        s + Seq::new((2 - s.len()) as nat, |i: int| ' ')
    } else {
        s
    }
}

/// How the content of a memory location is shown: its value, or `None`.
pub open spec fn data_text(data: Option<i32>) -> Seq<char> {
    match data {
        Some(d) => decimal_i32(d),
        None => "None"@,
    }
}

fn push_data(out: &mut Vec<char>, data: Option<i32>)
    ensures
        final(out)@ == old(out)@ + data_text(data),
{
    match data {
        Some(d) => push_decimal_i32(out, d),
        None => push_str(out, "None"),
    }
}

impl Accumulator {
    /// The accumulator as the memory view shows it: its id, right aligned
    /// in two columns, then its value.
    pub fn to_string(&self) -> (res: String)
        ensures
            res@ == pad_left(decimal(self.id as nat)) + ": "@ + data_text(self.data),
    {
        let mut digits: Vec<char> = Vec::new();
        push_decimal(&mut digits, self.id as u64);
        let mut out: Vec<char> = Vec::new();
        if digits.len() < 2 {
            out.push(' ');
        }
        push_all(&mut out, digits.as_slice());
        push_str(&mut out, ": ");
        push_data(&mut out, self.data);
        proof {
            if digits@.len() < 2 {
                assert(Seq::new((2 - digits@.len()) as nat, |i: int| ' ') =~= seq![' ']);
            }
        }
        assert(out@ =~= pad_left(decimal(self.id as nat)) + ": "@ + data_text(self.data));
        chars_to_string(out.as_slice())
    }
}

impl MemoryCell {
    /// The memory cell as the memory view shows it: its label, left aligned
    /// in two columns, then its value.
    pub fn to_string(&self) -> (res: String)
        ensures
            res@ == pad_right(self.label@) + ": "@ + data_text(self.data),
    {
        let label = to_chars(self.label.as_str());
        let mut out: Vec<char> = Vec::new();
        push_all(&mut out, label.as_slice());
        let mut k: usize = label.len();
        while k < 2
            invariant
                label.len() <= k <= 2 || (k == label.len() && k >= 2),
                out@ == label@ + Seq::new((k - label.len()) as nat, |i: int| ' '),
            decreases 2 - k,
        {
            out.push(' ');
            assert(out@ =~= label@ + Seq::new((k + 1 - label.len()) as nat, |i: int| ' '));
            k = k + 1;
        }
        proof {
            if label@.len() >= 2 {
                assert(out@ =~= label@);
            }
        }
        push_str(&mut out, ": ");
        push_data(&mut out, self.data);
        assert(out@ =~= pad_right(self.label@) + ": "@ + data_text(self.data));
        chars_to_string(out.as_slice())
    }
}

} // verus!
