//! What each instruction does to the memory and the control flow.
use vstd::prelude::*;

use crate::base::{calc_spec, compares, Comparison, Operation};
use crate::instructions::{
    IndexMemoryCellIndexType, IndexV, Instruction, InstructionV, TargetType, TargetV, Value, ValueV,
};
use crate::runtime::error_handling::{RuntimeErrorType, RuntimeErrorV};
use crate::runtime::{jump_spec, ControlFlow, ControlFlowView, MemoryView, RuntimeMemory, RuntimeSettings};

verus! {

/// `res` is the result that `spec` describes.
pub open spec fn agrees<T>(res: Result<T, RuntimeErrorType>, spec: Result<T, RuntimeErrorV>) -> bool {
    match spec {
        Ok(v) => res == Ok::<T, RuntimeErrorType>(v),
        Err(e) => res matches Err(r) && r@ == e,
    }
}

/// The value of accumulator `a`.
pub open spec fn acc_read(m: MemoryView, a: usize) -> Result<i32, RuntimeErrorV> {
    if !m.accumulators.contains_key(a) {
        Err(RuntimeErrorV::AccumulatorDoesNotExist(a))
    } else {
        match m.accumulators[a] {
            Some(v) => Ok(v),
            None => Err(RuntimeErrorV::AccumulatorUninitialized(a)),
        }
    }
}

/// The value of the gamma accumulator.
pub open spec fn gamma_read(m: MemoryView) -> Result<i32, RuntimeErrorV> {
    match m.gamma {
        None => Err(RuntimeErrorV::GammaDoesNotExist),
        Some(None) => Err(RuntimeErrorV::GammaUninitialized),
        Some(Some(v)) => Ok(v),
    }
}

/// The value of memory cell `n`.
pub open spec fn cell_read(m: MemoryView, n: Seq<char>) -> Result<i32, RuntimeErrorV> {
    if !m.memory_cells.contains_key(n) {
        Err(RuntimeErrorV::MemoryCellDoesNotExist(n))
    } else {
        match m.memory_cells[n] {
            Some(v) => Ok(v),
            None => Err(RuntimeErrorV::MemoryCellUninitialized(n)),
        }
    }
}

/// The value of index memory cell `i`.
pub open spec fn imc_read(m: MemoryView, i: usize) -> Result<i32, RuntimeErrorV> {
    if !m.index_memory_cells.contains_key(i) {
        Err(RuntimeErrorV::IndexMemoryCellDoesNotExist(i))
    } else {
        match m.index_memory_cells[i] {
            Some(v) => Ok(v),
            None => Err(RuntimeErrorV::IndexMemoryCellUninitialized(i)),
        }
    }
}

/// A value used as the index of an index memory cell.
pub open spec fn as_index(r: Result<i32, RuntimeErrorV>) -> Result<usize, RuntimeErrorV> {
    match r {
        Err(e) => Err(e),
        Ok(v) => if v < 0 {
            Err(RuntimeErrorV::IndexMemoryCellNegativeIndex(v))
        } else {
            Ok(v as usize)
        },
    }
}

/// The index of the index memory cell that `t` designates.
pub open spec fn index_of(t: IndexV, m: MemoryView) -> Result<usize, RuntimeErrorV> {
    match t {
        IndexV::Accumulator(a) => as_index(acc_read(m, a)),
        IndexV::Direct(i) => Ok(i),
        IndexV::Gamma => as_index(gamma_read(m)),
        IndexV::MemoryCell(n) => as_index(cell_read(m, n)),
        IndexV::Index(i) => as_index(imc_read(m, i)),
    }
}

/// What the value `v` evaluates to.
pub open spec fn value_of(v: ValueV, m: MemoryView) -> Result<i32, RuntimeErrorV> {
    match v {
        ValueV::Accumulator(a) => acc_read(m, a),
        ValueV::Gamma => gamma_read(m),
        ValueV::MemoryCell(n) => cell_read(m, n),
        ValueV::Constant(c) => Ok(c),
        ValueV::IndexMemoryCell(t) => match index_of(t, m) {
            Err(e) => Err(e),
            Ok(i) => imc_read(m, i),
        },
    }
}

/// A memory location that a value can be written to.
pub enum Location {
    Accumulator(usize),
    Gamma,
    MemoryCell(Seq<char>),
    IndexMemoryCell(usize),
}

/// The location that the target `t` designates. A location that does not
/// exist is an error unless the settings allow to create it.
pub open spec fn locate(t: TargetV, m: MemoryView, s: RuntimeSettings) -> Result<Location, RuntimeErrorV> {
    match t {
        TargetV::Accumulator(a) => if m.accumulators.contains_key(a) || s.autodetect_accumulators {
            Ok(Location::Accumulator(a))
        } else {
            Err(RuntimeErrorV::AccumulatorDoesNotExist(a))
        },
        TargetV::Gamma => if m.gamma is Some || s.autodetect_gamma_accumulator {
            Ok(Location::Gamma)
        } else {
            Err(RuntimeErrorV::GammaDoesNotExist)
        },
        TargetV::MemoryCell(n) => if m.memory_cells.contains_key(n) || s.autodetect_memory_cells {
            Ok(Location::MemoryCell(n))
        } else {
            Err(RuntimeErrorV::MemoryCellDoesNotExist(n))
        },
        TargetV::IndexMemoryCell(it) => match index_of(it, m) {
            Err(e) => Err(e),
            Ok(i) => if m.index_memory_cells.contains_key(i) || s.autodetect_index_memory_cells {
                Ok(Location::IndexMemoryCell(i))
            } else {
                Err(RuntimeErrorV::IndexMemoryCellDoesNotExist(i))
            },
        },
    }
}

/// The memory after `x` is written to `l`.
pub open spec fn store(l: Location, m: MemoryView, x: i32) -> MemoryView {
    match l {
        Location::Accumulator(a) => MemoryView { accumulators: m.accumulators.insert(a, Some(x)), ..m },
        Location::Gamma => MemoryView { gamma: Some(Some(x)), ..m },
        Location::MemoryCell(n) => MemoryView { memory_cells: m.memory_cells.insert(n, Some(x)), ..m },
        Location::IndexMemoryCell(i) => MemoryView {
            index_memory_cells: m.index_memory_cells.insert(i, Some(x)),
            ..m
        },
    }
}

/// What writing what `v` evaluates to to the target `t` does.
pub open spec fn assign_spec(t: TargetV, v: ValueV, m: MemoryView, s: RuntimeSettings) -> (Result<(), RuntimeErrorV>, MemoryView) {
    match locate(t, m, s) {
        Err(e) => (Err(e), m),
        Ok(l) => match value_of(v, m) {
            Err(e) => (Err(e), m),
            Ok(x) => (Ok(()), store(l, m, x)),
        },
    }
}

/// What writing the result of `a op b` to the target `t` does.
pub open spec fn calc_step_spec(t: TargetV, a: ValueV, op: Operation, b: ValueV, m: MemoryView, s: RuntimeSettings) -> (Result<(), RuntimeErrorV>, MemoryView) {
    match value_of(a, m) {
        Err(e) => (Err(e), m),
        Ok(x) => match value_of(b, m) {
            Err(e) => (Err(e), m),
            Ok(y) => match calc_spec(op, x, y) {
                Err(ce) => (Err(RuntimeErrorV::IllegalCalculation(ce)), m),
                Ok(r) => match locate(t, m, s) {
                    Err(e) => (Err(e), m),
                    Ok(l) => (Ok(()), store(l, m, r)),
                },
            },
        },
    }
}

/// What a jump to `label` does.
pub open spec fn goto_spec(label: Seq<char>, cf: ControlFlowView) -> (Result<(), RuntimeErrorV>, ControlFlowView) {
    match jump_spec(cf, label) {
        Ok(c) => (Ok(()), c),
        Err(e) => (Err(e), cf),
    }
}

/// What a conditional jump does.
pub open spec fn jump_if_spec(a: ValueV, c: Comparison, b: ValueV, label: Seq<char>, m: MemoryView, cf: ControlFlowView) -> (Result<(), RuntimeErrorV>, ControlFlowView) {
    match value_of(a, m) {
        Err(e) => (Err(e), cf),
        Ok(x) => match value_of(b, m) {
            Err(e) => (Err(e), cf),
            Ok(y) => if compares(c, x, y) {
                goto_spec(label, cf)
            } else {
                (Ok(()), cf)
            },
        },
    }
}

/// What `push` does: the value of accumulator 0 goes on the stack.
pub open spec fn push_spec(m: MemoryView) -> (Result<(), RuntimeErrorV>, MemoryView) {
    if !m.accumulators.contains_key(0) {
        (Err(RuntimeErrorV::AccumulatorDoesNotExist(0)), m)
    } else {
        match m.accumulators[0] {
            None => (Err(RuntimeErrorV::PushFail), m),
            Some(v) => (Ok(()), MemoryView { stack: m.stack.push(v), ..m }),
        }
    }
}

/// What `pop` does: the top of the stack goes to accumulator 0.
pub open spec fn pop_spec(m: MemoryView) -> (Result<(), RuntimeErrorV>, MemoryView) {
    if !m.accumulators.contains_key(0) {
        (Err(RuntimeErrorV::AccumulatorDoesNotExist(0)), m)
    } else if m.stack.len() == 0 {
        (Err(RuntimeErrorV::PopFail), m)
    } else {
        (
            Ok(()),
            MemoryView {
                accumulators: m.accumulators.insert(0, Some(m.stack.last())),
                stack: m.stack.drop_last(),
                ..m
            },
        )
    }
}

/// What a stack operation does: the two values on top of the stack are
/// replaced by `second op top`. The values are taken off the stack also
/// when the operation fails.
pub open spec fn stack_op_spec(op: Operation, m: MemoryView) -> (Result<(), RuntimeErrorV>, MemoryView) {
    if m.stack.len() == 0 {
        (Err(RuntimeErrorV::StackOpFail(op)), m)
    } else if m.stack.len() == 1 {
        (Err(RuntimeErrorV::StackOpFail(op)), MemoryView { stack: m.stack.drop_last(), ..m })
    } else {
        let rest = m.stack.drop_last().drop_last();
        match calc_spec(op, m.stack[m.stack.len() - 2], m.stack.last()) {
            Err(ce) => (Err(RuntimeErrorV::IllegalCalculation(ce)), MemoryView { stack: rest, ..m }),
            Ok(r) => (Ok(()), MemoryView { stack: rest.push(r), ..m }),
        }
    }
}

/// What a call does: the instruction that would run next is remembered,
/// then the control jumps to `label`.
pub open spec fn call_spec(label: Seq<char>, cf: ControlFlowView) -> (Result<(), RuntimeErrorV>, ControlFlowView) {
    let pushed = ControlFlowView { call_stack: cf.call_stack.push(cf.next), ..cf };
    goto_spec(label, pushed)
}

/// What `return` does: continue after the last pending call, or at the end
/// of the program when no call is pending.
pub open spec fn return_spec(cf: ControlFlowView) -> (Result<(), RuntimeErrorV>, ControlFlowView) {
    if cf.call_stack.len() > 0 {
        (Ok(()), ControlFlowView { next: cf.call_stack.last(), call_stack: cf.call_stack.drop_last(), ..cf })
    } else {
        goto_spec("END"@, cf)
    }
}

/// What running the instruction `i` does, for the memory `m`, the control
/// flow `cf` and the settings `s`: the result, the memory and the control
/// flow after it.
///
/// The control flow is not advanced here: the runtime moves on to the next
/// instruction before it runs one.
pub open spec fn step_spec(i: InstructionV, m: MemoryView, cf: ControlFlowView, s: RuntimeSettings) -> (Result<(), RuntimeErrorV>, MemoryView, ControlFlowView) {
    match i {
        InstructionV::Assign(t, v) => (assign_spec(t, v, m, s).0, assign_spec(t, v, m, s).1, cf),
        InstructionV::Calc(t, a, op, b) => (calc_step_spec(t, a, op, b, m, s).0, calc_step_spec(t, a, op, b, m, s).1, cf),
        InstructionV::JumpIf(a, c, b, label) => (jump_if_spec(a, c, b, label, m, cf).0, m, jump_if_spec(a, c, b, label, m, cf).1),
        InstructionV::Goto(label) => (goto_spec(label, cf).0, m, goto_spec(label, cf).1),
        InstructionV::Push => (push_spec(m).0, push_spec(m).1, cf),
        InstructionV::Pop => (pop_spec(m).0, pop_spec(m).1, cf),
        InstructionV::StackOp(op) => (stack_op_spec(op, m).0, stack_op_spec(op, m).1, cf),
        InstructionV::Call(label) => (call_spec(label, cf).0, m, call_spec(label, cf).1),
        InstructionV::Return => (return_spec(cf).0, m, return_spec(cf).1),
        InstructionV::Noop => (Ok(()), m, cf),
    }
}

fn read_accumulator(m: &RuntimeMemory, a: usize) -> (res: Result<i32, RuntimeErrorType>)
    ensures
        agrees(res, acc_read(m@, a)),
{
    match m.accumulators.get(a) {
        None => Err(RuntimeErrorType::AccumulatorDoesNotExist(a)),
        Some(None) => Err(RuntimeErrorType::AccumulatorUninitialized(a)),
        Some(Some(v)) => Ok(v),
    }
}

fn read_gamma(m: &RuntimeMemory) -> (res: Result<i32, RuntimeErrorType>)
    ensures
        agrees(res, gamma_read(m@)),
{
    match m.gamma {
        None => Err(RuntimeErrorType::GammaDoesNotExist),
        Some(None) => Err(RuntimeErrorType::GammaUninitialized),
        Some(Some(v)) => Ok(v),
    }
}

fn read_cell(m: &RuntimeMemory, n: &String) -> (res: Result<i32, RuntimeErrorType>)
    ensures
        agrees(res, cell_read(m@, n@)),
{
    match m.memory_cells.get(n) {
        None => Err(RuntimeErrorType::MemoryCellDoesNotExist(n.clone())),
        Some(None) => Err(RuntimeErrorType::MemoryCellUninitialized(n.clone())),
        Some(Some(v)) => Ok(v),
    }
}

fn read_index_cell(m: &RuntimeMemory, i: usize) -> (res: Result<i32, RuntimeErrorType>)
    ensures
        agrees(res, imc_read(m@, i)),
{
    match m.index_memory_cells.get(i) {
        None => Err(RuntimeErrorType::IndexMemoryCellDoesNotExist(i)),
        Some(None) => Err(RuntimeErrorType::IndexMemoryCellUninitialized(i)),
        Some(Some(v)) => Ok(v),
    }
}

fn to_index(r: Result<i32, RuntimeErrorType>, Ghost(spec): Ghost<Result<i32, RuntimeErrorV>>) -> (res: Result<usize, RuntimeErrorType>)
    requires
        agrees(r, spec),
    ensures
        agrees(res, as_index(spec)),
{
    match r {
        Err(e) => Err(e),
        Ok(v) => if v < 0 {
            Err(RuntimeErrorType::IndexMemoryCellNegativeIndex(v))
        } else {
            Ok(v as usize)
        },
    }
}

impl IndexMemoryCellIndexType {
    /// The index of the index memory cell that this designates.
    pub fn index(&self, m: &RuntimeMemory) -> (res: Result<usize, RuntimeErrorType>)
        ensures
            agrees(res, index_of(self@, m@)),
    {
        match self {
            IndexMemoryCellIndexType::Accumulator(a) => to_index(read_accumulator(m, *a), Ghost(acc_read(m@, *a))),
            IndexMemoryCellIndexType::Direct(i) => Ok(*i),
            IndexMemoryCellIndexType::Gamma => to_index(read_gamma(m), Ghost(gamma_read(m@))),
            IndexMemoryCellIndexType::MemoryCell(n) => to_index(read_cell(m, n), Ghost(cell_read(m@, n@))),
            IndexMemoryCellIndexType::Index(i) => to_index(read_index_cell(m, *i), Ghost(imc_read(m@, *i))),
        }
    }
}

impl Value {
    /// What this value evaluates to.
    pub fn value(&self, m: &RuntimeMemory) -> (res: Result<i32, RuntimeErrorType>)
        ensures
            agrees(res, value_of(self@, m@)),
    {
        match self {
            Value::Accumulator(a) => read_accumulator(m, *a),
            Value::Gamma => read_gamma(m),
            Value::MemoryCell(n) => read_cell(m, n),
            Value::Constant(c) => Ok(*c),
            Value::IndexMemoryCell(t) => match t.index(m) {
                Err(e) => Err(e),
                Ok(i) => read_index_cell(m, i),
            },
        }
    }
}

/// A memory location that a value can be written to.
enum Place {
    Accumulator(usize),
    Gamma,
    MemoryCell(String),
    IndexMemoryCell(usize),
}

impl View for Place {
    type V = Location;

    closed spec fn view(&self) -> Location {
        match self {
            Place::Accumulator(a) => Location::Accumulator(*a),
            Place::Gamma => Location::Gamma,
            Place::MemoryCell(n) => Location::MemoryCell(n@),
            Place::IndexMemoryCell(i) => Location::IndexMemoryCell(*i),
        }
    }
}

fn resolve(t: &TargetType, m: &RuntimeMemory, s: &RuntimeSettings) -> (res: Result<Place, RuntimeErrorType>)
    ensures
        match locate(t@, m@, *s) {
            Ok(l) => res matches Ok(p) && p@ == l,
            Err(e) => res matches Err(r) && r@ == e,
        },
{
    match t {
        TargetType::Accumulator(a) => if m.accumulators.contains_key(*a) || s.autodetect_accumulators {
            Ok(Place::Accumulator(*a))
        } else {
            Err(RuntimeErrorType::AccumulatorDoesNotExist(*a))
        },
        TargetType::Gamma => if m.gamma.is_some() || s.autodetect_gamma_accumulator {
            Ok(Place::Gamma)
        } else {
            Err(RuntimeErrorType::GammaDoesNotExist)
        },
        TargetType::MemoryCell(n) => if m.memory_cells.contains_key(n) || s.autodetect_memory_cells {
            Ok(Place::MemoryCell(n.clone()))
        } else {
            Err(RuntimeErrorType::MemoryCellDoesNotExist(n.clone()))
        },
        TargetType::IndexMemoryCell(it) => match it.index(m) {
            Err(e) => Err(e),
            Ok(i) => if m.index_memory_cells.contains_key(i) || s.autodetect_index_memory_cells {
                Ok(Place::IndexMemoryCell(i))
            } else {
                Err(RuntimeErrorType::IndexMemoryCellDoesNotExist(i))
            },
        },
    }
}

fn write(p: Place, m: &mut RuntimeMemory, x: i32)
    ensures
        final(m)@ == store(p@, old(m)@, x),
{
    match p {
        Place::Accumulator(a) => m.accumulators.insert(a, Some(x)),
        Place::Gamma => m.gamma = Some(Some(x)),
        Place::MemoryCell(n) => m.memory_cells.insert(n, Some(x)),
        Place::IndexMemoryCell(i) => m.index_memory_cells.insert(i, Some(x)),
    }
}

/// Writes `value` to the index memory cell `idx`.
///
/// Fails when the cell does not exist and the settings do not allow to
/// create it.
pub fn assign_index_memory_cell(
    m: &mut RuntimeMemory,
    s: &RuntimeSettings,
    idx: usize,
    value: i32,
) -> (res: Result<(), RuntimeErrorType>)
    ensures
        if old(m)@.index_memory_cells.contains_key(idx) || s.autodetect_index_memory_cells {
            res is Ok && final(m)@ == store(Location::IndexMemoryCell(idx), old(m)@, value)
        } else {
            res matches Err(e) && e@ == RuntimeErrorV::IndexMemoryCellDoesNotExist(idx) && final(m)@
                == old(m)@
        },
{
    if m.index_memory_cells.contains_key(idx) || s.autodetect_index_memory_cells {
        m.index_memory_cells.insert(idx, Some(value));
        Ok(())
    } else {
        Err(RuntimeErrorType::IndexMemoryCellDoesNotExist(idx))
    }
}

/// Writes what `value` evaluates to to the index memory cell `idx`.
///
/// Fails when the cell does not exist and the settings do not allow to
/// create it, or when `value` cannot be evaluated.
pub fn assign_index_memory_cell_from_value(
    m: &mut RuntimeMemory,
    s: &RuntimeSettings,
    idx: usize,
    value: &Value,
) -> (res: Result<(), RuntimeErrorType>)
    ensures
        ({
            let out = assign_spec(TargetV::IndexMemoryCell(IndexV::Direct(idx)), value@, old(m)@, *s);
            agrees(res, out.0) && final(m)@ == out.1
        }),
{
    if !(m.index_memory_cells.contains_key(idx) || s.autodetect_index_memory_cells) {
        return Err(RuntimeErrorType::IndexMemoryCellDoesNotExist(idx));
    }
    match value.value(m) {
        Err(e) => Err(e),
        Ok(v) => {
            m.index_memory_cells.insert(idx, Some(v));
            Ok(())
        },
    }
}

/// What running `i` does (see [`step_spec`]).
pub open spec fn runs_as(i: InstructionV, m0: MemoryView, cf0: ControlFlowView, s: RuntimeSettings, res: Result<(), RuntimeErrorType>, m1: MemoryView, cf1: ControlFlowView) -> bool {
    let out = step_spec(i, m0, cf0, s);
    agrees(res, out.0) && m1 == out.1 && cf1 == out.2
}

fn run_assign(t: &TargetType, v: &Value, m: &mut RuntimeMemory, s: &RuntimeSettings) -> (res: Result<(), RuntimeErrorType>)
    ensures
        agrees(res, assign_spec(t@, v@, old(m)@, *s).0) && final(m)@ == assign_spec(t@, v@, old(m)@, *s).1,
{
    let place = match resolve(t, m, s) {
        Err(e) => return Err(e),
        Ok(p) => p,
    };
    match v.value(m) {
        Err(e) => Err(e),
        Ok(x) => {
            write(place, m, x);
            Ok(())
        },
    }
}

fn run_calc(t: &TargetType, a: &Value, op: Operation, b: &Value, m: &mut RuntimeMemory, s: &RuntimeSettings) -> (res: Result<(), RuntimeErrorType>)
    ensures
        agrees(res, calc_step_spec(t@, a@, op, b@, old(m)@, *s).0) && final(m)@ == calc_step_spec(t@, a@, op, b@, old(m)@, *s).1,
{
    let x = match a.value(m) {
        Err(e) => return Err(e),
        Ok(x) => x,
    };
    let y = match b.value(m) {
        Err(e) => return Err(e),
        Ok(y) => y,
    };
    let r = match op.calc(x, y) {
        Err(e) => return Err(e),
        Ok(r) => r,
    };
    match resolve(t, m, s) {
        Err(e) => Err(e),
        Ok(place) => {
            write(place, m, r);
            Ok(())
        },
    }
}

fn run_jump_if(a: &Value, c: Comparison, b: &Value, label: &String, m: &RuntimeMemory, cf: &mut ControlFlow, s: &RuntimeSettings) -> (res: Result<(), RuntimeErrorType>)
    ensures
        agrees(res, jump_if_spec(a@, c, b@, label@, m@, old(cf)@).0) && final(cf)@ == jump_if_spec(a@, c, b@, label@, m@, old(cf)@).1,
{
    let x = match a.value(m) {
        Err(e) => return Err(e),
        Ok(x) => x,
    };
    let y = match b.value(m) {
        Err(e) => return Err(e),
        Ok(y) => y,
    };
    if c.cmp(x, y) {
        cf.next_instruction_index(label.as_str())
    } else {
        Ok(())
    }
}

fn run_push(m: &mut RuntimeMemory) -> (res: Result<(), RuntimeErrorType>)
    ensures
        agrees(res, push_spec(old(m)@).0) && final(m)@ == push_spec(old(m)@).1,
{
    match m.accumulators.get(0) {
        None => Err(RuntimeErrorType::AccumulatorDoesNotExist(0)),
        Some(None) => Err(RuntimeErrorType::PushFail),
        Some(Some(v)) => {
            m.stack.push(v);
            Ok(())
        },
    }
}

fn run_pop(m: &mut RuntimeMemory) -> (res: Result<(), RuntimeErrorType>)
    ensures
        agrees(res, pop_spec(old(m)@).0) && final(m)@ == pop_spec(old(m)@).1,
{
    if !m.accumulators.contains_key(0) {
        return Err(RuntimeErrorType::AccumulatorDoesNotExist(0));
    }
    match m.stack.pop() {
        None => Err(RuntimeErrorType::PopFail),
        Some(d) => {
            m.accumulators.insert(0, Some(d));
            Ok(())
        },
    }
}

fn run_stack_op(op: Operation, m: &mut RuntimeMemory) -> (res: Result<(), RuntimeErrorType>)
    ensures
        agrees(res, stack_op_spec(op, old(m)@).0) && final(m)@ == stack_op_spec(op, old(m)@).1,
{
    match m.stack.pop() {
        None => Err(RuntimeErrorType::StackOpFail(op)),
        Some(a) => match m.stack.pop() {
            None => Err(RuntimeErrorType::StackOpFail(op)),
            Some(b) => match op.calc(b, a) {
                Err(e) => Err(e),
                Ok(r) => {
                    m.stack.push(r);
                    Ok(())
                },
            },
        },
    }
}

fn run_return(cf: &mut ControlFlow) -> (res: Result<(), RuntimeErrorType>)
    ensures
        agrees(res, return_spec(old(cf)@).0) && final(cf)@ == return_spec(old(cf)@).1,
{
    match cf.call_stack.pop() {
        Some(i) => {
            cf.next_instruction_index = i;
            Ok(())
        },
        None => cf.next_instruction_index("END"),
    }
}

impl Instruction {
    /// Runs the instruction on the memory `m` and the control flow `cf`,
    /// as [`step_spec`] states.
    pub fn run(&self, m: &mut RuntimeMemory, cf: &mut ControlFlow, s: &RuntimeSettings) -> (res: Result<(), RuntimeErrorType>)
        ensures
            runs_as(self@, old(m)@, old(cf)@, *s, res, final(m)@, final(cf)@),
    {
        match self {
            Instruction::Assign(t, v) => run_assign(t, v, m, s),
            Instruction::Calc(t, a, op, b) => run_calc(t, a, *op, b, m, s),
            Instruction::JumpIf(a, c, b, label) => run_jump_if(a, *c, b, label, m, cf, s),
            Instruction::Goto(label) => cf.next_instruction_index(label.as_str()),
            Instruction::Push => run_push(m),
            Instruction::Pop => run_pop(m),
            Instruction::StackOp(op) => run_stack_op(*op, m),
            Instruction::Call(label) => cf.call_function(label.as_str()),
            Instruction::Return => run_return(cf),
            Instruction::Noop => Ok(()),
        }
    }
}

} // verus!
