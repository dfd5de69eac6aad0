//! Building a runtime from a program, its memory and its settings.
//!
//! Before a program runs, its labels, memory locations and instructions are
//! checked, so that a runtime error cannot come from a label that does not
//! exist or, unless created on the fly, from a missing memory location.
use vstd::prelude::*;

use crate::base::{comparison_hint, comparison_text, operation_hint, operation_text, Comparison, Operation};
use crate::cli::CliHint;
use crate::instructions::error_handling::{BuildProgramError, BuildProgramErrorTypes, ProgramErrorV};
use crate::instructions::instruction_config::{InstructionConfig, InstructionConfigView};
use crate::instructions::notation::{instruction_kind, instruction_text, Identifier};
use crate::instructions::parsing::{cleaned, parts_spec, readable};
use crate::utils::{after_label, remove_comment_chars, remove_comment_spec};
use crate::instructions::{IndexMemoryCellIndexType, IndexV, Instruction, InstructionV, TargetType, TargetV, Value, ValueV};
use crate::runtime::error_handling::{BuildErrorV, RuntimeBuildError};
use crate::runtime::memory_config::MemoryConfig;
use crate::runtime::memory_config::{config_memory, empty_config, Autodetection, ConfigView};
use crate::runtime::{
    debug_memory, default_memory, default_settings, program_view, ControlFlow, ControlFlowView, MemoryView,
    Runtime, RuntimeMemory, RuntimeSettings, RuntimeView,
};
use crate::runtime::error_handling::AddLabelError;
use crate::cli::{GlobalArgs, InstructionLimitingArgs};
use crate::text::{
    chars_to_string, decimal, join_lines, join_lines_exec, push_decimal, sort_texts, sorted, to_chars,
    string_views, views, str_views, split_whitespace, tokens, copy_chars,
};

verus! {

/// Whether a missing memory location of each kind is created when a program
/// that uses it is built, rather than refused.
#[derive(Debug, Clone, Copy, PartialEq, Eq, Structural)]
pub struct Detection {
    pub accumulators: bool,
    pub gamma: bool,
    pub memory_cells: bool,
    pub index_memory_cells: bool,
}

/// The detection that autodetection values ask for; an unset value means yes.
pub open spec fn detection_from(a: Autodetection) -> Detection {
    Detection {
        accumulators: a.accumulators != Some(false),
        gamma: a.gamma != Some(false),
        memory_cells: a.memory_cells != Some(false),
        index_memory_cells: a.index_memory_cells != Some(false),
    }
}

/// The detection that a memory layout asks for.
pub open spec fn config_detection(c: MemoryConfig) -> Detection {
    detection_from(c@.autodetection)
}

/// The memory once accumulator `id` is known to exist: created if `add`,
/// else an error.
pub open spec fn accumulator_checked(m: MemoryView, id: usize, add: bool) -> Result<MemoryView, BuildErrorV> {
    if m.accumulators.contains_key(id) {
        Ok(m)
    } else if add {
        Ok(MemoryView { accumulators: m.accumulators.insert(id, None), ..m })
    } else {
        Err(BuildErrorV::AccumulatorMissing(decimal(id as nat)))
    }
}

/// The memory once memory cell `name` is known to exist.
pub open spec fn cell_checked(m: MemoryView, name: Seq<char>, add: bool) -> Result<MemoryView, BuildErrorV> {
    if m.memory_cells.contains_key(name) {
        Ok(m)
    } else if add {
        Ok(MemoryView { memory_cells: m.memory_cells.insert(name, None), ..m })
    } else {
        Err(BuildErrorV::MemoryCellMissing(name))
    }
}

/// The memory once the gamma accumulator is known to be enabled.
pub open spec fn gamma_checked(m: MemoryView, add: bool) -> Result<MemoryView, BuildErrorV> {
    if m.gamma is Some {
        Ok(m)
    } else if add {
        Ok(MemoryView { gamma: Some(None), ..m })
    } else {
        Err(BuildErrorV::GammaDisabled)
    }
}

/// The memory once the location that index `t` reads is known to exist.
pub open spec fn index_checked(m: MemoryView, t: IndexV, add: bool) -> Result<MemoryView, BuildErrorV> {
    match t {
        IndexV::Accumulator(a) => accumulator_checked(m, a, add),
        IndexV::Direct(_) => Ok(m),
        IndexV::Index(_) => Ok(m),
        IndexV::Gamma => gamma_checked(m, add),
        IndexV::MemoryCell(n) => cell_checked(m, n, add),
    }
}

/// The memory once the locations of target `t` are known to exist.
pub open spec fn target_checked(m: MemoryView, t: TargetV, d: Detection) -> Result<MemoryView, BuildErrorV> {
    match t {
        TargetV::Accumulator(a) => accumulator_checked(m, a, d.accumulators),
        TargetV::MemoryCell(n) => cell_checked(m, n, d.memory_cells),
        TargetV::IndexMemoryCell(x) => index_checked(m, x, d.index_memory_cells),
        TargetV::Gamma => gamma_checked(m, d.gamma),
    }
}

/// The memory once the locations of value `v` are known to exist.
pub open spec fn value_checked(m: MemoryView, v: ValueV, d: Detection) -> Result<MemoryView, BuildErrorV> {
    match v {
        ValueV::Accumulator(a) => accumulator_checked(m, a, d.accumulators),
        ValueV::MemoryCell(n) => cell_checked(m, n, d.memory_cells),
        ValueV::Constant(_) => Ok(m),
        ValueV::IndexMemoryCell(x) => index_checked(m, x, d.index_memory_cells),
        ValueV::Gamma => gamma_checked(m, d.gamma),
    }
}

/// The memory once the locations of an assignment or a calculation are
/// known to exist; other instructions are not looked at.
pub open spec fn instruction_checked(m: MemoryView, i: InstructionV, d: Detection) -> Result<MemoryView, BuildErrorV> {
    match i {
        InstructionV::Assign(t, v) => match target_checked(m, t, d) {
            Err(e) => Err(e),
            Ok(m1) => value_checked(m1, v, d),
        },
        InstructionV::Calc(t, a, _, b) => match target_checked(m, t, d) {
            Err(e) => Err(e),
            Ok(m1) => match value_checked(m1, a, d) {
                Err(e) => Err(e),
                Ok(m2) => value_checked(m2, b, d),
            },
        },
        _ => Ok(m),
    }
}

/// The memory once the locations of all instructions are known to exist,
/// or the first error.
pub open spec fn vars_checked(m: MemoryView, is: Seq<InstructionV>, d: Detection) -> Result<MemoryView, BuildErrorV>
    decreases is.len(),
{
    if is.len() == 0 {
        Ok(m)
    } else {
        match instruction_checked(m, is[0], d) {
            Err(e) => Err(e),
            Ok(m1) => vars_checked(m1, is.drop_first(), d),
        }
    }
}

/// `res` and the memory `m1` after a check of the memory `m0` are what
/// `spec` describes: an error leaves the memory as it was.
pub open spec fn checked_as(res: Result<(), RuntimeBuildError>, m0: MemoryView, m1: MemoryView, spec: Result<MemoryView, BuildErrorV>) -> bool {
    match spec {
        Ok(m) => res is Ok && m1 == m,
        Err(e) => (res matches Err(x) && x@ == e) && m1 == m0,
    }
}

/// Checks that accumulator `id` exists. A missing one is created if
/// `add_missing` is set, else it is an error.
pub fn check_accumulator(runtime_args: &mut RuntimeMemory, id: usize, add_missing: bool) -> (res: Result<(), RuntimeBuildError>)
    ensures
        checked_as(res, old(runtime_args)@, final(runtime_args)@, accumulator_checked(old(runtime_args)@, id, add_missing)),
{
    if !runtime_args.exists_accumulator(id) {
        if add_missing {
            runtime_args.accumulators.insert(id, None);
        } else {
            let mut digits: Vec<char> = Vec::new();
            push_decimal(&mut digits, id as u64);
            assert(digits@ =~= decimal(id as nat));
            return Err(RuntimeBuildError::AccumulatorMissing(chars_to_string(digits.as_slice())));
        }
    }
    Ok(())
}

/// Checks that memory cell `name` exists. A missing one is created if
/// `add_missing` is set, else it is an error.
pub fn check_memory_cell(runtime_args: &mut RuntimeMemory, name: &str, add_missing: bool) -> (res: Result<(), RuntimeBuildError>)
    ensures
        checked_as(res, old(runtime_args)@, final(runtime_args)@, cell_checked(old(runtime_args)@, name@, add_missing)),
{
    let label = name.to_string();
    if !runtime_args.memory_cells.contains_key(&label) {
        if add_missing {
            runtime_args.memory_cells.insert(label, None);
        } else {
            return Err(RuntimeBuildError::MemoryCellMissing(label));
        }
    }
    Ok(())
}

/// Checks that the gamma accumulator is enabled. It is enabled if
/// `add_missing` is set, else it is an error.
pub fn check_gamma(runtime_args: &mut RuntimeMemory, add_missing: bool) -> (res: Result<(), RuntimeBuildError>)
    ensures
        checked_as(res, old(runtime_args)@, final(runtime_args)@, gamma_checked(old(runtime_args)@, add_missing)),
{
    if runtime_args.gamma.is_none() {
        if add_missing {
            runtime_args.gamma = Some(None);
            return Ok(());
        }
        return Err(RuntimeBuildError::GammaDisabled);
    }
    Ok(())
}

/// Checks that the location that the index `t` reads exists: an accumulator,
/// the gamma accumulator or a memory cell. A number needs no location.
pub fn check_index_memory_cell(runtime_args: &mut RuntimeMemory, t: &IndexMemoryCellIndexType, add_missing: bool) -> (res: Result<(), RuntimeBuildError>)
    ensures
        checked_as(res, old(runtime_args)@, final(runtime_args)@, index_checked(old(runtime_args)@, t@, add_missing)),
{
    match t {
        IndexMemoryCellIndexType::Accumulator(idx) => check_accumulator(runtime_args, *idx, add_missing),
        IndexMemoryCellIndexType::Direct(_) => Ok(()),
        IndexMemoryCellIndexType::Index(_) => Ok(()),
        IndexMemoryCellIndexType::Gamma => check_gamma(runtime_args, add_missing),
        IndexMemoryCellIndexType::MemoryCell(name) => check_memory_cell(runtime_args, name.as_str(), add_missing),
    }
}

fn detection_of(c: &MemoryConfig) -> (d: Detection)
    ensures
        d == config_detection(*c),
{
    Detection {
        accumulators: c.accumulators.autodetection != Some(false),
        gamma: c.gamma_accumulator.autodetection != Some(false),
        memory_cells: c.memory_cells.autodetection != Some(false),
        index_memory_cells: c.index_memory_cells.autodetection != Some(false),
    }
}

fn check_target(t: &TargetType, m: &mut RuntimeMemory, d: Detection) -> (res: Result<(), RuntimeBuildError>)
    ensures
        checked_as(res, old(m)@, final(m)@, target_checked(old(m)@, t@, d)),
{
    match t {
        TargetType::Accumulator(index) => check_accumulator(m, *index, d.accumulators),
        TargetType::MemoryCell(name) => check_memory_cell(m, name.as_str(), d.memory_cells),
        TargetType::IndexMemoryCell(x) => check_index_memory_cell(m, x, d.index_memory_cells),
        TargetType::Gamma => check_gamma(m, d.gamma),
    }
}

fn check_value(v: &Value, m: &mut RuntimeMemory, d: Detection) -> (res: Result<(), RuntimeBuildError>)
    ensures
        checked_as(res, old(m)@, final(m)@, value_checked(old(m)@, v@, d)),
{
    match v {
        Value::Accumulator(index) => check_accumulator(m, *index, d.accumulators),
        Value::MemoryCell(name) => check_memory_cell(m, name.as_str(), d.memory_cells),
        Value::Constant(_) => Ok(()),
        Value::IndexMemoryCell(x) => check_index_memory_cell(m, x, d.index_memory_cells),
        Value::Gamma => check_gamma(m, d.gamma),
    }
}

impl TargetType {
    /// Checks that the locations of this target exist in `runtime_args`;
    /// missing ones are created where `memory_config` asks for detection.
    pub fn check_new(&self, runtime_args: &mut RuntimeMemory, memory_config: &MemoryConfig) -> (res: Result<(), RuntimeBuildError>)
        ensures
            checked_as(res, old(runtime_args)@, final(runtime_args)@, target_checked(old(runtime_args)@, self@, config_detection(*memory_config))),
    {
        let d = detection_of(memory_config);
        check_target(self, runtime_args, d)
    }
}

impl Value {
    /// Checks that the locations of this value exist in `runtime_args`;
    /// missing ones are created where `memory_config` asks for detection.
    pub fn check_new(&self, runtime_args: &mut RuntimeMemory, memory_config: &MemoryConfig) -> (res: Result<(), RuntimeBuildError>)
        ensures
            checked_as(res, old(runtime_args)@, final(runtime_args)@, value_checked(old(runtime_args)@, self@, config_detection(*memory_config))),
    {
        let d = detection_of(memory_config);
        check_value(self, runtime_args, d)
    }
}

fn check_instruction_vars(i: &Instruction, m: &mut RuntimeMemory, d: Detection) -> (res: Result<(), RuntimeBuildError>)
    ensures
        match instruction_checked(old(m)@, i@, d) {
            Ok(m1) => res is Ok && final(m)@ == m1,
            Err(e) => res matches Err(x) && x@ == e,
        },
{
    match i {
        Instruction::Assign(target, source) => {
            match check_target(target, m, d) {
                Err(e) => return Err(e),
                Ok(()) => {},
            }
            check_value(source, m, d)
        },
        Instruction::Calc(target, a, _, b) => {
            match check_target(target, m, d) {
                Err(e) => return Err(e),
                Ok(()) => {},
            }
            match check_value(a, m, d) {
                Err(e) => return Err(e),
                Ok(()) => {},
            }
            check_value(b, m, d)
        },
        _ => Ok(()),
    }
}

/// Checks that the memory locations of all assignments and calculations
/// exist, creating missing ones as `d` allows.
fn check_missing_vars(d: Detection, instructions: &Vec<Instruction>, m: &mut RuntimeMemory) -> (res: Result<(), RuntimeBuildError>)
    ensures
        match vars_checked(old(m)@, program_view(instructions@), d) {
            Ok(m1) => res is Ok && final(m)@ == m1,
            Err(e) => res matches Err(x) && x@ == e,
        },
{
    let ghost is = program_view(instructions@);
    let mut i: usize = 0;
    assert(is.skip(0) =~= is);
    while i < instructions.len()
        invariant
            i <= instructions.len(),
            is == program_view(instructions@),
            vars_checked(old(m)@, is, d) == vars_checked(m@, is.skip(i as int), d),
        decreases instructions.len() - i,
    {
        assert(is.skip(i as int)[0] == instructions@[i as int]@);
        assert(is.skip(i as int).drop_first() =~= is.skip(i + 1));
        match check_instruction_vars(&instructions[i], m, d) {
            Err(e) => return Err(e),
            Ok(()) => {},
        }
        i = i + 1;
    }
    Ok(())
}

/// The labels with the end labels `END`, `ENDE`, `end`, `ende`, `End` and
/// `Ende` set to `n`, the index just past the last instruction.
pub open spec fn end_labels(labels: Map<Seq<char>, usize>, n: usize) -> Map<Seq<char>, usize> {
    labels.insert("END"@, n).insert("ENDE"@, n).insert("end"@, n).insert("ende"@, n).insert("End"@, n).insert(
        "Ende"@,
        n,
    )
}

/// Adds the end labels, which mark the index just past the last instruction.
fn inject_end_labels(control_flow: &mut ControlFlow, last_instruction_index: usize)
    ensures
        final(control_flow)@ == (ControlFlowView {
            labels: end_labels(old(control_flow)@.labels, last_instruction_index),
            ..old(control_flow)@
        }),
{
    control_flow.instruction_labels.insert("END".to_string(), last_instruction_index);
    control_flow.instruction_labels.insert("ENDE".to_string(), last_instruction_index);
    control_flow.instruction_labels.insert("end".to_string(), last_instruction_index);
    control_flow.instruction_labels.insert("ende".to_string(), last_instruction_index);
    control_flow.instruction_labels.insert("End".to_string(), last_instruction_index);
    control_flow.instruction_labels.insert("Ende".to_string(), last_instruction_index);
}

/// The label that an instruction jumps to, if it jumps.
pub open spec fn jump_label(i: InstructionV) -> Option<Seq<char>> {
    match i {
        InstructionV::Goto(l) => Some(l),
        InstructionV::JumpIf(_, _, _, l) => Some(l),
        _ => None,
    }
}

/// The first label that a jump of `is` uses but `labels` lacks.
pub open spec fn missing_label(labels: Map<Seq<char>, usize>, is: Seq<InstructionV>) -> Option<Seq<char>>
    decreases is.len(),
{
    if is.len() == 0 {
        None
    } else if jump_label(is[0]) is Some && !labels.contains_key(jump_label(is[0])->0) {
        jump_label(is[0])
    } else {
        missing_label(labels, is.drop_first())
    }
}

fn check_label(control_flow: &ControlFlow, label: &String) -> (res: Result<(), String>)
    ensures
        control_flow@.labels.contains_key(label@) ==> res is Ok,
        !control_flow@.labels.contains_key(label@) ==> (res matches Err(s) && s@ == label@),
{
    if !control_flow.instruction_labels.contains_key(label) {
        return Err(label.clone());
    }
    Ok(())
}

/// Checks that every label that a jump uses exists; returns the first that does not.
fn check_labels(control_flow: &ControlFlow, instructions: &Vec<Instruction>) -> (res: Result<(), String>)
    ensures
        match missing_label(control_flow@.labels, program_view(instructions@)) {
            Some(l) => res matches Err(s) && s@ == l,
            None => res is Ok,
        },
{
    let ghost is = program_view(instructions@);
    let mut i: usize = 0;
    assert(is.skip(0) =~= is);
    while i < instructions.len()
        invariant
            i <= instructions.len(),
            is == program_view(instructions@),
            missing_label(control_flow@.labels, is) == missing_label(control_flow@.labels, is.skip(i as int)),
        decreases instructions.len() - i,
    {
        assert(is.skip(i as int)[0] == instructions@[i as int]@);
        assert(is.skip(i as int).drop_first() =~= is.skip(i + 1));
        match &instructions[i] {
            Instruction::Goto(label) => match check_label(control_flow, label) {
                Err(e) => return Err(e),
                Ok(()) => {},
            },
            Instruction::JumpIf(_, _, _, label) => match check_label(control_flow, label) {
                Err(e) => return Err(e),
                Ok(()) => {},
            },
            _ => {},
        }
        i = i + 1;
    }
    Ok(())
}

/// `t` with an index memory cell indexed by gamma read as the memory cell `y`.
pub open spec fn ungamma_target(t: TargetV) -> TargetV {
    if t == TargetV::IndexMemoryCell(IndexV::Gamma) {
        TargetV::MemoryCell("y"@)
    } else {
        t
    }
}

/// `v` with an index memory cell indexed by gamma read as the memory cell `y`.
pub open spec fn ungamma_value(v: ValueV) -> ValueV {
    if v == ValueV::IndexMemoryCell(IndexV::Gamma) {
        ValueV::MemoryCell("y"@)
    } else {
        v
    }
}

/// `i` with every index memory cell indexed by gamma read as the memory cell `y`.
pub open spec fn ungamma(i: InstructionV) -> InstructionV {
    match i {
        InstructionV::Assign(t, v) => InstructionV::Assign(ungamma_target(t), ungamma_value(v)),
        InstructionV::Calc(t, a, op, b) => InstructionV::Calc(ungamma_target(t), ungamma_value(a), op, ungamma_value(b)),
        InstructionV::JumpIf(a, c, b, l) => InstructionV::JumpIf(ungamma_value(a), c, ungamma_value(b), l),
        _ => i,
    }
}

fn ungamma_target_exec(t: &TargetType) -> (res: TargetType)
    ensures
        res@ == ungamma_target(t@),
{
    if t.is_imc_gamma() {
        TargetType::MemoryCell("y".to_string())
    } else {
        t.duplicate()
    }
}

fn ungamma_value_exec(v: &Value) -> (res: Value)
    ensures
        res@ == ungamma_value(v@),
{
    if v.is_imc_gamma() {
        Value::MemoryCell("y".to_string())
    } else {
        v.duplicate()
    }
}

/// Where the gamma accumulator cannot exist, `p(y)` names the memory cell
/// `y` rather than the index memory cell that gamma indexes.
fn replace_gamma_as_index_instructions(instructions: &mut Vec<Instruction>)
    ensures
        program_view(final(instructions)@) == program_view(old(instructions)@).map_values(|i: InstructionV| ungamma(i)),
{
    let mut res: Vec<Instruction> = Vec::new();
    let mut k: usize = 0;
    while k < instructions.len()
        invariant
            k <= instructions.len(),
            instructions@ == old(instructions)@,
            program_view(res@) == program_view(instructions@).map_values(|i: InstructionV| ungamma(i)).take(k as int),
        decreases instructions.len() - k,
    {
        let n = match &instructions[k] {
            Instruction::Assign(t, v) => Instruction::Assign(ungamma_target_exec(t), ungamma_value_exec(v)),
            Instruction::Calc(t, a, op, b) => Instruction::Calc(
                ungamma_target_exec(t),
                ungamma_value_exec(a),
                *op,
                ungamma_value_exec(b),
            ),
            Instruction::JumpIf(a, c, b, l) => Instruction::JumpIf(ungamma_value_exec(a), *c, ungamma_value_exec(b), l.clone()),
            other => other.duplicate(),
        };
        let ghost before = res@;
        res.push(n);
        assert(program_view(res@) =~= program_view(before).push(n@));
        assert(program_view(instructions@).map_values(|i: InstructionV| ungamma(i)).take(k + 1) =~= program_view(
            instructions@,
        ).map_values(|i: InstructionV| ungamma(i)).take(k as int).push(ungamma(instructions@[k as int]@)));
        k = k + 1;
    }
    assert(program_view(instructions@).map_values(|i: InstructionV| ungamma(i)).take(instructions.len() as int)
        =~= program_view(instructions@).map_values(|i: InstructionV| ungamma(i)));
    *instructions = res;
}

/// The control flow that starts at label `main`, or `MAIN` if it exists,
/// where such a label exists.
pub open spec fn with_main(cf: ControlFlowView) -> ControlFlowView {
    let cf1 = if cf.labels.contains_key("main"@) {
        ControlFlowView { next: cf.labels["main"@], initial: cf.labels["main"@], ..cf }
    } else {
        cf
    };
    if cf1.labels.contains_key("MAIN"@) {
        ControlFlowView { next: cf1.labels["MAIN"@], initial: cf1.labels["MAIN"@], ..cf1 }
    } else {
        cf1
    }
}

fn start_at_main(cf: &mut ControlFlow)
    ensures
        final(cf)@ == with_main(old(cf)@),
{
    let main = "main".to_string();
    match cf.instruction_labels.get(&main) {
        Some(i) => {
            cf.next_instruction_index = i;
            cf.initial_instruction = i;
        },
        None => {},
    }
    let upper = "MAIN".to_string();
    match cf.instruction_labels.get(&upper) {
        Some(i) => {
            cf.next_instruction_index = i;
            cf.initial_instruction = i;
        },
        None => {},
    }
}

/// The operation of an instruction, if it has one.
pub open spec fn operation_of(i: InstructionV) -> Option<Operation> {
    match i {
        InstructionV::Calc(_, _, op, _) => Some(op),
        InstructionV::StackOp(op) => Some(op),
        _ => None,
    }
}

/// What the limits `c` have against instruction `i` in line `line`: its
/// kind, its comparison or its operation, checked in this order.
pub open spec fn instruction_violation(i: InstructionV, line: usize, c: InstructionConfigView) -> Option<ProgramErrorV> {
    if c.identifiers is Some && !c.identifiers->0.contains(instruction_kind(i)) && instruction_kind(i) != "NOOP"@ {
        Some(
            ProgramErrorV::InstructionNotAllowed(
                line,
                instruction_text(i),
                instruction_kind(i),
                join_lines(sorted(c.identifiers->0)),
            ),
        )
    } else if c.comparisons is Some && i is JumpIf && !c.comparisons->0.contains(i->JumpIf_1) {
        Some(ProgramErrorV::ComparisonNotAllowed(line, comparison_text(i->JumpIf_1), comparison_hint(i->JumpIf_1)))
    } else if c.operations is Some && operation_of(i) is Some && !c.operations->0.contains(operation_of(i)->0) {
        Some(
            ProgramErrorV::OperationNotAllowed(
                line,
                operation_text(operation_of(i)->0),
                operation_hint(operation_of(i)->0),
            ),
        )
    } else {
        None
    }
}

/// The first violation of the limits `c` from instruction `from` on; lines count from one.
pub open spec fn first_violation(is: Seq<InstructionV>, c: InstructionConfigView, from: int) -> Option<ProgramErrorV>
    decreases is.len() - from,
{
    if from < 0 || from >= is.len() {
        None
    } else {
        match instruction_violation(is[from], (from + 1) as usize, c) {
            Some(e) => Some(e),
            None => first_violation(is, c, from + 1),
        }
    }
}

fn contains_text(list: &Vec<String>, s: &String) -> (res: bool)
    ensures
        res == string_views(list@).contains(s@),
{
    let mut i: usize = 0;
    while i < list.len()
        invariant
            i <= list.len(),
            forall|k: int| 0 <= k < i ==> string_views(list@)[k] != s@,
        decreases list.len() - i,
    {
        if list[i] == *s {
            assert(string_views(list@)[i as int] == s@);
            return true;
        }
        i = i + 1;
    }
    false
}

fn contains_comparison(list: &Vec<Comparison>, c: Comparison) -> (res: bool)
    ensures
        res == list@.contains(c),
{
    let mut i: usize = 0;
    while i < list.len()
        invariant
            i <= list.len(),
            forall|k: int| 0 <= k < i ==> list@[k] != c,
        decreases list.len() - i,
    {
        if list[i] == c {
            return true;
        }
        i = i + 1;
    }
    false
}

fn contains_operation(list: &Vec<Operation>, o: Operation) -> (res: bool)
    ensures
        res == list@.contains(o),
{
    let mut i: usize = 0;
    while i < list.len()
        invariant
            i <= list.len(),
            forall|k: int| 0 <= k < i ==> list@[k] != o,
        decreases list.len() - i,
    {
        if list[i] == o {
            return true;
        }
        i = i + 1;
    }
    false
}

fn allowed_list(ids: &Vec<String>) -> (res: String)
    ensures
        res@ == join_lines(sorted(string_views(ids@))),
{
    let mut cs: Vec<Vec<char>> = Vec::new();
    let mut i: usize = 0;
    while i < ids.len()
        invariant
            i <= ids.len(),
            views(cs@) == string_views(ids@).take(i as int),
        decreases ids.len() - i,
    {
        let c = to_chars(ids[i].as_str());
        let ghost before = cs@;
        cs.push(c);
        assert(views(cs@) =~= views(before).push(c@));
        assert(string_views(ids@).take(i + 1) =~= string_views(ids@).take(i as int).push(ids@[i as int]@));
        i = i + 1;
    }
    assert(string_views(ids@).take(ids.len() as int) =~= string_views(ids@));
    let s = sort_texts(&cs);
    let joined = join_lines_exec(&s);
    chars_to_string(joined.as_slice())
}

fn instruction_violation_exec(i: &Instruction, line: usize, config: &InstructionConfig) -> (res: Option<BuildProgramError>)
    ensures
        match instruction_violation(i@, line, config@) {
            Some(e) => res matches Some(x) && x@ == e,
            None => res is None,
        },
{
    match &config.allowed_instruction_identifiers {
        Some(whitelist) => {
            let id = i.identifier();
            let noop = "NOOP".to_string();
            if !contains_text(whitelist, &id) && !(id == noop) {
                return Some(BuildProgramError {
                    reason: BuildProgramErrorTypes::InstructionNotAllowed(
                        line,
                        i.to_string(),
                        id,
                        allowed_list(whitelist),
                    ),
                });
            }
        },
        None => {},
    }
    match &config.allowed_comparisons {
        Some(ac) => match i.comparison() {
            Some(c) => if !contains_comparison(ac, *c) {
                return Some(BuildProgramError {
                    reason: BuildProgramErrorTypes::ComparisonNotAllowed(line, c.to_string(), c.cli_hint()),
                });
            },
            None => {},
        },
        None => {},
    }
    match &config.allowed_operations {
        Some(ao) => match i.operation() {
            Some(o) => if !contains_operation(ao, *o) {
                return Some(BuildProgramError {
                    reason: BuildProgramErrorTypes::OperationNotAllowed(line, o.to_string(), o.cli_hint()),
                });
            },
            None => {},
        },
        None => {},
    }
    None
}

/// Checks the instructions against the limits of `instruction_config`: the
/// kind of each instruction must be allowed (an empty line always is), and
/// so must its comparison and its operation. The first violation is returned.
pub fn check_instructions(instructions: &Vec<Instruction>, instruction_config: &InstructionConfig) -> (res: Result<(), BuildProgramError>)
    ensures
        match first_violation(program_view(instructions@), instruction_config@, 0) {
            Some(e) => res matches Err(x) && x@ == e,
            None => res is Ok,
        },
{
    let ghost is = program_view(instructions@);
    let mut idx: usize = 0;
    while idx < instructions.len()
        invariant
            idx <= instructions.len(),
            is == program_view(instructions@),
            first_violation(is, instruction_config@, 0) == first_violation(is, instruction_config@, idx as int),
        decreases instructions.len() - idx,
    {
        assert(is[idx as int] == instructions@[idx as int]@);
        match instruction_violation_exec(&instructions[idx], idx + 1, instruction_config) {
            Some(e) => return Err(e),
            None => {},
        }
        idx = idx + 1;
    }
    Ok(())
}


/// Builds a runtime: holds the program, its labels, its memory and its
/// settings until they are checked and put together.
pub struct RuntimeBuilder {
    runtime_args: Option<RuntimeMemory>,
    instructions: Option<Vec<Instruction>>,
    control_flow: ControlFlow,
    memory_config: Option<MemoryConfig>,
    add_missing: bool,
    runtime_settings: RuntimeSettings,
    instruction_config: InstructionConfig,
}

/// The state of a runtime builder.
pub struct BuilderView {
    /// The memory that was set, if any.
    pub runtime_args: Option<MemoryView>,
    /// The program, if one was set.
    pub instructions: Option<Seq<InstructionV>>,
    /// The labels and the position of the program.
    pub control_flow: ControlFlowView,
    /// The memory layout, if one was set.
    pub memory_config: Option<ConfigView>,
    /// Whether missing memory locations are created when no layout was set.
    pub add_missing: bool,
    pub settings: RuntimeSettings,
    pub instruction_config: InstructionConfigView,
}

impl View for RuntimeBuilder {
    type V = BuilderView;

    closed spec fn view(&self) -> BuilderView {
        BuilderView {
            runtime_args: match self.runtime_args {
                Some(m) => Some(m@),
                None => None,
            },
            instructions: match self.instructions {
                Some(v) => Some(program_view(v@)),
                None => None,
            },
            control_flow: self.control_flow@,
            memory_config: match self.memory_config {
                Some(c) => Some(c@),
                None => None,
            },
            add_missing: self.add_missing,
            settings: self.runtime_settings,
            instruction_config: self.instruction_config@,
        }
    }
}

/// The memory that a runtime built by `b` starts from: that of the layout,
/// else the one that was set.
pub open spec fn start_memory(b: BuilderView) -> Option<MemoryView> {
    match b.memory_config {
        Some(c) => Some(config_memory(c)),
        None => b.runtime_args,
    }
}

/// The detection that a build by `b` uses.
pub open spec fn build_detection(b: BuilderView) -> Detection {
    match b.memory_config {
        Some(c) => detection_from(c.autodetection),
        None => Detection {
            accumulators: b.add_missing,
            gamma: b.add_missing,
            memory_cells: b.add_missing,
            index_memory_cells: b.add_missing,
        },
    }
}

/// The program that a build by `b` runs: where the gamma accumulator is
/// disabled and cannot be enabled, `p(y)` is the memory cell `y`.
pub open spec fn built_program(b: BuilderView) -> Seq<InstructionV> {
    let is = b.instructions->0;
    if start_memory(b)->0.gamma is None && !b.settings.autodetect_gamma_accumulator {
        is.map_values(|i: InstructionV| ungamma(i))
    } else {
        is
    }
}

/// What building a runtime from `b` gives: the runtime, or the first
/// problem found.
pub open spec fn build_spec(b: BuilderView) -> Result<RuntimeView, BuildErrorV> {
    if start_memory(b) is None {
        Err(BuildErrorV::RuntimeArgsMissing)
    } else if b.instructions is None {
        Err(BuildErrorV::InstructionsMissing)
    } else {
        let is = built_program(b);
        let labels = end_labels(b.control_flow.labels, is.len() as usize);
        if first_violation(is, b.instruction_config, 0) is Some {
            Err(BuildErrorV::InstructionsNotAllowed(first_violation(is, b.instruction_config, 0)->0))
        } else if missing_label(labels, is) is Some {
            Err(BuildErrorV::LabelUndefined(missing_label(labels, is)->0))
        } else {
            match vars_checked(start_memory(b)->0, is, build_detection(b)) {
                Err(e) => Err(e),
                Ok(m) => Ok(
                    RuntimeView {
                        memory: m,
                        instructions: is,
                        control_flow: with_main(ControlFlowView { labels, ..b.control_flow }),
                        instruction_runs: 0,
                        settings: b.settings,
                    },
                ),
            }
        }
    }
}

fn copy_instructions(v: &Vec<Instruction>) -> (res: Vec<Instruction>)
    ensures
        program_view(res@) == program_view(v@),
{
    let mut res: Vec<Instruction> = Vec::new();
    let mut i: usize = 0;
    while i < v.len()
        invariant
            i <= v.len(),
            program_view(res@) == program_view(v@).take(i as int),
        decreases v.len() - i,
    {
        let n = v[i].duplicate();
        let ghost before = res@;
        res.push(n);
        assert(program_view(res@) =~= program_view(before).push(n@));
        assert(program_view(v@).take(i + 1) =~= program_view(v@).take(i as int).push(v@[i as int]@));
        i = i + 1;
    }
    assert(program_view(v@).take(v.len() as int) =~= program_view(v@));
    res
}

impl RuntimeBuilder {
    /// A builder with nothing set; it creates no missing memory location.
    pub fn new() -> (res: Self)
        ensures
            res@.runtime_args is None,
            res@.instructions is None,
            res@.control_flow == (ControlFlowView {
                next: 0,
                labels: Map::empty(),
                call_stack: Seq::empty(),
                initial: 0,
            }),
            res@.memory_config is None,
            !res@.add_missing,
            res@.settings == default_settings(),
            res@.instruction_config == (InstructionConfigView { identifiers: None, comparisons: None, operations: None }),
    {
        RuntimeBuilder {
            runtime_args: None,
            instructions: None,
            control_flow: ControlFlow::new(),
            memory_config: None,
            add_missing: false,
            runtime_settings: RuntimeSettings::default(),
            instruction_config: InstructionConfig::default(),
        }
    }

    /// A builder whose memory has four accumulators, the gamma accumulator
    /// and the memory cells `memory_cells`.
    pub fn new_debug(memory_cells: &[&str]) -> (res: Self)
        ensures
            res@.runtime_args == Some(debug_memory(str_views(memory_cells@))),
            res@.instructions is None,
            res@.control_flow == (ControlFlowView {
                next: 0,
                labels: Map::empty(),
                call_stack: Seq::empty(),
                initial: 0,
            }),
            res@.memory_config is None,
            !res@.add_missing,
            res@.settings == default_settings(),
            res@.instruction_config == (InstructionConfigView { identifiers: None, comparisons: None, operations: None }),
    {
        let mut b = RuntimeBuilder::new();
        b.runtime_args = Some(RuntimeMemory::new_debug(memory_cells));
        b
    }

    /// Forgets the memory, the program and the labels.
    pub fn reset(&mut self)
        ensures
            final(self)@ == (BuilderView {
                runtime_args: None,
                instructions: None,
                control_flow: ControlFlowView {
                    next: 0,
                    labels: Map::empty(),
                    call_stack: Seq::empty(),
                    ..old(self)@.control_flow
                },
                ..old(self)@
            }),
    {
        self.runtime_args = None;
        self.instructions = None;
        self.control_flow.reset();
    }

    /// Sets the memory that the runtime starts with.
    pub fn set_runtime_args(&mut self, runtime_args: RuntimeMemory)
        ensures
            final(self)@ == (BuilderView { runtime_args: Some(runtime_args@), ..old(self)@ }),
    {
        self.runtime_args = Some(runtime_args);
    }

    /// Sets the program; its labels are added with [`RuntimeBuilder::add_label`].
    pub fn set_instructions(&mut self, instructions: Vec<Instruction>)
        ensures
            final(self)@ == (BuilderView { instructions: Some(program_view(instructions@)), ..old(self)@ }),
    {
        self.instructions = Some(instructions);
    }

    /// Sets the memory layout, which also decides which missing memory
    /// locations a build creates.
    pub fn set_memory_config(&mut self, memory_config: MemoryConfig)
        ensures
            final(self)@ == (BuilderView {
                memory_config: Some(memory_config@),
                ..old(self)@
            }),
    {
        self.memory_config = Some(memory_config);
    }

    /// Sets the settings of the runtime.
    pub fn set_runtime_settings(&mut self, settings: RuntimeSettings)
        ensures
            final(self)@ == (BuilderView { settings, ..old(self)@ }),
    {
        self.runtime_settings = settings;
    }

    /// Sets the limits on the instructions of the program.
    pub fn set_instruction_config(&mut self, instruction_config: InstructionConfig)
        ensures
            final(self)@ == (BuilderView { instruction_config: instruction_config@, ..old(self)@ }),
    {
        self.instruction_config = instruction_config;
    }

    /// Sets whether missing memory locations are created when no memory
    /// layout is set.
    pub fn set_add_missing(&mut self, add_missing: bool)
        ensures
            final(self)@ == (BuilderView { add_missing, ..old(self)@ }),
    {
        self.add_missing = add_missing;
    }

    /// Marks the instruction `instruction_index` (counted from zero) with `label`.
    ///
    /// Fails when no program is set or when the program has no such instruction.
    pub fn add_label(&mut self, label: String, instruction_index: usize) -> (res: Result<(), AddLabelError>)
        ensures
            old(self)@.instructions is None ==> res == Err::<(), AddLabelError>(AddLabelError::InstructionsNotSet)
                && final(self)@ == old(self)@,
            old(self)@.instructions matches Some(is) && is.len() <= instruction_index ==> res == Err::<(), AddLabelError>(
                AddLabelError::IndexOutOfBounds,
            ) && final(self)@ == old(self)@,
            old(self)@.instructions matches Some(is) && instruction_index < is.len() ==> res is Ok && final(self)@
                == (BuilderView {
                control_flow: ControlFlowView {
                    labels: old(self)@.control_flow.labels.insert(label@, instruction_index),
                    ..old(self)@.control_flow
                },
                ..old(self)@
            }),
    {
        match &self.instructions {
            None => Err(AddLabelError::InstructionsNotSet),
            Some(v) => {
                if v.len() <= instruction_index {
                    Err(AddLabelError::IndexOutOfBounds)
                } else {
                    self.control_flow.instruction_labels.insert(label, instruction_index);
                    Ok(())
                }
            },
        }
    }

    /// Builds a runtime: the program is checked against the limits, every
    /// label that a jump uses must exist, and so must every memory location
    /// of an assignment or a calculation, unless it is created. The runtime
    /// starts at label `main` or `MAIN` if one exists.
    pub fn build(&self) -> (res: Result<Runtime, RuntimeBuildError>)
        ensures
            match build_spec(self@) {
                Ok(r) => res matches Ok(rt) && rt@ == r,
                Err(e) => res matches Err(x) && x@ == e,
            },
    {
        let mut memory = match &self.memory_config {
            Some(c) => RuntimeMemory::from_config(c),
            None => match &self.runtime_args {
                Some(m) => m.duplicate(),
                None => return Err(RuntimeBuildError::RuntimeArgsMissing),
            },
        };
        let mut instructions = match &self.instructions {
            Some(v) => copy_instructions(v),
            None => return Err(RuntimeBuildError::InstructionsMissing),
        };
        if memory.gamma.is_none() && !self.runtime_settings.autodetect_gamma_accumulator {
            replace_gamma_as_index_instructions(&mut instructions);
        }
        match check_instructions(&instructions, &self.instruction_config) {
            Err(e) => return Err(RuntimeBuildError::InstructionsNotAllowed(e)),
            Ok(()) => {},
        }
        let mut control_flow = self.control_flow.duplicate();
        inject_end_labels(&mut control_flow, instructions.len());
        match check_labels(&control_flow, &instructions) {
            Err(l) => return Err(RuntimeBuildError::LabelUndefined(l)),
            Ok(()) => {},
        }
        let d = match &self.memory_config {
            Some(c) => detection_of(c),
            None => Detection {
                accumulators: self.add_missing,
                gamma: self.add_missing,
                memory_cells: self.add_missing,
                index_memory_cells: self.add_missing,
            },
        };
        match check_missing_vars(d, &instructions, &mut memory) {
            Err(e) => return Err(e),
            Ok(()) => {},
        }
        start_at_main(&mut control_flow);
        Ok(Runtime::from_parts(memory, instructions, control_flow, self.runtime_settings))
    }
}


/// A line may end a label that is defined twice; `main` and `MAIN` have an
/// error of their own.
pub open spec fn duplicate_label_error(label: Seq<char>) -> ProgramErrorV {
    if label == "main"@ || label == "MAIN"@ {
        ProgramErrorV::MainLabelDefinedMultipleTimes
    } else {
        ProgramErrorV::LabelDefinedMultipleTimes(label)
    }
}

/// The labels and instructions after the line `line` with index `index` of
/// the file `file` is read: a line without instruction is `Noop`; a label
/// before the instruction marks the line.
#[verifier::opaque]
pub open spec fn program_step(
    st: (Map<Seq<char>, usize>, Seq<InstructionV>),
    index: int,
    line: Seq<char>,
    file: Seq<char>,
) -> Result<(Map<Seq<char>, usize>, Seq<InstructionV>), ProgramErrorV> {
    let t = tokens(remove_comment_spec(line));
    let labeled = t.len() > 0 && t[0].len() > 0 && t[0].last() == ':';
    let label = t[0].filter(|c: char| c != ':');
    if labeled && st.0.contains_key(label) {
        Err(duplicate_label_error(label))
    } else {
        let labels = if labeled { st.0.insert(label, index as usize) } else { st.0 };
        let rest = after_label(t);
        if rest.len() == 0 {
            Ok((labels, st.1.push(InstructionV::Noop)))
        } else {
            match parts_spec(cleaned(rest)) {
                Ok(i) => Ok((labels, st.1.push(i))),
                Err(e) => Err(ProgramErrorV::ParseError(file, (index + 1) as usize, e)),
            }
        }
    }
}

/// The labels and instructions of the first `n` lines.
pub open spec fn program_prefix(lines: Seq<Seq<char>>, file: Seq<char>, n: int) -> Result<(Map<Seq<char>, usize>, Seq<InstructionV>), ProgramErrorV>
    decreases n,
{
    if n <= 0 {
        Ok((Map::empty(), Seq::empty()))
    } else {
        match program_prefix(lines, file, n - 1) {
            Err(e) => Err(e),
            Ok(st) => program_step(st, n - 1, lines[n - 1], file),
        }
    }
}

/// Once reading a program fails, it stays failed with the same error.
proof fn lemma_prefix_error(lines: Seq<Seq<char>>, file: Seq<char>, k: int, m: int)
    requires
        0 <= k <= m,
        program_prefix(lines, file, k) is Err,
    ensures
        program_prefix(lines, file, m) == program_prefix(lines, file, k),
    decreases m - k,
{
    if k < m {
        lemma_prefix_error(lines, file, k, m - 1);
    }
}

/// The labels and instructions of the program `lines` of the file `file`,
/// or the first error; `main` and `MAIN` may not both be defined.
pub open spec fn program_spec(lines: Seq<Seq<char>>, file: Seq<char>) -> Result<(Map<Seq<char>, usize>, Seq<InstructionV>), ProgramErrorV> {
    match program_prefix(lines, file, lines.len() as int) {
        Err(e) => Err(e),
        Ok(st) => if st.0.contains_key("main"@) && st.0.contains_key("MAIN"@) {
            Err(ProgramErrorV::MainLabelDefinedMultipleTimes)
        } else {
            Ok(st)
        },
    }
}

/// The instruction of a line, after its comment and its label, can be read
/// (see [`readable`]).
#[verifier::opaque]
pub open spec fn line_readable(line: Seq<char>) -> bool {
    let rest = after_label(tokens(remove_comment_spec(line)));
    rest.len() == 0 || readable(cleaned(rest))
}

/// Every line of the program can be read.
pub open spec fn program_readable(lines: Seq<Seq<char>>) -> bool {
    forall|i: int| 0 <= i < lines.len() ==> line_readable(#[trigger] lines[i])
}

/// Tells whether every line of the program `lines` can be read (see
/// [`program_readable`]), which [`RuntimeBuilder::from_program`] and
/// [`RuntimeBuilder::build_instructions`] require.
pub fn program_is_readable(lines: &Vec<String>) -> (res: bool)
    ensures
        res == program_readable(string_views(lines@)),
{
    let mut i: usize = 0;
    while i < lines.len()
        invariant
            i <= lines.len(),
            forall|k: int| 0 <= k < i ==> line_readable(#[trigger] string_views(lines@)[k]),
        decreases lines.len() - i,
    {
        let c = to_chars(lines[i].as_str());
        let cleaned_line = remove_comment_chars(c.as_slice());
        let splits = split_whitespace(cleaned_line.as_slice());
        let (_, rest) = split_label(splits);
        proof {
            reveal(line_readable);
            assert(string_views(lines@)[i as int] == lines@[i as int]@);
        }
        if rest.len() > 0 && !crate::instructions::parsing::parts_readable(&rest) {
            assert(!line_readable(string_views(lines@)[i as int]));
            return false;
        }
        i = i + 1;
    }
    true
}

fn remove_colons(t: &[char]) -> (res: Vec<char>)
    ensures
        res@ == t@.filter(|c: char| c != ':'),
{
    let ghost pred = |c: char| c != ':';
    let mut res: Vec<char> = Vec::new();
    let mut i: usize = 0;
    while i < t.len()
        invariant
            i <= t.len(),
            pred == (|c: char| c != ':'),
            res@ == t@.take(i as int).filter(pred),
        decreases t.len() - i,
    {
        proof {
            reveal_with_fuel(Seq::<_>::filter, 1);
            assert(t@.take(i + 1).drop_last() =~= t@.take(i as int));
        }
        if t[i] != ':' {
            res.push(t[i]);
        }
        i = i + 1;
    }
    assert(t@.take(t.len() as int) =~= t@);
    res
}

/// The label at the start of the parts `t`, if the first part ends with
/// `:`, and the parts after it.
fn split_label(t: Vec<Vec<char>>) -> (res: (Option<Vec<char>>, Vec<Vec<char>>))
    ensures
        views(res.1@) == after_label(views(t@)),
        (views(t@).len() > 0 && views(t@)[0].len() > 0 && views(t@)[0].last() == ':') ==> (res.0 matches Some(l)
            && l@ == views(t@)[0].filter(|c: char| c != ':')),
        !(views(t@).len() > 0 && views(t@)[0].len() > 0 && views(t@)[0].last() == ':') ==> res.0 is None,
{
    let ghost tv = views(t@);
    if t.len() > 0 {
        assert(tv[0] == t@[0]@);
    }
    if !(t.len() > 0 && t[0].len() > 0 && t[0][t[0].len() - 1] == ':') {
        return (None, t);
    }
    let label = remove_colons(t[0].as_slice());
    let mut rest: Vec<Vec<char>> = Vec::new();
    let mut k: usize = 1;
    while k < t.len()
        invariant
            1 <= k <= t.len(),
            tv == views(t@),
            views(rest@) == tv.subrange(1, k as int),
        decreases t.len() - k,
    {
        let w = copy_chars(t[k].as_slice());
        let ghost b = rest@;
        rest.push(w);
        assert(views(rest@) =~= views(b).push(w@));
        assert(tv.subrange(1, k + 1) =~= tv.subrange(1, k as int).push(t@[k as int]@));
        k = k + 1;
    }
    assert(tv.subrange(1, t.len() as int) =~= tv.drop_first());
    (Some(label), rest)
}

fn read_line(
    line: &[char],
    index: usize,
    file_name: &str,
    labels: &mut crate::runtime::storage::NameMap<usize>,
    instructions: &mut Vec<Instruction>,
) -> (res: Result<(), BuildProgramError>)
    requires
        line_readable(line@),
        index < usize::MAX,
    ensures
        match program_step((old(labels)@, program_view(old(instructions)@)), index as int, line@, file_name@) {
            Ok(st) => res is Ok && final(labels)@ == st.0 && program_view(final(instructions)@) == st.1,
            Err(e) => res matches Err(x) && x@ == e,
        },
{
    proof {
        reveal(line_readable);
        reveal(program_step);
    }
    let cleaned_line = remove_comment_chars(line);
    let splits = split_whitespace(cleaned_line.as_slice());
    let (label, rest) = split_label(splits);
    let ghost before = program_view(instructions@);
    match label {
        Some(l) => {
            let name = chars_to_string(l.as_slice());
            if labels.contains_key(&name) {
                if eq_text(l.as_slice(), "main") || eq_text(l.as_slice(), "MAIN") {
                    return Err(BuildProgramError { reason: BuildProgramErrorTypes::MainLabelDefinedMultipleTimes });
                }
                return Err(BuildProgramError { reason: BuildProgramErrorTypes::LabelDefinedMultipleTimes(name) });
            }
            labels.insert(name, index);
        },
        None => {},
    }
    if rest.len() == 0 {
        instructions.push(Instruction::Noop);
    } else {
        match Instruction::try_from_parts(&rest) {
            Ok(i) => instructions.push(i),
            Err(e) => {
                return Err(BuildProgramError {
                    reason: BuildProgramErrorTypes::ParseError {
                        file_name: file_name.to_string(),
                        line: index + 1,
                        reason: e,
                    },
                });
            },
        }
    }
    assert(program_view(instructions@) =~= before.push(instructions@.last()@));
    Ok(())
}

fn build_program(lines: &Vec<Vec<char>>, file_name: &str, labels: &mut crate::runtime::storage::NameMap<usize>) -> (res: Result<Vec<Instruction>, BuildProgramError>)
    requires
        program_readable(views(lines@)),
        old(labels)@ == Map::<Seq<char>, usize>::empty(),
    ensures
        match program_spec(views(lines@), file_name@) {
            Ok(st) => res matches Ok(v) && program_view(v@) == st.1 && final(labels)@ == st.0,
            Err(e) => res matches Err(x) && x@ == e,
        },
{
    let ghost ls = views(lines@);
    let mut instructions: Vec<Instruction> = Vec::new();
    let mut index: usize = 0;
    assert(program_prefix(ls, file_name@, 0) == Ok::<(Map<Seq<char>, usize>, Seq<InstructionV>), ProgramErrorV>(
        (labels@, program_view(instructions@)),
    )) by {
        assert(program_view(instructions@) =~= Seq::<InstructionV>::empty());
    }
    while index < lines.len()
        invariant
            index <= lines.len(),
            ls == views(lines@),
            program_readable(ls),
            program_prefix(ls, file_name@, index as int) == Ok::<(Map<Seq<char>, usize>, Seq<InstructionV>), ProgramErrorV>(
                (labels@, program_view(instructions@)),
            ),
        decreases lines.len() - index,
    {
        assert(ls[index as int] == lines@[index as int]@);
        assert(line_readable(ls[index as int]));
        let ghost st = (labels@, program_view(instructions@));
        assert(program_prefix(ls, file_name@, index + 1) == program_step(st, index as int, ls[index as int], file_name@));
        match read_line(lines[index].as_slice(), index, file_name, labels, &mut instructions) {
            Err(e) => {
                proof {
                    lemma_prefix_error(ls, file_name@, index + 1, ls.len() as int);
                }
                return Err(e);
            },
            Ok(()) => {},
        }
        index = index + 1;
    }
    let main = "main".to_string();
    let upper = "MAIN".to_string();
    if labels.contains_key(&main) && labels.contains_key(&upper) {
        return Err(BuildProgramError { reason: BuildProgramErrorTypes::MainLabelDefinedMultipleTimes });
    }
    Ok(instructions)
}

fn eq_text(s: &[char], lit: &str) -> (res: bool)
    ensures
        res == (s@ == lit@),
{
    crate::text::eq_str(s, lit)
}

impl RuntimeBuilder {
    /// Reads the program `instructions_input`, one instruction per line, from
    /// the file `file_name`: comments are dropped, a word that ends with `:`
    /// at the start of a line is a label for that line, and a line without
    /// instruction does nothing.
    ///
    /// On success the program and its labels replace those of the builder;
    /// on an error the builder is unchanged.
    pub fn build_instructions(&mut self, instructions_input: &Vec<&str>, file_name: &str) -> (res: Result<(), BuildProgramError>)
        requires
            program_readable(str_views(instructions_input@)),
        ensures
            match program_spec(str_views(instructions_input@), file_name@) {
                Ok(st) => res is Ok && final(self)@ == (BuilderView {
                    instructions: Some(st.1),
                    control_flow: ControlFlowView { next: 0, labels: st.0, call_stack: Seq::empty(), ..old(self)@.control_flow },
                    ..old(self)@
                }),
                Err(e) => (res matches Err(x) && x@ == e) && final(self)@ == old(self)@,
            },
    {
        let mut lines: Vec<Vec<char>> = Vec::new();
        let mut i: usize = 0;
        while i < instructions_input.len()
            invariant
                i <= instructions_input.len(),
                views(lines@) == str_views(instructions_input@).take(i as int),
            decreases instructions_input.len() - i,
        {
            let c = to_chars(instructions_input[i]);
            let ghost b = lines@;
            lines.push(c);
            assert(views(lines@) =~= views(b).push(c@));
            assert(str_views(instructions_input@).take(i + 1) =~= str_views(instructions_input@).take(i as int).push(
                instructions_input@[i as int]@,
            ));
            i = i + 1;
        }
        assert(str_views(instructions_input@).take(instructions_input.len() as int) =~= str_views(instructions_input@));
        let mut labels = crate::runtime::storage::NameMap::new();
        match build_program(&lines, file_name, &mut labels) {
            Err(e) => Err(e),
            Ok(v) => {
                self.instructions = Some(v);
                self.control_flow.instruction_labels = labels;
                self.control_flow.next_instruction_index = 0;
                self.control_flow.call_stack = Vec::new();
                Ok(())
            },
        }
    }

    /// A builder for the program `lines` of the file `file_name`, read as
    /// [`RuntimeBuilder::build_instructions`] reads it. Its memory has four
    /// accumulators and the memory cells `h0` to `h3`; memory locations
    /// that the program uses are created.
    pub fn from_program(lines: &Vec<String>, file_name: &str) -> (res: Result<Self, BuildProgramError>)
        requires
            program_readable(string_views(lines@)),
        ensures
            match program_spec(string_views(lines@), file_name@) {
                Ok(st) => res matches Ok(b) && b@ == (BuilderView {
                    runtime_args: Some(default_memory()),
                    instructions: Some(st.1),
                    control_flow: ControlFlowView { next: 0, labels: st.0, call_stack: Seq::empty(), initial: 0 },
                    memory_config: None,
                    add_missing: true,
                    settings: default_settings(),
                    instruction_config: InstructionConfigView { identifiers: None, comparisons: None, operations: None },
                }),
                Err(e) => res matches Err(x) && x@ == e,
            },
    {
        let mut cs: Vec<Vec<char>> = Vec::new();
        let mut i: usize = 0;
        while i < lines.len()
            invariant
                i <= lines.len(),
                views(cs@) == string_views(lines@).take(i as int),
            decreases lines.len() - i,
        {
            let c = to_chars(lines[i].as_str());
            let ghost b = cs@;
            cs.push(c);
            assert(views(cs@) =~= views(b).push(c@));
            assert(string_views(lines@).take(i + 1) =~= string_views(lines@).take(i as int).push(lines@[i as int]@));
            i = i + 1;
        }
        assert(string_views(lines@).take(lines.len() as int) =~= string_views(lines@));
        let mut labels = crate::runtime::storage::NameMap::new();
        match build_program(&cs, file_name, &mut labels) {
            Err(e) => Err(e),
            Ok(v) => {
                let mut b = RuntimeBuilder::new();
                b.runtime_args = Some(RuntimeMemory::default());
                b.add_missing = true;
                b.instructions = Some(v);
                b.control_flow.instruction_labels = labels;
                Ok(b)
            },
        }
    }
}


/// The accumulators `m` with accumulators `0..n` added or emptied.
pub open spec fn with_accumulators(m: Map<usize, Option<i32>>, n: nat) -> Map<usize, Option<i32>>
    decreases n,
{
    if n == 0 {
        m
    } else {
        with_accumulators(m, (n - 1) as nat).insert((n - 1) as usize, None)
    }
}

/// The memory cells `m` with the cells `names` added or emptied.
pub open spec fn with_cells(m: Map<Seq<char>, Option<i32>>, names: Seq<Seq<char>>) -> Map<Seq<char>, Option<i32>>
    decreases names.len(),
{
    if names.len() == 0 {
        m
    } else {
        with_cells(m, names.drop_last()).insert(names.last(), None)
    }
}

/// The index memory cells `m` with the cells `idx` added or emptied.
pub open spec fn with_indices(m: Map<usize, Option<i32>>, idx: Seq<usize>) -> Map<usize, Option<i32>>
    decreases idx.len(),
{
    if idx.len() == 0 {
        m
    } else {
        with_indices(m, idx.drop_last()).insert(idx.last(), None)
    }
}

/// The layout `c` with the locations that the command line asks for.
pub open spec fn global_layout(c: ConfigView, g: GlobalArgs) -> ConfigView {
    ConfigView {
        accumulators: match g.accumulators {
            Some(n) => with_accumulators(c.accumulators, n as nat),
            None => c.accumulators,
        },
        memory_cells: match g.memory_cells {
            Some(v) => with_cells(c.memory_cells, string_views(v@)),
            None => c.memory_cells,
        },
        index_memory_cells: match g.index_memory_cells {
            Some(v) => with_indices(c.index_memory_cells, v@),
            None => c.index_memory_cells,
        },
        ..c
    }
}

/// The settings `s` with the autodetection values that are set in `a`.
pub open spec fn apply_autodetection(s: RuntimeSettings, a: Autodetection) -> RuntimeSettings {
    RuntimeSettings {
        autodetect_accumulators: match a.accumulators {
            Some(v) => v,
            None => s.autodetect_accumulators,
        },
        autodetect_gamma_accumulator: match a.gamma {
            Some(v) => v,
            None => s.autodetect_gamma_accumulator,
        },
        autodetect_memory_cells: match a.memory_cells {
            Some(v) => v,
            None => s.autodetect_memory_cells,
        },
        autodetect_index_memory_cells: match a.index_memory_cells {
            Some(v) => v,
            None => s.autodetect_index_memory_cells,
        },
        ..s
    }
}

/// `more` where it is given, else `list`.
pub open spec fn replaced<T>(list: Option<Seq<T>>, more: Option<Seq<T>>) -> Option<Seq<T>> {
    match more {
        None => list,
        Some(m) => Some(m),
    }
}

/// The limits `c` with those of a whitelist file `f`, where `f` sets them.
pub open spec fn with_file_limits(c: InstructionConfigView, f: Option<InstructionConfigView>) -> InstructionConfigView {
    match f {
        None => c,
        Some(f) => InstructionConfigView {
            identifiers: if f.identifiers is Some { f.identifiers } else { c.identifiers },
            comparisons: if f.comparisons is Some { f.comparisons } else { c.comparisons },
            operations: if f.operations is Some { f.operations } else { c.operations },
        },
    }
}

/// The layout `c` with every autodetection off, and with the gamma
/// accumulator enabled if `enable_gamma`.
pub open spec fn detection_off(c: ConfigView, enable_gamma: bool) -> ConfigView {
    ConfigView {
        gamma_enabled: c.gamma_enabled || enable_gamma,
        autodetection: Autodetection {
            accumulators: Some(false),
            gamma: Some(false),
            memory_cells: Some(false),
            index_memory_cells: Some(false),
        },
        ..c
    }
}

fn copy_comparisons(more: &Vec<Comparison>) -> (res: Vec<Comparison>)
    ensures
        res@ == more@,
{
    let mut res: Vec<Comparison> = Vec::new();
    let mut j: usize = 0;
    while j < more.len()
        invariant
            j <= more.len(),
            res@ == more@.take(j as int),
        decreases more.len() - j,
    {
        res.push(more[j]);
        assert(res@ =~= more@.take(j + 1));
        j = j + 1;
    }
    assert(more@.take(more.len() as int) =~= more@);
    res
}

fn copy_operations(more: &Vec<Operation>) -> (res: Vec<Operation>)
    ensures
        res@ == more@,
{
    let mut res: Vec<Operation> = Vec::new();
    let mut j: usize = 0;
    while j < more.len()
        invariant
            j <= more.len(),
            res@ == more@.take(j as int),
        decreases more.len() - j,
    {
        res.push(more[j]);
        assert(res@ =~= more@.take(j + 1));
        j = j + 1;
    }
    assert(more@.take(more.len() as int) =~= more@);
    res
}

fn add_global_locations(config: &mut MemoryConfig, g: &GlobalArgs)
    requires
        g.accumulators != Some(0u8),
    ensures
        final(config)@ == global_layout(old(config)@, *g),
{
    let ghost base = config@;
    match g.accumulators {
        Some(n) => {
            let mut value: u8 = 0;
            while value < n
                invariant
                    value <= n,
                    config@ == (ConfigView {
                        accumulators: with_accumulators(base.accumulators, value as nat),
                        ..base
                    }),
                decreases n - value,
            {
                config.accumulators.values.insert(value as usize, None);
                value = value + 1;
            }
        },
        None => {},
    }
    let ghost base2 = config@;
    match &g.memory_cells {
        Some(cells) => {
            let mut i: usize = 0;
            while i < cells.len()
                invariant
                    i <= cells.len(),
                    config@ == (ConfigView {
                        memory_cells: with_cells(base2.memory_cells, string_views(cells@).take(i as int)),
                        ..base2
                    }),
                decreases cells.len() - i,
            {
                assert(string_views(cells@).take(i + 1).drop_last() =~= string_views(cells@).take(i as int));
                config.memory_cells.values.insert(cells[i].clone(), None);
                i = i + 1;
            }
            assert(string_views(cells@).take(cells.len() as int) =~= string_views(cells@));
        },
        None => {},
    }
    let ghost base3 = config@;
    match &g.index_memory_cells {
        Some(idx) => {
            let mut i: usize = 0;
            while i < idx.len()
                invariant
                    i <= idx.len(),
                    config@ == (ConfigView {
                        index_memory_cells: with_indices(base3.index_memory_cells, idx@.take(i as int)),
                        ..base3
                    }),
                decreases idx.len() - i,
            {
                assert(idx@.take(i + 1).drop_last() =~= idx@.take(i as int));
                config.index_memory_cells.values.insert(idx[i], None);
                i = i + 1;
            }
            assert(idx@.take(idx.len() as int) =~= idx@);
        },
        None => {},
    }
}

fn settings_with_autodetection(s: RuntimeSettings, config: &MemoryConfig) -> (res: RuntimeSettings)
    ensures
        res == apply_autodetection(s, config@.autodetection),
{
    let mut settings = s;
    match config.accumulators.autodetection {
        Some(v) => settings.autodetect_accumulators = v,
        None => {},
    }
    match config.gamma_accumulator.autodetection {
        Some(v) => settings.autodetect_gamma_accumulator = v,
        None => {},
    }
    match config.memory_cells.autodetection {
        Some(v) => settings.autodetect_memory_cells = v,
        None => {},
    }
    match config.index_memory_cells.autodetection {
        Some(v) => settings.autodetect_index_memory_cells = v,
        None => {},
    }
    settings
}

impl RuntimeBuilder {
    /// Applies the arguments that all commands share. The memory layout is
    /// the one set before, else `file_config`, the layout read from the
    /// memory config file of the arguments, else an empty one. The
    /// accumulators, memory cells and index memory cells that the arguments
    /// name are added to it, empty. The settings take the instruction limit
    /// of the arguments and the autodetection values that the layout sets.
    pub fn apply_global_cli_args(&mut self, global_args: &GlobalArgs, file_config: Option<MemoryConfig>)
        requires
            global_args.accumulators != Some(0u8),
        ensures
            ({
                let base = match old(self)@.memory_config {
                    Some(c) => c,
                    None => match file_config {
                        Some(f) => f@,
                        None => empty_config(),
                    },
                };
                let layout = global_layout(base, *global_args);
                final(self)@ == BuilderView {
                    memory_config: Some(layout),
                    settings: apply_autodetection(
                        RuntimeSettings {
                            disable_instruction_limit: global_args.disable_instruction_limit,
                            ..old(self)@.settings
                        },
                        layout.autodetection,
                    ),
                    ..old(self)@
                }
            }),
    {
        let mut config = match &self.memory_config {
            Some(c) => c.duplicate(),
            None => match file_config {
                Some(f) => f,
                None => MemoryConfig::default(),
            },
        };
        add_global_locations(&mut config, global_args);
        let mut settings = self.runtime_settings;
        settings.disable_instruction_limit = global_args.disable_instruction_limit;
        let settings = settings_with_autodetection(settings, &config);
        self.runtime_settings = settings;
        self.memory_config = Some(config);
    }

    /// Applies the arguments that limit instructions and memory. The limits
    /// that `file_config`, the whitelist file of the arguments, sets replace
    /// those of the builder; the allowed comparisons and operations that the
    /// arguments give replace the allowed ones. If memory detection is
    /// disabled, the memory layout (the one set before, else an empty one)
    /// turns every autodetection off, enables the gamma accumulator if the
    /// arguments ask for it, and the settings create no memory location.
    pub fn apply_instruction_limiting_args(&mut self, instruction_limiting_args: &InstructionLimitingArgs, file_config: Option<InstructionConfig>)
        ensures
            ({
                let ila = *instruction_limiting_args;
                let limits = with_file_limits(
                    old(self)@.instruction_config,
                    match file_config {
                        Some(f) => Some(f@),
                        None => None,
                    },
                );
                let limits2 = InstructionConfigView {
                    comparisons: replaced(limits.comparisons, match ila.allowed_comparisons {
                        Some(v) => Some(v@),
                        None => None,
                    }),
                    operations: replaced(limits.operations, match ila.allowed_operations {
                        Some(v) => Some(v@),
                        None => None,
                    }),
                    ..limits
                };
                if ila.disable_memory_detection {
                    final(self)@ == BuilderView {
                        instruction_config: limits2,
                        memory_config: Some(detection_off(match old(self)@.memory_config {
                            Some(c) => c,
                            None => empty_config(),
                        }, ila.enable_gamma_accumulator == Some(true))),
                        settings: RuntimeSettings {
                            autodetect_accumulators: false,
                            autodetect_gamma_accumulator: false,
                            autodetect_memory_cells: false,
                            autodetect_index_memory_cells: false,
                            ..old(self)@.settings
                        },
                        ..old(self)@
                    }
                } else {
                    final(self)@ == BuilderView { instruction_config: limits2, ..old(self)@ }
                }
            }),
    {
        match file_config {
            Some(f) => {
                if f.allowed_instruction_identifiers.is_some() {
                    self.instruction_config.allowed_instruction_identifiers = f.allowed_instruction_identifiers;
                }
                if f.allowed_comparisons.is_some() {
                    self.instruction_config.allowed_comparisons = f.allowed_comparisons;
                }
                if f.allowed_operations.is_some() {
                    self.instruction_config.allowed_operations = f.allowed_operations;
                }
            },
            None => {},
        }
        match &instruction_limiting_args.allowed_comparisons {
            Some(ac) => {
                let all = copy_comparisons(ac);
                self.instruction_config.allowed_comparisons = Some(all);
            },
            None => {},
        }
        match &instruction_limiting_args.allowed_operations {
            Some(ao) => {
                let all = copy_operations(ao);
                self.instruction_config.allowed_operations = Some(all);
            },
            None => {},
        }
        if instruction_limiting_args.disable_memory_detection {
            let mut config = match &self.memory_config {
                Some(c) => c.duplicate(),
                None => MemoryConfig::default(),
            };
            config.accumulators.autodetection = Some(false);
            config.gamma_accumulator.autodetection = Some(false);
            config.memory_cells.autodetection = Some(false);
            config.index_memory_cells.autodetection = Some(false);
            if instruction_limiting_args.enable_gamma_accumulator == Some(true) {
                config.gamma_accumulator.enabled = true;
            }
            self.memory_config = Some(config);
            let mut settings = self.runtime_settings;
            settings.autodetect_accumulators = false;
            settings.autodetect_gamma_accumulator = false;
            settings.autodetect_memory_cells = false;
            settings.autodetect_index_memory_cells = false;
            self.runtime_settings = settings;
        }
    }
}

} // verus!
