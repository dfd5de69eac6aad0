//! Properties of the alpha notation runtime that hold across its operations.
use vstd::prelude::*;

use crate::base::{calc_spec, compares, operation_from, Comparison, Operation};
use crate::instructions::semantics::{call_spec, pop_spec, push_spec, return_spec, step_spec};
use crate::instructions::error_handling::ParseErrorV;
use crate::instructions::{IndexV, InstructionV, TargetV, ValueV};
use crate::instructions::notation::{instruction_kind, instruction_text};
use crate::instructions::parsing::{ascii, cleaned, line_spec, operation_spec, parse_panics, part_range_spec};
use crate::instructions::roundtrip::{
    lemma_read_assign, lemma_read_calc, lemma_read_jump, lemma_read_jump_to, lemma_read_stack,
    lemma_read_word, plain_instruction,
};
use crate::text::{find, strip_cr, text_lines, tokens, trim};
use crate::utils::{
    blank_in_line, comment_free, comment_marker, lemma_find_none_prefix, lemma_inline_comment,
    lemma_no_comment, remove_comment_spec, without_comment,
};
use crate::runtime::builder::{
    first_violation, instruction_violation, operation_of,
    accumulator_checked, build_spec, cell_checked, end_labels, gamma_checked, index_checked, instruction_checked,
    jump_label, missing_label, target_checked, value_checked, vars_checked, with_main, BuilderView, Detection,
};
use crate::runtime::{cleared, run_spec, runtime_step, ControlFlowView, MemoryView, RuntimeSettings, RuntimeView};
use crate::runtime::builder::{global_layout, with_accumulators};
use crate::runtime::error_handling::{CalcErrorV, RuntimeErrorV};
use crate::runtime::memory_config::ConfigView;
use crate::cli::GlobalArgs;
use vstd::arithmetic::div_mod::{lemma_div_pos_is_pos, lemma_fundamental_div_mod, lemma_mod_bound, lemma_mod_multiples_basic, lemma_mod_pos_bound};

verus! {

/// Pushing the value of accumulator 0 and popping it again leaves the memory
/// as it was.
pub proof fn law_push_then_pop(m: MemoryView)
    requires
        push_spec(m).0 is Ok,
    ensures
        pop_spec(push_spec(m).1) == (Ok::<(), crate::runtime::error_handling::RuntimeErrorV>(()), m),
{
    let m1 = push_spec(m).1;
    assert(m1.stack.drop_last() =~= m.stack);
    assert(m.accumulators.insert(0, Some(m1.stack.last())) =~= m.accumulators);
}

/// A call followed by a return continues where the call was made: the
/// control flow is as before the call.
pub proof fn law_call_then_return(label: Seq<char>, cf: ControlFlowView)
    requires
        call_spec(label, cf).0 is Ok,
    ensures
        return_spec(call_spec(label, cf).1) == (Ok::<(), crate::runtime::error_handling::RuntimeErrorV>(()), cf),
{
    let c1 = call_spec(label, cf).1;
    assert(c1.call_stack.drop_last() =~= cf.call_stack);
}

/// Memory locations that exist before an instruction runs exist after it,
/// whatever its result, and an enabled gamma accumulator stays enabled.
pub proof fn law_locations_persist(i: InstructionV, m: MemoryView, cf: ControlFlowView, s: RuntimeSettings)
    ensures
        m.accumulators.dom().subset_of(step_spec(i, m, cf, s).1.accumulators.dom()),
        m.memory_cells.dom().subset_of(step_spec(i, m, cf, s).1.memory_cells.dom()),
        m.index_memory_cells.dom().subset_of(step_spec(i, m, cf, s).1.index_memory_cells.dom()),
        m.gamma is Some ==> step_spec(i, m, cf, s).1.gamma is Some,
{
}

/// An instruction that fails changes neither the memory nor the control
/// flow; a stack operation, which takes its values off the stack, and a
/// call, which keeps its return address, are the exceptions.
pub proof fn law_failure_changes_nothing(i: InstructionV, m: MemoryView, cf: ControlFlowView, s: RuntimeSettings)
    requires
        step_spec(i, m, cf, s).0 is Err,
        !(i is StackOp),
        !(i is Call),
    ensures
        step_spec(i, m, cf, s).1 == m,
        step_spec(i, m, cf, s).2 == cf,
{
}

/// Subtracting what was added gives back the first value.
pub proof fn law_add_then_sub(x: i32, y: i32)
    requires
        calc_spec(Operation::Add, x, y) is Ok,
    ensures
        calc_spec(Operation::Sub, calc_spec(Operation::Add, x, y)->Ok_0, y) == Ok::<i32, crate::runtime::error_handling::CalcErrorV>(x),
{
}

/// Each comparison holds exactly when its opposite does not.
pub proof fn law_comparison_opposites(x: i32, y: i32)
    ensures
        compares(Comparison::Lt, x, y) == !compares(Comparison::Ge, x, y),
        compares(Comparison::Le, x, y) == !compares(Comparison::Gt, x, y),
        compares(Comparison::Eq, x, y) == !compares(Comparison::Neq, x, y),
{
}

/// A run that ends without error ends with no instruction left to run.
pub proof fn law_run_ends_finished(r: RuntimeView)
    requires
        run_spec(r).0 is Ok,
    ensures
        run_spec(r).1.control_flow.next >= run_spec(r).1.instructions.len(),
    decreases usize::MAX - r.instruction_runs,
{
    if r.control_flow.next < r.instructions.len() {
        let out = crate::runtime::runtime_step(r);
        if out.1.instruction_runs > r.instruction_runs {
            law_run_ends_finished(out.1);
        } else {
            assert(out.0 is Err || out.0 == Ok::<bool, (crate::runtime::error_handling::RuntimeErrorV, usize)>(false));
        }
    }
}

/// Resetting the memory keeps every location and removes every value and
/// the stack; resetting again changes nothing.
pub proof fn law_reset_memory(m: MemoryView)
    ensures
        cleared(m).accumulators.dom() == m.accumulators.dom(),
        cleared(m).memory_cells.dom() == m.memory_cells.dom(),
        cleared(m).index_memory_cells.dom() == m.index_memory_cells.dom(),
        cleared(m).gamma is Some <==> m.gamma is Some,
        forall|a: usize| #[trigger] cleared(m).accumulators.contains_key(a) ==> cleared(m).accumulators[a] is None,
        forall|n: Seq<char>| #[trigger] cleared(m).memory_cells.contains_key(n) ==> cleared(m).memory_cells[n] is None,
        cleared(m).stack.len() == 0,
        cleared(cleared(m)) == cleared(m),
{
    assert(cleared(m).accumulators.dom() =~= m.accumulators.dom());
    assert(cleared(m).memory_cells.dom() =~= m.memory_cells.dom());
    assert(cleared(m).index_memory_cells.dom() =~= m.index_memory_cells.dom());
    assert(cleared(cleared(m)).accumulators =~= cleared(m).accumulators);
    assert(cleared(cleared(m)).memory_cells =~= cleared(m).memory_cells);
    assert(cleared(cleared(m)).index_memory_cells =~= cleared(m).index_memory_cells);
}

proof fn lemma_missing_label_none(labels: Map<Seq<char>, usize>, is: Seq<InstructionV>, k: int)
    requires
        missing_label(labels, is) is None,
        0 <= k < is.len(),
        jump_label(is[k]) is Some,
    ensures
        labels.contains_key(jump_label(is[k])->0),
    decreases is.len(),
{
    if k > 0 {
        assert(is.drop_first()[k - 1] == is[k]);
        lemma_missing_label_none(labels, is.drop_first(), k - 1);
    }
}

/// A built runtime knows every label that one of its jumps uses, and each
/// of its end labels, `END`, `ENDE`, `end`, `ende`, `End` and `Ende`, marks
/// the index just past the last instruction.
pub proof fn law_built_labels_exist(b: BuilderView)
    requires
        build_spec(b) is Ok,
        b.instructions matches Some(is) && is.len() <= usize::MAX,
    ensures
        ({
            let r = build_spec(b)->Ok_0;
            &&& forall|k: int| 0 <= k < r.instructions.len() && #[trigger] jump_label(r.instructions[k]) is Some
                ==> r.control_flow.labels.contains_key(jump_label(r.instructions[k])->0)
            &&& r.control_flow.labels.contains_key("END"@) && r.control_flow.labels["END"@] == r.instructions.len()
            &&& r.control_flow.labels.contains_key("ENDE"@) && r.control_flow.labels["ENDE"@] == r.instructions.len()
            &&& r.control_flow.labels.contains_key("end"@) && r.control_flow.labels["end"@] == r.instructions.len()
            &&& r.control_flow.labels.contains_key("ende"@) && r.control_flow.labels["ende"@] == r.instructions.len()
            &&& r.control_flow.labels.contains_key("End"@) && r.control_flow.labels["End"@] == r.instructions.len()
            &&& r.control_flow.labels.contains_key("Ende"@) && r.control_flow.labels["Ende"@] == r.instructions.len()
        }),
{
    let r = build_spec(b)->Ok_0;
    let labels = end_labels(b.control_flow.labels, r.instructions.len() as usize);
    assert(r.control_flow.labels == labels);
    assert forall|k: int| 0 <= k < r.instructions.len() && #[trigger] jump_label(r.instructions[k]) is Some implies r.control_flow.labels.contains_key(
        jump_label(r.instructions[k])->0,
    ) by {
        lemma_missing_label_none(labels, r.instructions, k);
    }
    reveal_strlit("END");
    reveal_strlit("ENDE");
    reveal_strlit("end");
    reveal_strlit("ende");
    reveal_strlit("End");
    reveal_strlit("Ende");
    assert("END"@.len() != "ENDE"@.len() && "END"@.len() != "ende"@.len() && "END"@.len() != "Ende"@.len());
    assert("END"@[0] != "end"@[0] && "END"@[1] != "End"@[1]);
    assert("ENDE"@[1] != "ende"@[1] && "ENDE"@[1] != "Ende"@[1] && "ENDE"@.len() != "end"@.len() && "ENDE"@.len() != "End"@.len());
    assert("end"@.len() != "ende"@.len() && "end"@.len() != "Ende"@.len() && "end"@[0] != "End"@[0]);
    assert("ende"@.len() != "End"@.len() && "ende"@[0] != "Ende"@[0]);
    assert("End"@.len() != "Ende"@.len());
}

/// The locations that a target needs exist in `m`.
pub open spec fn target_present(m: MemoryView, t: TargetV) -> bool {
    match t {
        TargetV::Accumulator(a) => m.accumulators.contains_key(a),
        TargetV::MemoryCell(n) => m.memory_cells.contains_key(n),
        TargetV::Gamma => m.gamma is Some,
        TargetV::IndexMemoryCell(x) => index_present(m, x),
    }
}

/// The locations that a value needs exist in `m`.
pub open spec fn value_present(m: MemoryView, v: ValueV) -> bool {
    match v {
        ValueV::Accumulator(a) => m.accumulators.contains_key(a),
        ValueV::MemoryCell(n) => m.memory_cells.contains_key(n),
        ValueV::Gamma => m.gamma is Some,
        ValueV::Constant(_) => true,
        ValueV::IndexMemoryCell(x) => index_present(m, x),
    }
}

/// The location that an index reads exists in `m`.
pub open spec fn index_present(m: MemoryView, x: IndexV) -> bool {
    match x {
        IndexV::Accumulator(a) => m.accumulators.contains_key(a),
        IndexV::MemoryCell(n) => m.memory_cells.contains_key(n),
        IndexV::Gamma => m.gamma is Some,
        _ => true,
    }
}

/// The locations of an assignment or a calculation exist in `m`.
pub open spec fn locations_present(m: MemoryView, i: InstructionV) -> bool {
    match i {
        InstructionV::Assign(t, v) => target_present(m, t) && value_present(m, v),
        InstructionV::Calc(t, a, _, b) => target_present(m, t) && value_present(m, a) && value_present(m, b),
        _ => true,
    }
}

/// `m2` has every location of `m1`.
pub open spec fn grows(m1: MemoryView, m2: MemoryView) -> bool {
    &&& m1.accumulators.dom().subset_of(m2.accumulators.dom())
    &&& m1.memory_cells.dom().subset_of(m2.memory_cells.dom())
    &&& (m1.gamma is Some ==> m2.gamma is Some)
}

proof fn lemma_present_grows(m1: MemoryView, m2: MemoryView, i: InstructionV)
    requires
        locations_present(m1, i),
        grows(m1, m2),
    ensures
        locations_present(m2, i),
{
}

proof fn lemma_index_checked(m: MemoryView, x: IndexV, add: bool)
    requires
        index_checked(m, x, add) is Ok,
    ensures
        index_present(index_checked(m, x, add)->Ok_0, x),
        grows(m, index_checked(m, x, add)->Ok_0),
{
}

proof fn lemma_instruction_checked(m: MemoryView, i: InstructionV, d: Detection)
    requires
        instruction_checked(m, i, d) is Ok,
    ensures
        locations_present(instruction_checked(m, i, d)->Ok_0, i),
        grows(m, instruction_checked(m, i, d)->Ok_0),
{
    match i {
        InstructionV::Assign(t, v) => {
            let m1 = target_checked(m, t, d)->Ok_0;
            let m2 = value_checked(m1, v, d)->Ok_0;
            if let TargetV::IndexMemoryCell(x) = t {
                lemma_index_checked(m, x, d.index_memory_cells);
            }
            if let ValueV::IndexMemoryCell(x) = v {
                lemma_index_checked(m1, x, d.index_memory_cells);
            }
        },
        InstructionV::Calc(t, a, _, b) => {
            let m1 = target_checked(m, t, d)->Ok_0;
            let m2 = value_checked(m1, a, d)->Ok_0;
            if let TargetV::IndexMemoryCell(x) = t {
                lemma_index_checked(m, x, d.index_memory_cells);
            }
            if let ValueV::IndexMemoryCell(x) = a {
                lemma_index_checked(m1, x, d.index_memory_cells);
            }
            if let ValueV::IndexMemoryCell(x) = b {
                lemma_index_checked(m2, x, d.index_memory_cells);
            }
        },
        _ => {},
    }
}

proof fn lemma_vars_checked(m: MemoryView, is: Seq<InstructionV>, d: Detection)
    requires
        vars_checked(m, is, d) is Ok,
    ensures
        grows(m, vars_checked(m, is, d)->Ok_0),
        forall|k: int| 0 <= k < is.len() ==> locations_present(vars_checked(m, is, d)->Ok_0, #[trigger] is[k]),
    decreases is.len(),
{
    if is.len() > 0 {
        lemma_instruction_checked(m, is[0], d);
        let m1 = instruction_checked(m, is[0], d)->Ok_0;
        lemma_vars_checked(m1, is.drop_first(), d);
        let m2 = vars_checked(m, is, d)->Ok_0;
        assert forall|k: int| 0 <= k < is.len() implies locations_present(m2, #[trigger] is[k]) by {
            if k == 0 {
                lemma_present_grows(m1, m2, is[0]);
            } else {
                assert(is.drop_first()[k - 1] == is[k]);
            }
        }
    }
}

/// In a built runtime, every memory location that an assignment or a
/// calculation uses exists, and every location of the memory it was built
/// from is still there.
pub proof fn law_built_locations_exist(b: BuilderView)
    requires
        build_spec(b) is Ok,
    ensures
        ({
            let r = build_spec(b)->Ok_0;
            &&& forall|k: int| 0 <= k < r.instructions.len() ==> locations_present(r.memory, #[trigger] r.instructions[k])
            &&& grows(crate::runtime::builder::start_memory(b)->0, r.memory)
        }),
{
    let r = build_spec(b)->Ok_0;
    lemma_vars_checked(
        crate::runtime::builder::start_memory(b)->0,
        r.instructions,
        crate::runtime::builder::build_detection(b),
    );
}

/// Without a first violation from instruction `from` on, no instruction from there on violates the limits.
proof fn lemma_no_violation_after(is: Seq<InstructionV>, c: crate::instructions::instruction_config::InstructionConfigView, from: int, k: int)
    requires
        0 <= from <= k < is.len(),
        first_violation(is, c, from) is None,
    ensures
        instruction_violation(is[k], (k + 1) as usize, c) is None,
    decreases k - from,
{
    if from < k {
        lemma_no_violation_after(is, c, from + 1, k);
    }
}

/// A built runtime holds only instructions that its limits allow: their
/// kinds are in the list of allowed kinds (an empty line is always
/// allowed), their comparisons and their operations are allowed.
pub proof fn law_built_instructions_allowed(b: BuilderView)
    requires
        build_spec(b) is Ok,
    ensures
        ({
            let r = build_spec(b)->Ok_0;
            let c = b.instruction_config;
            forall|k: int| 0 <= k < r.instructions.len() ==> {
                let i = #[trigger] r.instructions[k];
                &&& c.identifiers is Some ==> c.identifiers->0.contains(instruction_kind(i)) || instruction_kind(i) == "NOOP"@
                &&& c.comparisons is Some && i is JumpIf ==> c.comparisons->0.contains(i->JumpIf_1)
                &&& c.operations is Some && operation_of(i) is Some ==> c.operations->0.contains(operation_of(i)->0)
            }
        }),
{
    let r = build_spec(b)->Ok_0;
    assert forall|k: int| 0 <= k < r.instructions.len() implies {
        let i = #[trigger] r.instructions[k];
        let c = b.instruction_config;
        &&& c.identifiers is Some ==> c.identifiers->0.contains(instruction_kind(i)) || instruction_kind(i) == "NOOP"@
        &&& c.comparisons is Some && i is JumpIf ==> c.comparisons->0.contains(i->JumpIf_1)
        &&& c.operations is Some && operation_of(i) is Some ==> c.operations->0.contains(operation_of(i)->0)
    } by {
        lemma_no_violation_after(r.instructions, b.instruction_config, 0, k);
    }
}

/// What [`Instruction::to_string`](crate::instructions::Instruction::to_string)
/// writes, [`Instruction::try_from`](crate::instructions::Instruction::try_from)
/// reads back as the same instruction, and the reading does not fail without
/// an error. This holds of every instruction but the empty one, which is
/// written as nothing, provided its memory cells have valid names that name
/// no accumulator and not the gamma accumulator, and its labels are words
/// that do not end with `;`.
pub proof fn law_written_instruction_reads_back(i: InstructionV)
    requires
        plain_instruction(i),
    ensures
        line_spec(instruction_text(i)) == Ok::<InstructionV, ParseErrorV>(i),
        !parse_panics(cleaned(tokens(instruction_text(i)))),
{
    match i {
        InstructionV::Assign(t, v) => lemma_read_assign(t, v),
        InstructionV::Calc(t, a, op, b) => lemma_read_calc(t, a, op, b),
        InstructionV::JumpIf(a, c, b, l) => lemma_read_jump(a, c, b, l),
        InstructionV::Goto(l) => lemma_read_jump_to(i, l),
        InstructionV::Call(l) => lemma_read_jump_to(i, l),
        InstructionV::StackOp(op) => lemma_read_stack(op),
        InstructionV::Noop => {},
        _ => lemma_read_word(i),
    }
}

/// A comment, started by `//` or `#` after a line and optional white space
/// on the same line, does not change the line: taking the comments out of
/// the line with its comment gives the same as taking them out of the line
/// alone, which is the line trimmed. The line must hold no comment mark
/// itself, and `//` right after a `/` would start one character earlier.
pub proof fn law_comment_ignored(line: Seq<char>, sep: Seq<char>, marker: Seq<char>, comment: Seq<char>)
    requires
        comment_marker(marker),
        comment_free(line),
        blank_in_line(sep),
        forall|i: int| 0 <= i < line.len() ==> #[trigger] line[i] != '\n',
        forall|i: int| 0 <= i < comment.len() ==> #[trigger] comment[i] != '\n',
        marker == "//"@ && sep.len() == 0 && line.len() > 0 ==> line.last() != '/',
    ensures
        remove_comment_spec(line + sep + marker + comment) == remove_comment_spec(line),
        remove_comment_spec(line) == trim(line),
{
    reveal_strlit("//");
    reveal_strlit("#");
    let s = line + sep + marker + comment;
    assert(marker.len() > 0 && marker[0] != '\n' && marker.last() != '\n' && marker.last() != '\r');
    assert forall|i: int| 0 <= i < s.len() implies #[trigger] s[i] != '\n' by {
        if i < line.len() {
        } else if i < line.len() + sep.len() {
            assert(s[i] == sep[i - line.len()]);
        } else if i < line.len() + sep.len() + marker.len() {
            assert(s[i] == marker[i - line.len() - sep.len()]);
        } else {
            assert(s[i] == comment[i - line.len() - sep.len() - marker.len()]);
        }
    }
    crate::text::lemma_text_lines_single(s);
    if s.last() == '\r' {
        assert(comment.len() > 0);
        let c = comment.drop_last();
        assert(strip_cr(s) =~= line + sep + marker + c);
        lemma_inline_comment(line, sep, marker, c);
    } else {
        lemma_inline_comment(line, sep, marker, comment);
    }
    assert(text_lines(s).map_values(|l: Seq<char>| without_comment(l)) =~= seq![trim(line)]);
    if line.len() == 0 {
        assert(text_lines(line) =~= Seq::<Seq<char>>::empty());
        assert(trim(line) =~= Seq::<char>::empty());
        assert(text_lines(line).map_values(|l: Seq<char>| without_comment(l)) =~= Seq::<Seq<char>>::empty());
    } else {
        crate::text::lemma_text_lines_single(line);
        let x = strip_cr(line);
        if line.last() == '\r' {
            assert(x =~= line.take(line.len() - 1));
            lemma_find_none_prefix(line, "//"@, line.len() - 1);
            lemma_find_none_prefix(line, "#"@, line.len() - 1);
            assert(line =~= x + seq!['\r']);
            crate::text::lemma_trim_append_ws(x, seq!['\r']);
        }
        lemma_no_comment(x);
        assert(text_lines(line).map_values(|l: Seq<char>| without_comment(l)) =~= seq![trim(line)]);
    }
}

/// An operation is read as what its text names. Text that names none is
/// refused with its range, which reaches one byte further when the text is
/// not ASCII.
pub proof fn law_operation_read(s: Seq<char>, r: (int, int))
    ensures
        operation_from(s) matches Some(op) ==> operation_spec(s, r) == Ok::<Operation, ParseErrorV>(op),
        operation_from(s) is None && ascii(s) ==> operation_spec(s, r) == Err::<Operation, ParseErrorV>(
            ParseErrorV::UnknownOperation(r, s),
        ),
        operation_from(s) is None && !ascii(s) ==> operation_spec(s, r) == Err::<Operation, ParseErrorV>(
            ParseErrorV::UnknownOperation((r.0, r.1 + 1), s),
        ),
{
}

/// The parts of a line lie one after the other with one byte between them:
/// the first starts at 0, each one ends where its bytes end, and the next
/// starts two bytes after the end of one.
pub proof fn law_part_ranges(p: Seq<Seq<char>>, i: int)
    requires
        0 <= i < p.len(),
    ensures
        part_range_spec(p, 0).0 == 0,
        part_range_spec(p, i).1 == part_range_spec(p, i).0 + crate::text::utf8_len(p[i]) - 1,
        i + 1 < p.len() ==> part_range_spec(p, i + 1).0 == part_range_spec(p, i).1 + 2,
{
    assert(p.take(0) =~= Seq::<Seq<char>>::empty());
    if i + 1 < p.len() {
        assert(p.take(i + 1).drop_last() =~= p.take(i));
    }
}

/// Each comparison means what its sign says, for all values: `<`, `<=`,
/// `==`, `!=`, `>=` and `>` on the two integers.
pub proof fn law_comparison_meaning(x: i32, y: i32)
    ensures
        compares(Comparison::Lt, x, y) <==> x < y,
        compares(Comparison::Le, x, y) <==> x <= y,
        compares(Comparison::Eq, x, y) <==> x == y,
        compares(Comparison::Neq, x, y) <==> x != y,
        compares(Comparison::Ge, x, y) <==> x >= y,
        compares(Comparison::Gt, x, y) <==> x > y,
{
}

/// Addition, subtraction and multiplication give the exact result when it
/// fits in an `i32`, and fail with an overflow that names the operation
/// when it does not.
pub proof fn law_checked_arithmetic(x: i32, y: i32)
    ensures
        calc_spec(Operation::Add, x, y) is Ok <==> i32::MIN <= x + y <= i32::MAX,
        calc_spec(Operation::Add, x, y) matches Ok(v) ==> v == x + y,
        calc_spec(Operation::Add, x, y) is Err ==> calc_spec(Operation::Add, x, y) == Err::<i32, CalcErrorV>(
            CalcErrorV::AttemptToOverflow("add"@, "Addition"@),
        ),
        calc_spec(Operation::Sub, x, y) is Ok <==> i32::MIN <= x - y <= i32::MAX,
        calc_spec(Operation::Sub, x, y) matches Ok(v) ==> v == x - y,
        calc_spec(Operation::Sub, x, y) is Err ==> calc_spec(Operation::Sub, x, y) == Err::<i32, CalcErrorV>(
            CalcErrorV::AttemptToOverflow("subtract"@, "Subtraction"@),
        ),
        calc_spec(Operation::Mul, x, y) is Ok <==> i32::MIN <= x * y <= i32::MAX,
        calc_spec(Operation::Mul, x, y) matches Ok(v) ==> v == x * y,
        calc_spec(Operation::Mul, x, y) is Err ==> calc_spec(Operation::Mul, x, y) == Err::<i32, CalcErrorV>(
            CalcErrorV::AttemptToOverflow("multiply"@, "Multiplication"@),
        ),
{
}

/// For `a >= 0` and `b > 0`, `a / b` is the largest `q` with `q * b <= a`,
/// and it is no larger than `a`, nor than half of `a` when `b >= 2`.
proof fn lemma_quotient_bounds(a: int, b: int)
    requires
        a >= 0,
        b > 0,
    ensures
        0 <= a / b,
        (a / b) * b <= a < (a / b) * b + b,
        a / b <= a,
        b >= 2 ==> 2 * (a / b) <= a,
{
    lemma_fundamental_div_mod(a, b);
    lemma_mod_pos_bound(a, b);
    lemma_div_pos_is_pos(a, b);
    let q = a / b;
    assert(q * b == b * q) by (nonlinear_arith);
    assert(q <= q * b) by (nonlinear_arith)
        requires
            q >= 0,
            b >= 1,
    ;
    assert(b >= 2 ==> 2 * q <= q * b) by (nonlinear_arith)
        requires
            q >= 0,
    ;
}

/// Division gives the quotient rounded towards zero: what is left of `x`
/// once the quotient times `y` is taken away is smaller than `y` in size
/// and has the sign of `x` (or is zero). A division by zero fails as such;
/// the one quotient that does not fit, that of `i32::MIN` by `-1`, fails
/// as an overflow.
pub proof fn law_division(x: i32, y: i32)
    ensures
        y == 0 ==> calc_spec(Operation::Div, x, y) == Err::<i32, CalcErrorV>(CalcErrorV::AttemptToDivideByZero),
        x == i32::MIN && y == -1 ==> calc_spec(Operation::Div, x, y) == Err::<i32, CalcErrorV>(
            CalcErrorV::AttemptToOverflow("divide"@, "Division"@),
        ),
        y != 0 && !(x == i32::MIN && y == -1) ==> calc_spec(Operation::Div, x, y) is Ok,
        calc_spec(Operation::Div, x, y) matches Ok(q) ==> {
            let r = x - q * y;
            let size: int = if y < 0 { -y } else { y as int };
            &&& x >= 0 ==> 0 <= r < size
            &&& x < 0 ==> -size < r <= 0
        },
{
    if y != 0 {
        let a: int = if x < 0 { -x } else { x as int };
        let b: int = if y < 0 { -y } else { y as int };
        lemma_quotient_bounds(a, b);
        let t = a / b;
        let q = crate::base::trunc_div(x as int, y as int);
        assert(q == t || q == -t);
        assert(x >= 0 && y > 0 ==> q == t);
        assert(x < 0 && y < 0 ==> q == t);
        assert(x < 0 && y > 0 ==> q == -t);
        assert(x >= 0 && y < 0 ==> q == -t);
        assert(x >= 0 ==> q * y == t * b) by (nonlinear_arith)
            requires
                x >= 0 ==> (y > 0 ==> q == t) && (y < 0 ==> q == -t),
                y > 0 ==> b == y,
                y < 0 ==> b == -y,
                y != 0,
        ;
        assert(x < 0 ==> q * y == -(t * b)) by (nonlinear_arith)
            requires
                x < 0 ==> (y < 0 ==> q == t) && (y > 0 ==> q == -t),
                y > 0 ==> b == y,
                y < 0 ==> b == -y,
                y != 0,
        ;
        if !(x == i32::MIN && y == -1) {
            assert(i32::MIN <= q <= i32::MAX) by {
                if x == i32::MIN && b >= 2 {
                    assert(2 * t <= a);
                }
            }
        }
    }
}

/// The remainder is Euclidean: it lies between zero and the size of `y`,
/// and `x` is a multiple of `y` plus the remainder. A remainder by zero
/// fails as a division by zero; that of `i32::MIN` by `-1` fails as an
/// overflow.
pub proof fn law_remainder(x: i32, y: i32)
    ensures
        y == 0 ==> calc_spec(Operation::Mod, x, y) == Err::<i32, CalcErrorV>(CalcErrorV::AttemptToDivideByZero),
        x == i32::MIN && y == -1 ==> calc_spec(Operation::Mod, x, y) == Err::<i32, CalcErrorV>(
            CalcErrorV::AttemptToOverflow("mod"@, "Modulo"@),
        ),
        y != 0 && !(x == i32::MIN && y == -1) ==> calc_spec(Operation::Mod, x, y) is Ok,
        calc_spec(Operation::Mod, x, y) matches Ok(r) ==> {
            let size: int = if y < 0 { -y } else { y as int };
            &&& 0 <= r < size
            &&& (x - r) % size == 0
        },
{
    if y != 0 {
        let xi = x as int;
        let yi = y as int;
        let b: int = if y < 0 { -yi } else { yi };
        lemma_fundamental_div_mod(xi, yi);
        let q = xi / yi;
        let r = xi % yi;
        if y > 0 {
            lemma_mod_bound(xi, yi);
            assert(xi - r == q * b) by (nonlinear_arith)
                requires
                    xi == yi * q + r,
                    b == yi,
            ;
            lemma_mod_multiples_basic(q, b);
        } else {
            assert(0 <= r < b);
            assert(xi - r == (-q) * b) by (nonlinear_arith)
                requires
                    xi == yi * q + r,
                    b == -yi,
            ;
            lemma_mod_multiples_basic(-q, b);
        }
    }
}

/// `return` changes no memory and keeps the labels. With a call pending it
/// continues where the last call was made, which is then no longer
/// pending; with none it jumps to the label `END`.
pub proof fn law_return(m: MemoryView, cf: ControlFlowView, s: RuntimeSettings)
    requires
        cf.labels.contains_key("END"@),
    ensures
        step_spec(InstructionV::Return, m, cf, s).0 is Ok,
        step_spec(InstructionV::Return, m, cf, s).1 == m,
        step_spec(InstructionV::Return, m, cf, s).2.labels == cf.labels,
        cf.call_stack.len() == 0 ==> step_spec(InstructionV::Return, m, cf, s).2.next == cf.labels["END"@]
            && step_spec(InstructionV::Return, m, cf, s).2.call_stack.len() == 0,
        cf.call_stack.len() > 0 ==> step_spec(InstructionV::Return, m, cf, s).2.next == cf.call_stack.last()
            && step_spec(InstructionV::Return, m, cf, s).2.call_stack == cf.call_stack.drop_last(),
{
}

/// In a runtime whose label `END` marks the index past its last
/// instruction, as in every built one, a `return` with no call pending
/// ends the program: after that step no instruction is left, the memory
/// is unchanged, and unless a limit stops that step the run ends there
/// without error.
pub proof fn law_top_level_return_ends_run(r: RuntimeView)
    requires
        r.control_flow.next < r.instructions.len(),
        r.instructions[r.control_flow.next as int] == InstructionV::Return,
        r.control_flow.call_stack.len() == 0,
        r.control_flow.labels.contains_key("END"@),
        r.control_flow.labels["END"@] == r.instructions.len(),
    ensures
        runtime_step(r).1.control_flow.next == r.instructions.len(),
        runtime_step(r).1.memory == r.memory,
        runtime_step(r).0 is Ok ==> run_spec(r) == (Ok::<bool, (RuntimeErrorV, usize)>(true), runtime_step(r).1),
{
    let out = runtime_step(r);
    if out.0 is Ok {
        assert(run_spec(out.1) == (Ok::<bool, (RuntimeErrorV, usize)>(true), out.1));
    }
}

/// Ids below `n` are accumulators of `with_accumulators(m, n)`, all empty;
/// the others are those of `m`, with their values.
proof fn lemma_with_accumulators(m: Map<usize, Option<i32>>, n: nat)
    ensures
        forall|k: usize| #[trigger] with_accumulators(m, n).contains_key(k) <==> (k < n || m.contains_key(k)),
        forall|k: usize| k < n ==> #[trigger] with_accumulators(m, n)[k] is None,
        forall|k: usize| k >= n && m.contains_key(k) ==> #[trigger] with_accumulators(m, n)[k] == m[k],
    decreases n,
{
    if n > 0 {
        lemma_with_accumulators(m, (n - 1) as nat);
    }
}

/// Setting the number of accumulators on the command line to `n` gives the
/// layout the accumulators with the ids `0` to `n - 1`, all of them empty,
/// besides those it had; the others keep their values, and nothing else in
/// the layout changes.
pub proof fn law_global_accumulators(c: ConfigView, g: GlobalArgs)
    requires
        g.accumulators is Some,
    ensures
        forall|k: usize| #[trigger] global_layout(c, g).accumulators.contains_key(k) <==> (k < g.accumulators->0 || c.accumulators.contains_key(k)),
        forall|k: usize| k < g.accumulators->0 ==> #[trigger] global_layout(c, g).accumulators[k] is None,
        forall|k: usize| k >= g.accumulators->0 && c.accumulators.contains_key(k) ==> #[trigger] global_layout(c, g).accumulators[k] == c.accumulators[k],
        g.memory_cells is None && g.index_memory_cells is None ==> global_layout(c, g) == (ConfigView {
            accumulators: global_layout(c, g).accumulators,
            ..c
        }),
{
    lemma_with_accumulators(c.accumulators, g.accumulators->0 as nat);
}

} // verus!
