//! The decisions of the interactive interface: running to a breakpoint,
//! running an instruction that the user enters, what a key does, which
//! keybinding hints are shown, and how the program's lines are laid out.
use vstd::prelude::*;

use crate::instructions::error_handling::{BuildProgramError, InstructionParseError};
use crate::instructions::instruction_config::InstructionConfig;
use crate::instructions::notation::instruction_text;
use crate::instructions::parsing::{cleaned, line_spec, readable};
use crate::instructions::semantics::step_spec;
use crate::instructions::Instruction;
use crate::runtime::builder::{check_instructions, first_violation};
use crate::runtime::error_handling::RuntimeError;
use crate::runtime::{runtime_agrees, runtime_step, Runtime, RuntimeView};
use crate::text::{string_views, to_chars, tokens};
use crate::utils::same_chars;
use crate::ui::{input_parts, input_parts_spec, InputParts, InputPartsView, KeybindingHint, KeybindingHintView};
use crate::text::{chars_to_string, is_whitespace, push_str, trim_end_at};

verus! {

/// No instruction is left to run.
pub open spec fn finished_view(r: RuntimeView) -> bool {
    r.control_flow.next >= r.instructions.len()
}

/// Running the runtime `r` until the instruction that runs next has a
/// breakpoint in `breakpoints`: at least one step is taken; the run stops
/// at an error, when no instruction is left (`true`), or at a breakpoint
/// (`false`).
pub open spec fn to_breakpoint_spec(r: RuntimeView, breakpoints: Seq<bool>) -> (
    Result<bool, (crate::runtime::error_handling::RuntimeErrorV, usize)>,
    RuntimeView,
)
    decreases usize::MAX - r.instruction_runs,
{
    let out = runtime_step(r);
    match out.0 {
        Err(e) => (Err(e), out.1),
        Ok(_) => if finished_view(out.1) {
            (Ok(true), out.1)
        } else if out.1.control_flow.next < breakpoints.len() && breakpoints[out.1.control_flow.next as int] {
            (Ok(false), out.1)
        } else if out.1.instruction_runs > r.instruction_runs {
            to_breakpoint_spec(out.1, breakpoints)
        } else {
            (Ok(false), out.1)
        },
    }
}

/// Runs `rt` until the instruction that runs next has a breakpoint, no
/// instruction is left, or an instruction fails. At least one instruction
/// runs. `Ok(true)` means that the program has finished.
pub fn run_to_breakpoint(rt: &mut Runtime, breakpoints: &Vec<bool>) -> (res: Result<bool, RuntimeError>)
    requires
        old(rt)@.control_flow.next < usize::MAX,
    ensures
        runtime_agrees(res, to_breakpoint_spec(old(rt)@, breakpoints@).0),
        final(rt)@ == to_breakpoint_spec(old(rt)@, breakpoints@).1,
{
    loop
        invariant
            rt@.control_flow.next < usize::MAX,
            to_breakpoint_spec(rt@, breakpoints@) == to_breakpoint_spec(old(rt)@, breakpoints@),
        decreases usize::MAX - rt@.instruction_runs,
    {
        let runs = rt.instruction_runs();
        let ghost before = rt@;
        match rt.step() {
            Err(e) => return Err(e),
            Ok(_) => {},
        }
        if rt.finished() {
            return Ok(true);
        }
        let next = rt.next_instruction_index();
        if next < breakpoints.len() && breakpoints[next] {
            return Ok(false);
        }
        if rt.instruction_runs() <= runs {
            return Ok(false);
        }
        let count = rt.instructions().len();
        proof {
            assert(rt@.instructions.len() == count);
        }
    }
}

/// Why an instruction that the user entered did not run.
#[derive(Debug, PartialEq)]
pub enum CustomInstructionError {
    /// The instruction could not be read.
    Parse(InstructionParseError),
    /// The instruction is not allowed.
    NotAllowed(BuildProgramError),
    /// The instruction failed.
    Runtime(RuntimeError),
}

/// Whether `t` is among the lines of `v`.
fn contains_line(v: &Vec<String>, t: &str) -> (res: bool)
    ensures
        res == string_views(v@).contains(t@),
{
    let tc = to_chars(t);
    let mut i: usize = 0;
    while i < v.len()
        invariant
            i <= v.len(),
            tc@ == t@,
            forall|k: int| 0 <= k < i ==> string_views(v@)[k] != t@,
        decreases v.len() - i,
    {
        let vc = to_chars(v[i].as_str());
        if same_chars(vc.as_slice(), tc.as_slice()) {
            assert(string_views(v@)[i as int] == t@);
            return true;
        }
        i = i + 1;
    }
    proof {
        if string_views(v@).contains(t@) {
            let k = choose|k: int| 0 <= k < string_views(v@).len() && string_views(v@)[k] == t@;
            assert(string_views(v@)[k] != t@);
        }
    }
    false
}

/// The instruction that the text `text` entered by the user spells
/// ([`line_spec`]).
#[verifier::opaque]
pub open spec fn entered_spec(text: Seq<char>) -> Result<crate::instructions::InstructionV, crate::instructions::error_handling::ParseErrorV> {
    line_spec(text)
}

/// The first limit of `c` that the instruction `i`, alone on its line,
/// breaks ([`first_violation`]).
#[verifier::opaque]
pub open spec fn entry_violation(
    i: crate::instructions::InstructionV,
    c: crate::instructions::instruction_config::InstructionConfigView,
) -> Option<crate::instructions::error_handling::ProgramErrorV> {
    first_violation(seq![i], c, 0)
}

fn parse_entered(text: &str) -> (res: Result<Instruction, InstructionParseError>)
    requires
        readable(cleaned(tokens(text@))),
    ensures
        crate::instructions::parsing::parsed_to(res, entered_spec(text@)),
{
    reveal(entered_spec);
    Instruction::try_from(text)
}

fn check_entered(instruction: Instruction, c: &InstructionConfig) -> (res: (Instruction, Result<(), BuildProgramError>))
    ensures
        res.0@ == instruction@,
        match entry_violation(instruction@, c@) {
            Some(e) => res.1 matches Err(x) && x@ == e,
            None => res.1 is Ok,
        },
{
    reveal(entry_violation);
    let ghost iv = instruction@;
    let mut single: Vec<Instruction> = Vec::new();
    single.push(instruction);
    assert(crate::runtime::program_view(single@) =~= seq![iv]);
    let r = check_instructions(&single, c);
    let instruction = single.pop().unwrap();
    (instruction, r)
}

/// What running the instruction `i` entered as `text` does to the runtime
/// `r` and the history `h`.
#[verifier::opaque]
pub open spec fn custom_run_spec(i: crate::instructions::InstructionV, text: Seq<char>, r: RuntimeView, h: Seq<Seq<char>>) -> (
    Result<(), (crate::runtime::error_handling::RuntimeErrorV, usize)>,
    RuntimeView,
    Seq<Seq<char>>,
) {
    let out = step_spec(i, r.memory, r.control_flow, r.settings);
    let after = RuntimeView { memory: out.1, control_flow: out.2, ..r };
    match out.0 {
        Err(e) => (Err((e, out.2.next)), after, h),
        Ok(_) => (Ok(()), after, if h.contains(text) { h } else { h.push(text) }),
    }
}

fn run_and_record(rt: &mut Runtime, history: &mut Vec<String>, text: &str, instruction: Instruction) -> (res: Result<Option<String>, CustomInstructionError>)
    ensures
        ({
            let out = custom_run_spec(instruction@, text@, old(rt)@, string_views(old(history)@));
            &&& final(rt)@ == out.1
            &&& string_views(final(history)@) == out.2
            &&& match out.0 {
                Err(e) => res matches Err(CustomInstructionError::Runtime(r)) && r.reason@ == e.0 && r.line_number == e.1,
                Ok(_) => res matches Ok(Some(s)) && s@ == instruction_text(instruction@),
            }
        }),
{
    reveal(custom_run_spec);
    let shown = instruction.to_string();
    match rt.run_foreign_instruction(instruction) {
        Err(e) => return Err(CustomInstructionError::Runtime(e)),
        Ok(()) => {},
    }
    if !contains_line(history, text) {
        let entry = text.to_string();
        let ghost before = history@;
        history.push(entry);
        assert(string_views(history@) =~= string_views(before).push(text@));
    }
    Ok(Some(shown))
}

/// Reads the instruction `text` that the user entered, checks it against
/// the limits `config`, if any, and runs it on `rt` at the current
/// position. Empty text does nothing. The runtime changes as running the
/// instruction changes it, also when that fails; the history gains `text`
/// when the instruction has run and `text` was not in it yet. An
/// instruction that runs is given back as it is written.
#[verifier::spinoff_prover]
pub fn run_custom_instruction(
    rt: &mut Runtime,
    history: &mut Vec<String>,
    text: &str,
    config: &Option<InstructionConfig>,
) -> (res: Result<Option<String>, CustomInstructionError>)
    requires
        text@.len() == 0 || readable(cleaned(tokens(text@))),
    ensures
        text@.len() == 0 ==> res == Ok::<Option<String>, CustomInstructionError>(None) && final(rt)@ == old(rt)@
            && final(history)@ == old(history)@,
        text@.len() > 0 ==> match entered_spec(text@) {
            Err(e) => res matches Err(CustomInstructionError::Parse(x)) && x@ == e && final(rt)@ == old(rt)@
                && final(history)@ == old(history)@,
            Ok(i) => match config {
                Some(c) if entry_violation(i, c@) is Some => res matches Err(
                    CustomInstructionError::NotAllowed(x),
                ) && x@ == entry_violation(i, c@)->0 && final(rt)@ == old(rt)@ && final(history)@
                    == old(history)@,
                _ => {
                    let out = custom_run_spec(i, text@, old(rt)@, string_views(old(history)@));
                    &&& final(rt)@ == out.1
                    &&& string_views(final(history)@) == out.2
                    &&& match out.0 {
                        Err(e) => res matches Err(CustomInstructionError::Runtime(r)) && r.reason@ == e.0
                            && r.line_number == e.1,
                        Ok(_) => res matches Ok(Some(s)) && s@ == instruction_text(i),
                    }
                },
            },
        },
{
    if to_chars(text).len() == 0 {
        return Ok(None);
    }
    let instruction = match parse_entered(text) {
        Err(e) => return Err(CustomInstructionError::Parse(e)),
        Ok(i) => i,
    };
    let instruction = match config {
        Some(c) => {
            let (instruction, r) = check_entered(instruction, c);
            match r {
                Err(e) => return Err(CustomInstructionError::NotAllowed(e)),
                Ok(()) => {},
            }
            instruction
        },
        None => instruction,
    };
    run_and_record(rt, history, text, instruction)
}

/// The spaces between the columns of labels, instructions and comments.
pub const SPACING: u128 = 2;

/// `n` spaces.
pub open spec fn spaces(n: nat) -> Seq<char> {
    Seq::new(n, |i: int| ' ')
}

/// `s` without the white space at its end (`str::trim_end`).
pub open spec fn trim_end(s: Seq<char>) -> Seq<char> {
    s.take(trim_end_at(s, s.len() as int))
}

/// The parts of each line.
pub open spec fn line_parts(lines: Seq<Seq<char>>) -> Seq<Option<InputPartsView>> {
    lines.map_values(|l: Seq<char>| input_parts_spec(l))
}

/// The widest label of the parts `ps`, with its colon; 0 without labels.
pub open spec fn label_width(ps: Seq<Option<InputPartsView>>) -> nat
    decreases ps.len(),
{
    if ps.len() == 0 {
        0
    } else {
        let w: nat = match ps.last() {
            Some(p) => match p.label {
                Some(l) => l.len() + 1,
                None => 0,
            },
            None => 0,
        };
        let rest = label_width(ps.drop_last());
        if w > rest { w } else { rest }
    }
}

/// The widest instruction of the parts `ps`; 0 without instructions.
pub open spec fn instruction_width(ps: Seq<Option<InputPartsView>>) -> nat
    decreases ps.len(),
{
    if ps.len() == 0 {
        0
    } else {
        let w: nat = match ps.last() {
            Some(p) => match p.instruction {
                Some(i) => i.len(),
                None => 0,
            },
            None => 0,
        };
        let rest = instruction_width(ps.drop_last());
        if w > rest { w } else { rest }
    }
}

/// How a line with the parts `p` is shown when labels take `lw` columns
/// and instructions `iw`: in columns if `align`, else with one space
/// between the parts; white space at the end is dropped.
pub open spec fn display_line(p: Option<InputPartsView>, lw: nat, iw: nat, align: bool) -> Seq<char> {
    match p {
        None => Seq::empty(),
        Some(p) => if p.label is None && p.instruction is None {
            match p.comment {
                Some(c) => c,
                None => Seq::empty(),
            }
        } else {
            let a = match p.label {
                Some(l) => l + seq![':'] + spaces(if align { (lw - l.len() - 1 + SPACING) as nat } else { 1 }),
                None => if align && lw > 0 { spaces((lw + SPACING) as nat) } else { Seq::empty() },
            };
            let b = match p.instruction {
                Some(i) => i + if p.comment is Some {
                    spaces(if align { (iw - i.len() + SPACING) as nat } else { 1 })
                } else {
                    Seq::empty()
                },
                None => if p.comment is Some && align { spaces((iw + SPACING) as nat) } else { Seq::empty() },
            };
            let c = match p.comment {
                Some(c) => c,
                None => Seq::empty(),
            };
            trim_end(a + b + c)
        },
    }
}

fn push_spaces(out: &mut Vec<char>, n: u128)
    ensures
        final(out)@ == old(out)@ + spaces(n as nat),
{
    let mut k: u128 = 0;
    while k < n
        invariant
            k <= n,
            out@ == old(out)@ + spaces(k as nat),
        decreases n - k,
    {
        out.push(' ');
        assert(out@ =~= old(out)@ + spaces((k + 1) as nat));
        k = k + 1;
    }
}

fn trim_end_chars(s: &Vec<char>) -> (res: Vec<char>)
    ensures
        res@ == trim_end(s@),
{
    let mut e: usize = s.len();
    while e > 0 && is_whitespace(s[e - 1])
        invariant
            e <= s.len(),
            trim_end_at(s@, s@.len() as int) == trim_end_at(s@, e as int),
        decreases e,
    {
        e = e - 1;
    }
    let mut res: Vec<char> = Vec::new();
    crate::text::push_range(&mut res, s.as_slice(), 0, e);
    assert(res@ =~= trim_end(s@));
    res
}

fn char_count(s: &String) -> (n: usize)
    ensures
        n == s@.len(),
{
    to_chars(s.as_str()).len()
}

fn show_line(p: &Option<InputParts>, lw: u128, iw: u128, align: bool) -> (res: String)
    requires
        align ==> match p {
            Some(q) => (q.label matches Some(l) ==> l@.len() + 1 <= lw) && (q.instruction matches Some(i) ==> i@.len() <= iw),
            None => true,
        },
        !align ==> lw == 0 && iw == 0,
        lw <= usize::MAX + 1,
        iw <= usize::MAX,
    ensures
        res@ == display_line(
            match p {
                Some(q) => Some(q@),
                None => None,
            },
            lw as nat,
            iw as nat,
            align,
        ),
{
    let q = match p {
        None => return String::new(),
        Some(q) => q,
    };
    if q.label.is_none() && q.instruction.is_none() {
        return match &q.comment {
            Some(c) => c.clone(),
            None => String::new(),
        };
    }
    let mut out: Vec<char> = Vec::new();
    match &q.label {
        Some(l) => {
            push_str(&mut out, l.as_str());
            out.push(':');
            let n = char_count(l) as u128;
            assert(align ==> n + 1 <= lw);
            push_spaces(&mut out, if align { lw - n - 1 + SPACING } else { 1 });
        },
        None => {
            if align && lw > 0 {
                push_spaces(&mut out, lw + SPACING);
            }
        },
    }
    let ghost a = out@;
    match &q.instruction {
        Some(i) => {
            push_str(&mut out, i.as_str());
            if q.comment.is_some() {
                let n = char_count(i) as u128;
                assert(align ==> n <= iw);
                push_spaces(&mut out, if align { iw - n + SPACING } else { 1 });
            }
        },
        None => {
            if q.comment.is_some() && align {
                push_spaces(&mut out, iw + SPACING);
            }
        },
    }
    let ghost ab = out@;
    match &q.comment {
        Some(c) => push_str(&mut out, c.as_str()),
        None => {},
    }
    let t = trim_end_chars(&out);
    proof {
        let qv = q@;
        let ga = match qv.label {
            Some(l) => l + seq![':'] + spaces(if align { (lw - l.len() - 1 + SPACING) as nat } else { 1 }),
            None => if align && lw > 0 { spaces((lw + SPACING) as nat) } else { Seq::empty() },
        };
        assert(a =~= ga);
        let gb = match qv.instruction {
            Some(i) => i + if qv.comment is Some {
                spaces(if align { (iw - i.len() + SPACING) as nat } else { 1 })
            } else {
                Seq::empty()
            },
            None => if qv.comment is Some && align { spaces((iw + SPACING) as nat) } else { Seq::empty() },
        };
        assert(ab =~= ga + gb);
        let cc = match qv.comment {
            Some(c) => c,
            None => Seq::<char>::empty(),
        };
        assert(out@ =~= ga + gb + cc);
        assert(t@ == trim_end(ga + gb + cc));
    }
    chars_to_string(t.as_slice())
}

/// The lines of a program as they are shown: the label, the instruction
/// and the comment of each line, in columns if `align` is set, where a
/// label is padded to the widest label and an instruction to the widest
/// instruction, each with two more spaces.
pub fn display_lines(input: &Vec<String>, align: bool) -> (res: Vec<String>)
    ensures
        res.len() == input.len(),
        forall|k: int|
            0 <= k < input.len() ==> (#[trigger] res@[k])@ == display_line(
                input_parts_spec(input@[k]@),
                if align { label_width(line_parts(string_views(input@))) } else { 0 },
                if align { instruction_width(line_parts(string_views(input@))) } else { 0 },
                align,
            ),
{
    let ghost ps = line_parts(string_views(input@));
    let mut parts: Vec<Option<InputParts>> = Vec::new();
    let mut lw: u128 = 0;
    let mut iw: u128 = 0;
    let mut i: usize = 0;
    while i < input.len()
        invariant
            i <= input.len(),
            parts.len() == i,
            ps == line_parts(string_views(input@)),
            forall|k: int| 0 <= k < i ==> match #[trigger] parts@[k] {
                Some(q) => ps[k] == Some(q@),
                None => ps[k] is None,
            },
            lw == label_width(ps.take(i as int)),
            iw == instruction_width(ps.take(i as int)),
            lw <= usize::MAX + 1,
            iw <= usize::MAX,
        decreases input.len() - i,
    {
        let p = input_parts(input[i].clone());
        assert(ps[i as int] == input_parts_spec(input@[i as int]@));
        let (wl, wi): (u128, u128) = match &p {
            Some(q) => (
                match &q.label {
                    Some(l) => char_count(l) as u128 + 1,
                    None => 0,
                },
                match &q.instruction {
                    Some(x) => char_count(x) as u128,
                    None => 0,
                },
            ),
            None => (0, 0),
        };
        assert(ps.take(i + 1).drop_last() =~= ps.take(i as int));
        if wl > lw {
            lw = wl;
        }
        if wi > iw {
            iw = wi;
        }
        parts.push(p);
        i = i + 1;
    }
    assert(ps.take(input.len() as int) =~= ps);
    let lw = if align { lw } else { 0 };
    let iw = if align { iw } else { 0 };
    let mut res: Vec<String> = Vec::new();
    let mut j: usize = 0;
    while j < parts.len()
        invariant
            j <= parts.len(),
            parts.len() == input.len(),
            res.len() == j,
            ps == line_parts(string_views(input@)),
            forall|k: int| 0 <= k < parts.len() ==> match #[trigger] parts@[k] {
                Some(q) => ps[k] == Some(q@),
                None => ps[k] is None,
            },
            lw == if align { label_width(ps) } else { 0 },
            iw == if align { instruction_width(ps) } else { 0 },
            lw <= usize::MAX + 1,
            iw <= usize::MAX,
            forall|k: int|
                0 <= k < j ==> (#[trigger] res@[k])@ == display_line(
                    input_parts_spec(input@[k]@),
                    lw as nat,
                    iw as nat,
                    align,
                ),
        decreases parts.len() - j,
    {
        proof {
            assert(ps[j as int] == input_parts_spec(input@[j as int]@));
            if align {
                lemma_widths_bound(ps, j as int);
            }
        }
        let line = show_line(&parts[j], lw, iw, align);
        res.push(line);
        j = j + 1;
    }
    res
}

/// Every label and instruction of `ps` fits the widest.
proof fn lemma_widths_bound(ps: Seq<Option<InputPartsView>>, k: int)
    requires
        0 <= k < ps.len(),
    ensures
        ps[k] matches Some(p) ==> (p.label matches Some(l) ==> l.len() + 1 <= label_width(ps)) && (
        p.instruction matches Some(i) ==> i.len() <= instruction_width(ps)),
    decreases ps.len(),
{
    if k < ps.len() - 1 {
        lemma_widths_bound(ps.drop_last(), k);
    }
}

/// What the interface shows.
#[derive(Debug, Clone, Copy, PartialEq, Eq, Structural)]
pub enum Mode {
    /// The program is loaded and has not started.
    Default,
    /// The program runs.
    Running,
    /// A line is selected for a debug action; `true` if entered while running.
    DebugSelect(bool),
    /// The window for a custom instruction is open; `true` if opened while running.
    CustomInstruction(bool),
    /// A custom instruction could not be read; `true` in the playground.
    CustomInstructionError(bool),
    /// A custom instruction is not allowed.
    BuildProgramError,
    /// The program has finished; `true` while the message is shown.
    Finished(bool),
    /// The program stopped with an error; `true` in the playground.
    RuntimeError(bool),
    /// Instructions are entered one by one, without a program.
    Playground,
}

/// What the window for custom instructions holds, as far as the hints
/// depend on it.
#[derive(Debug, Clone, Copy, PartialEq, Eq, Structural)]
pub struct InputStatus {
    /// No text is entered.
    pub empty: bool,
    /// The selected history item, if any.
    pub selected: Option<usize>,
    /// How many history items are offered.
    pub items: usize,
}

/// The state of the interface that keys change.
pub struct UiState {
    pub mode: Mode,
    /// Whether each line has a breakpoint.
    pub breakpoints: Vec<bool>,
    /// The selected line, if any.
    pub selected: Option<usize>,
    /// The line that was selected before debug select mode began.
    pub saved_selection: Option<usize>,
    pub show_call_stack: bool,
    /// The number of lines of the program.
    pub lines: usize,
    /// The line that runs first.
    pub initial: usize,
    pub input: InputStatus,
}

/// [`UiState`] with its breakpoints as a sequence.
pub struct UiView {
    pub mode: Mode,
    pub breakpoints: Seq<bool>,
    pub selected: Option<usize>,
    pub saved_selection: Option<usize>,
    pub show_call_stack: bool,
    pub lines: usize,
    pub initial: usize,
    pub input: InputStatus,
}

impl View for UiState {
    type V = UiView;

    open spec fn view(&self) -> UiView {
        UiView {
            mode: self.mode,
            breakpoints: self.breakpoints@,
            selected: self.selected,
            saved_selection: self.saved_selection,
            show_call_stack: self.show_call_stack,
            lines: self.lines,
            initial: self.initial,
            input: self.input,
        }
    }
}

/// A key, as the interface tells keys apart.
#[derive(Debug, Clone, Copy, PartialEq, Eq, Structural)]
pub enum Key {
    Char(char),
    Up,
    Down,
    Left,
    Right,
    Enter,
    Esc,
    Tab,
    Backspace,
    Delete,
    Other,
}

/// What the interface has to do after a key.
#[derive(Debug, Clone, Copy, PartialEq, Eq, Structural)]
pub enum Action {
    Nothing,
    /// Close the interface.
    Quit,
    /// Run the next instruction.
    Step,
    /// Run to the next breakpoint or the end.
    RunToBreakpoint,
    /// Start the program over.
    Reset,
    /// Continue at the given line and run it.
    JumpTo(usize),
    /// Read and run the entered instruction.
    RunCustomInstruction,
    /// Edit the entered text with the key.
    Edit,
    /// Forget the error that was shown.
    DismissError,
}

/// Some breakpoint is set.
pub open spec fn any_breakpoint(b: Seq<bool>) -> bool {
    exists|i: int| 0 <= i < b.len() && b[i]
}

/// The line selected after moving the selection one line down (or up).
pub open spec fn moved_selection(s: UiView, down: bool) -> Option<usize> {
    if s.lines == 0 {
        s.selected
    } else {
        let current: usize = match s.selected {
            Some(i) => i,
            None => 0,
        };
        Some(
            if down {
                if current + 1 < s.lines { (current + 1) as usize } else { (s.lines - 1) as usize }
            } else {
                if current > 0 { (current - 1) as usize } else { 0 }
            },
        )
    }
}

/// The mode to return to from a window or debug select mode.
pub open spec fn back_mode(from_running: bool) -> Mode {
    if from_running { Mode::Running } else { Mode::Default }
}

/// What the key `k` does in the state `s`: the next state and the action.
pub open spec fn key_spec(s: UiView, k: Key) -> (UiView, Action) {
    match s.mode {
        Mode::CustomInstruction(from_running) => match k {
            Key::Enter => (s, Action::RunCustomInstruction),
            Key::Esc => (UiView { mode: back_mode(from_running), ..s }, Action::Nothing),
            _ => (s, Action::Edit),
        },
        Mode::Playground => match k {
            Key::Enter => (s, Action::RunCustomInstruction),
            Key::Esc => (s, Action::Quit),
            _ => (s, Action::Edit),
        },
        _ => match k {
            Key::Char('q') | Key::Esc => (s, Action::Quit),
            Key::Up | Key::Char('w') => if s.mode is DebugSelect {
                (UiView { selected: moved_selection(s, false), ..s }, Action::Nothing)
            } else {
                (s, Action::Nothing)
            },
            Key::Down => if s.mode is DebugSelect {
                (UiView { selected: moved_selection(s, true), ..s }, Action::Nothing)
            } else {
                (s, Action::Nothing)
            },
            Key::Char('b') => match (s.mode, s.selected) {
                (Mode::DebugSelect(_), Some(i)) if i < s.breakpoints.len() => (
                    UiView { breakpoints: s.breakpoints.update(i as int, !s.breakpoints[i as int]), ..s },
                    Action::Nothing,
                ),
                _ => (s, Action::Nothing),
            },
            Key::Char('j') => if s.mode is DebugSelect {
                (UiView { mode: Mode::Running, ..s }, Action::JumpTo(
                    match s.selected {
                        Some(i) => i,
                        None => 0,
                    },
                ))
            } else {
                (s, Action::Nothing)
            },
            Key::Char('i') => match s.mode {
                Mode::Running => (UiView { mode: Mode::CustomInstruction(true), ..s }, Action::Nothing),
                Mode::Default => (UiView { mode: Mode::CustomInstruction(false), ..s }, Action::Nothing),
                _ => (s, Action::Nothing),
            },
            Key::Char('t') => match s.mode {
                Mode::Running | Mode::Finished(_) | Mode::RuntimeError(false) | Mode::CustomInstructionError(
                    false,
                ) => (UiView { mode: Mode::Default, selected: None, ..s }, Action::Reset),
                Mode::DebugSelect(_) => (UiView { selected: moved_selection(s, true), ..s }, Action::Nothing),
                _ => (s, Action::Nothing),
            },
            Key::Char('s') => match s.mode {
                Mode::Default => (UiView { mode: Mode::Running, ..s }, Action::Step),
                Mode::DebugSelect(_) => (UiView { selected: moved_selection(s, true), ..s }, Action::Nothing),
                _ => (s, Action::Nothing),
            },
            Key::Char('n') => if s.mode is Running {
                (s, Action::Step)
            } else {
                (s, Action::Nothing)
            },
            Key::Char('r') => match s.mode {
                Mode::Default | Mode::Running => (UiView { mode: Mode::Running, ..s }, Action::RunToBreakpoint),
                _ => (s, Action::Nothing),
            },
            Key::Char('d') => match s.mode {
                Mode::DebugSelect(from_running) => (
                    UiView { mode: back_mode(from_running), selected: s.saved_selection, ..s },
                    Action::Nothing,
                ),
                Mode::Default | Mode::Running => (
                    UiView {
                        mode: Mode::DebugSelect(s.mode is Running),
                        saved_selection: s.selected,
                        selected: if s.selected is None { Some(s.initial) } else { s.selected },
                        ..s
                    },
                    Action::Nothing,
                ),
                Mode::Finished(true) => (UiView { mode: Mode::Finished(false), ..s }, Action::Nothing),
                _ => (s, Action::Nothing),
            },
            Key::Char('c') => match s.mode {
                Mode::Default | Mode::Running | Mode::DebugSelect(_) => (
                    UiView { show_call_stack: !s.show_call_stack, ..s },
                    Action::Nothing,
                ),
                _ => (s, Action::Nothing),
            },
            Key::Enter => match s.mode {
                Mode::CustomInstructionError(true) | Mode::RuntimeError(true) => (
                    UiView { mode: Mode::Playground, ..s },
                    Action::DismissError,
                ),
                Mode::CustomInstructionError(false) | Mode::BuildProgramError => (
                    UiView { mode: Mode::Running, ..s },
                    Action::DismissError,
                ),
                _ => (s, Action::Nothing),
            },
            _ => (s, Action::Nothing),
        },
    }
}

fn move_selection(state: &mut UiState, down: bool)
    ensures
        final(state)@ == (UiView { selected: moved_selection(old(state)@, down), ..old(state)@ }),
{
    if state.lines == 0 {
        return;
    }
    let current = match state.selected {
        Some(i) => i,
        None => 0,
    };
    let next = if down {
        if current < state.lines - 1 { current + 1 } else { state.lines - 1 }
    } else {
        if current > 0 { current - 1 } else { 0 }
    };
    state.selected = Some(next);
}

/// Acts on the key `key`: changes the state as [`key_spec`] says and tells
/// what the interface has to do.
pub fn handle_key(state: &mut UiState, key: Key) -> (action: Action)
    ensures
        final(state)@ == key_spec(old(state)@, key).0,
        action == key_spec(old(state)@, key).1,
{
    match state.mode {
        Mode::CustomInstruction(from_running) => {
            return match key {
                Key::Enter => Action::RunCustomInstruction,
                Key::Esc => {
                    state.mode = if from_running { Mode::Running } else { Mode::Default };
                    Action::Nothing
                },
                _ => Action::Edit,
            };
        },
        Mode::Playground => {
            return match key {
                Key::Enter => Action::RunCustomInstruction,
                Key::Esc => Action::Quit,
                _ => Action::Edit,
            };
        },
        _ => {},
    }
    let debug = match state.mode {
        Mode::DebugSelect(_) => true,
        _ => false,
    };
    match key {
        Key::Char('q') | Key::Esc => Action::Quit,
        Key::Up | Key::Char('w') => {
            if debug {
                move_selection(state, false);
            }
            Action::Nothing
        },
        Key::Down => {
            if debug {
                move_selection(state, true);
            }
            Action::Nothing
        },
        Key::Char('b') => {
            if debug {
                match state.selected {
                    Some(i) => {
                        if i < state.breakpoints.len() {
                            let b = state.breakpoints[i];
                            state.breakpoints.set(i, !b);
                        }
                    },
                    None => {},
                }
            }
            Action::Nothing
        },
        Key::Char('j') => {
            if debug {
                state.mode = Mode::Running;
                Action::JumpTo(
                    match state.selected {
                        Some(i) => i,
                        None => 0,
                    },
                )
            } else {
                Action::Nothing
            }
        },
        Key::Char('i') => {
            match state.mode {
                Mode::Running => state.mode = Mode::CustomInstruction(true),
                Mode::Default => state.mode = Mode::CustomInstruction(false),
                _ => {},
            }
            Action::Nothing
        },
        Key::Char('t') => match state.mode {
            Mode::Running | Mode::Finished(_) | Mode::RuntimeError(false) | Mode::CustomInstructionError(false) => {
                state.mode = Mode::Default;
                state.selected = None;
                Action::Reset
            },
            Mode::DebugSelect(_) => {
                move_selection(state, true);
                Action::Nothing
            },
            _ => Action::Nothing,
        },
        Key::Char('s') => match state.mode {
            Mode::Default => {
                state.mode = Mode::Running;
                Action::Step
            },
            Mode::DebugSelect(_) => {
                move_selection(state, true);
                Action::Nothing
            },
            _ => Action::Nothing,
        },
        Key::Char('n') => match state.mode {
            Mode::Running => Action::Step,
            _ => Action::Nothing,
        },
        Key::Char('r') => match state.mode {
            Mode::Default | Mode::Running => {
                state.mode = Mode::Running;
                Action::RunToBreakpoint
            },
            _ => Action::Nothing,
        },
        Key::Char('d') => match state.mode {
            Mode::DebugSelect(from_running) => {
                state.mode = if from_running { Mode::Running } else { Mode::Default };
                state.selected = state.saved_selection;
                Action::Nothing
            },
            Mode::Default | Mode::Running => {
                let running = match state.mode {
                    Mode::Running => true,
                    _ => false,
                };
                state.saved_selection = state.selected;
                if state.selected.is_none() {
                    state.selected = Some(state.initial);
                }
                state.mode = Mode::DebugSelect(running);
                Action::Nothing
            },
            Mode::Finished(true) => {
                state.mode = Mode::Finished(false);
                Action::Nothing
            },
            _ => Action::Nothing,
        },
        Key::Char('c') => match state.mode {
            Mode::Default | Mode::Running | Mode::DebugSelect(_) => {
                state.show_call_stack = !state.show_call_stack;
                Action::Nothing
            },
            _ => Action::Nothing,
        },
        Key::Enter => match state.mode {
            Mode::CustomInstructionError(true) | Mode::RuntimeError(true) => {
                state.mode = Mode::Playground;
                Action::DismissError
            },
            Mode::CustomInstructionError(false) | Mode::BuildProgramError => {
                state.mode = Mode::Running;
                Action::DismissError
            },
            _ => Action::Nothing,
        },
        _ => Action::Nothing,
    }
}

/// How a step of the program ended.
#[derive(Debug, Clone, Copy, PartialEq, Eq, Structural)]
pub enum StepOutcome {
    /// The instruction failed.
    Failed,
    /// No instruction is left.
    Finished,
    /// The program goes on.
    Continues,
}

/// The line that ran before the line `next`, if any.
pub open spec fn previous_line(next: usize) -> Option<usize> {
    if next > 0 { Some((next - 1) as usize) } else { None }
}

/// The state after a step that ended with `outcome`, where `next` is the
/// line that runs next: an error or the end is shown, else the next line is
/// selected when it is a line of the program, the line that ran otherwise.
pub open spec fn after_step_spec(s: UiView, outcome: StepOutcome, next: usize) -> UiView {
    match outcome {
        StepOutcome::Failed => UiView { mode: Mode::RuntimeError(false), selected: previous_line(next), ..s },
        StepOutcome::Finished => UiView { mode: Mode::Finished(true), selected: previous_line(next), ..s },
        StepOutcome::Continues => UiView {
            selected: if next < s.lines { Some(next) } else { previous_line(next) },
            ..s
        },
    }
}

/// Takes the end of a step into the state (see [`after_step_spec`]).
pub fn after_step(state: &mut UiState, outcome: StepOutcome, next: usize)
    ensures
        final(state)@ == after_step_spec(old(state)@, outcome, next),
{
    let previous = if next > 0 { Some(next - 1) } else { None };
    match outcome {
        StepOutcome::Failed => {
            state.mode = Mode::RuntimeError(false);
            state.selected = previous;
        },
        StepOutcome::Finished => {
            state.mode = Mode::Finished(true);
            state.selected = previous;
        },
        StepOutcome::Continues => {
            state.selected = if next < state.lines { Some(next) } else { previous };
        },
    }
}

/// How running a custom instruction ended.
#[derive(Debug, Clone, Copy, PartialEq, Eq, Structural)]
pub enum CustomOutcome {
    /// Nothing was entered.
    Empty,
    /// The instruction could not be read.
    Unreadable,
    /// The instruction is not allowed.
    NotAllowed,
    /// The instruction failed.
    Failed,
    /// The instruction ran.
    Ran,
}

/// The state after a custom instruction was entered in the state `s`. In
/// the playground an instruction that ran becomes a new line without a
/// breakpoint; elsewhere the window closes.
pub open spec fn after_custom_spec(s: UiView, outcome: CustomOutcome) -> UiView {
    let playground = s.mode is Playground;
    let back = match s.mode {
        Mode::CustomInstruction(from_running) => back_mode(from_running),
        _ => s.mode,
    };
    match outcome {
        CustomOutcome::Empty => s,
        CustomOutcome::Unreadable => UiView { mode: Mode::CustomInstructionError(playground), ..s },
        CustomOutcome::NotAllowed => UiView { mode: Mode::BuildProgramError, ..s },
        CustomOutcome::Failed => UiView { mode: Mode::RuntimeError(playground), ..s },
        CustomOutcome::Ran => if playground {
            UiView { breakpoints: s.breakpoints.push(false), lines: (s.lines + 1) as usize, ..s }
        } else {
            UiView { mode: back, ..s }
        },
    }
}

/// Takes the end of a custom instruction into the state (see
/// [`after_custom_spec`]).
pub fn after_custom(state: &mut UiState, outcome: CustomOutcome)
    requires
        old(state).lines < usize::MAX,
    ensures
        final(state)@ == after_custom_spec(old(state)@, outcome),
{
    let playground = match state.mode {
        Mode::Playground => true,
        _ => false,
    };
    match outcome {
        CustomOutcome::Empty => {},
        CustomOutcome::Unreadable => state.mode = Mode::CustomInstructionError(playground),
        CustomOutcome::NotAllowed => state.mode = Mode::BuildProgramError,
        CustomOutcome::Failed => state.mode = Mode::RuntimeError(playground),
        CustomOutcome::Ran => {
            if playground {
                state.breakpoints.push(false);
                state.lines = state.lines + 1;
            } else {
                match state.mode {
                    Mode::CustomInstruction(from_running) => {
                        state.mode = if from_running { Mode::Running } else { Mode::Default };
                    },
                    _ => {},
                }
            }
        },
    }
}

/// The keys that keybinding hints are for.
#[derive(Debug, Clone, Copy, PartialEq, Eq, Structural)]
pub enum HintKey {
    Quit,
    Start,
    Next,
    Run,
    Debug,
    Reset,
    Breakpoint,
    Jump,
    Up,
    Down,
    Custom,
    CallStack,
    Left,
    Right,
    Enter,
    Escape,
    Tab,
}

/// A hint of one state, neither enabled nor shown.
pub open spec fn one_hint(order: usize, key: Seq<char>, label: Seq<char>) -> KeybindingHintView {
    KeybindingHintView { orders: seq![order], key, labels: seq![label], enabled: false, shown: false, state: 0 }
}

/// A hint of several states, neither enabled nor shown.
pub open spec fn many_hint(orders: Seq<usize>, key: Seq<char>, labels: Seq<Seq<char>>) -> KeybindingHintView {
    KeybindingHintView { orders, key, labels, enabled: false, shown: false, state: 0 }
}

/// The keybinding hints of the interface, each with its key.
pub open spec fn hint_table() -> Seq<(HintKey, KeybindingHintView)> {
    seq![
        (HintKey::Quit, one_hint(0, "q|\u{238b}"@, "Quit"@)),
        (HintKey::Start, one_hint(2, "s"@, "Start"@)),
        (HintKey::Next, one_hint(4, "n"@, "Run next instruction"@)),
        (HintKey::Run, many_hint(seq![2, 2], "r"@, seq!["Run to end"@, "Run to next breakpoint"@])),
        (HintKey::Debug, many_hint(seq![7, 7, 7], "d"@, seq!["Enter debug select mode"@, "Exit debug select mode"@, "Dismiss message"@])),
        (HintKey::Reset, one_hint(1, "t"@, "Reset"@)),
        (HintKey::Breakpoint, one_hint(8, "b"@, "Toggle breakpoint"@)),
        (HintKey::Jump, one_hint(11, "j"@, "Jump to line"@)),
        (HintKey::Up, one_hint(12, "\u{2191}"@, "Up"@)),
        (HintKey::Down, one_hint(13, "\u{2193}"@, "Down"@)),
        (HintKey::Custom, one_hint(9, "i"@, "Run custom instruction"@)),
        (HintKey::CallStack, one_hint(10, "c"@, "Toggle call stack"@)),
        (HintKey::Left, one_hint(10, "\u{2190}"@, "Cursor left"@)),
        (HintKey::Right, one_hint(11, "\u{2192}"@, "Cursor right"@)),
        (HintKey::Enter, many_hint(seq![5, 5, 5], "\u{23ce}"@, seq!["Run entered instruction"@, "Run selected instruction"@, "Close"@])),
        (HintKey::Escape, many_hint(seq![1, 1], "\u{238b}"@, seq!["Cancel"@, "Exit"@])),
        (HintKey::Tab, one_hint(9, "\u{21e5}"@, "Fill in selected"@)),
    ]
}

fn many(orders: Vec<usize>, key: &str, labels: Vec<&str>) -> (res: KeybindingHint)
    requires
        orders.len() == labels.len(),
    ensures
        res@ == many_hint(orders@, key@, crate::text::str_views(labels@)),
{
    KeybindingHint::new_many(orders, key, labels).unwrap()
}

/// The keybinding hints of the interface, each with its key.
pub fn default_hints() -> (res: Vec<(HintKey, KeybindingHint)>)
    ensures
        res.len() == hint_table().len(),
        forall|i: int| 0 <= i < res.len() ==> (#[trigger] res@[i]).0 == hint_table()[i].0 && res@[i].1@ == hint_table()[i].1,
{
    let mut v: Vec<(HintKey, KeybindingHint)> = Vec::new();
    v.push((HintKey::Quit, KeybindingHint::new(0, "q|\u{238b}", "Quit")));
    v.push((HintKey::Start, KeybindingHint::new(2, "s", "Start")));
    v.push((HintKey::Next, KeybindingHint::new(4, "n", "Run next instruction")));
    v.push((HintKey::Run, many(vec![2, 2], "r", vec!["Run to end", "Run to next breakpoint"])));
    v.push((HintKey::Debug, many(vec![7, 7, 7], "d", vec!["Enter debug select mode", "Exit debug select mode", "Dismiss message"])));
    v.push((HintKey::Reset, KeybindingHint::new(1, "t", "Reset")));
    v.push((HintKey::Breakpoint, KeybindingHint::new(8, "b", "Toggle breakpoint")));
    v.push((HintKey::Jump, KeybindingHint::new(11, "j", "Jump to line")));
    v.push((HintKey::Up, KeybindingHint::new(12, "\u{2191}", "Up")));
    v.push((HintKey::Down, KeybindingHint::new(13, "\u{2193}", "Down")));
    v.push((HintKey::Custom, KeybindingHint::new(9, "i", "Run custom instruction")));
    v.push((HintKey::CallStack, KeybindingHint::new(10, "c", "Toggle call stack")));
    v.push((HintKey::Left, KeybindingHint::new(10, "\u{2190}", "Cursor left")));
    v.push((HintKey::Right, KeybindingHint::new(11, "\u{2192}", "Cursor right")));
    v.push((HintKey::Enter, many(vec![5, 5, 5], "\u{23ce}", vec!["Run entered instruction", "Run selected instruction", "Close"])));
    v.push((HintKey::Escape, many(vec![1, 1], "\u{238b}", vec!["Cancel", "Exit"])));
    v.push((HintKey::Tab, KeybindingHint::new(9, "\u{21e5}", "Fill in selected")));
    proof {
        let t = hint_table();
        assert(crate::text::str_views(seq!["Run to end", "Run to next breakpoint"]) =~= t[3].1.labels);
        assert(crate::text::str_views(seq!["Enter debug select mode", "Exit debug select mode", "Dismiss message"]) =~= t[4].1.labels);
        assert(crate::text::str_views(seq!["Run entered instruction", "Run selected instruction", "Close"]) =~= t[14].1.labels);
        assert(crate::text::str_views(seq!["Cancel", "Exit"]) =~= t[15].1.labels);
        assert(t[0].1.orders =~= seq![0usize]);
    }
    v
}

/// Whether the key `k` is among `ks`.
pub open spec fn among(k: HintKey, ks: Seq<HintKey>) -> bool {
    ks.contains(k)
}

/// For the key `k` in the state `s`: whether its hint is shown, whether it
/// is shown as enabled, and its state.
pub open spec fn hint_for(s: UiView, k: HintKey) -> (bool, bool, usize) {
    match s.mode {
        Mode::Default => (
            among(k, seq![HintKey::Quit, HintKey::Start, HintKey::Run, HintKey::Debug, HintKey::Custom, HintKey::CallStack]),
            among(k, seq![HintKey::Quit, HintKey::Start, HintKey::Run, HintKey::Debug, HintKey::Custom, HintKey::CallStack]),
            0,
        ),
        Mode::Running => (
            among(k, seq![HintKey::Quit, HintKey::Next, HintKey::Debug, HintKey::Reset, HintKey::Custom, HintKey::CallStack, HintKey::Run]),
            among(k, seq![HintKey::Quit, HintKey::Next, HintKey::Debug, HintKey::Reset, HintKey::Custom, HintKey::CallStack, HintKey::Run]),
            if k == HintKey::Run && any_breakpoint(s.breakpoints) { 1 } else { 0 },
        ),
        Mode::DebugSelect(_) => (
            among(k, seq![HintKey::Quit, HintKey::Debug, HintKey::CallStack, HintKey::Breakpoint, HintKey::Jump, HintKey::Up, HintKey::Down]),
            among(k, seq![HintKey::Quit, HintKey::Debug, HintKey::CallStack, HintKey::Breakpoint, HintKey::Jump, HintKey::Up, HintKey::Down]),
            if k == HintKey::Debug { 1 } else { 0 },
        ),
        Mode::Finished(message) => (
            k == HintKey::Quit || k == HintKey::Reset || (message && k == HintKey::Debug),
            k == HintKey::Quit || k == HintKey::Reset || (message && k == HintKey::Debug),
            if k == HintKey::Debug { 2 } else { 0 },
        ),
        Mode::RuntimeError(playground) => (
            k == HintKey::Quit || (playground && k == HintKey::Enter) || (!playground && k == HintKey::Reset),
            k == HintKey::Quit || (playground && k == HintKey::Enter) || (!playground && k == HintKey::Reset),
            if playground && k == HintKey::Enter { 2 } else { 0 },
        ),
        Mode::CustomInstructionError(_) | Mode::BuildProgramError => (
            k == HintKey::Quit || k == HintKey::Enter,
            k == HintKey::Quit || k == HintKey::Enter,
            if k == HintKey::Enter { 2 } else { 0 },
        ),
        Mode::CustomInstruction(_) | Mode::Playground => {
            let i = s.input;
            let typed = !i.empty;
            let selected = i.selected is Some;
            let down = i.items > 0 && match i.selected {
                Some(x) => x + 1 < i.items,
                None => true,
            };
            (
                among(k, seq![HintKey::Enter, HintKey::Escape, HintKey::Up, HintKey::Down, HintKey::Left, HintKey::Right, HintKey::Tab]),
                match k {
                    HintKey::Enter => typed || selected,
                    HintKey::Escape => true,
                    HintKey::Up | HintKey::Tab => selected,
                    HintKey::Down => down,
                    HintKey::Left | HintKey::Right => typed,
                    _ => false,
                },
                match k {
                    HintKey::Escape => if s.mode is Playground { 1 } else { 0 },
                    HintKey::Enter => if selected { 1 } else { 0 },
                    _ => 0,
                },
            )
        },
    }
}

fn any_breakpoint_exec(b: &Vec<bool>) -> (res: bool)
    ensures
        res == any_breakpoint(b@),
{
    let mut i: usize = 0;
    while i < b.len()
        invariant
            i <= b.len(),
            forall|k: int| 0 <= k < i ==> !b@[k],
        decreases b.len() - i,
    {
        if b[i] {
            return true;
        }
        i = i + 1;
    }
    false
}

fn hint_for_exec(state: &UiState, k: HintKey) -> (res: (bool, bool, usize))
    ensures
        res == hint_for(state@, k),
{
    let shown_in = |ks: &[HintKey]| -> (r: bool)
        ensures
            r == ks@.contains(k),
        {
            let mut i: usize = 0;
            while i < ks.len()
                invariant
                    i <= ks.len(),
                    forall|j: int| 0 <= j < i ==> ks@[j] != k,
                decreases ks.len() - i,
            {
                if ks[i] == k {
                    assert(ks@[i as int] == k);
                    return true;
                }
                i = i + 1;
            }
            false
        };
    match state.mode {
        Mode::Default => {
            let ks = [HintKey::Quit, HintKey::Start, HintKey::Run, HintKey::Debug, HintKey::Custom, HintKey::CallStack];
            assert(ks@ =~= seq![HintKey::Quit, HintKey::Start, HintKey::Run, HintKey::Debug, HintKey::Custom, HintKey::CallStack]);
            let b = shown_in(&ks);
            (b, b, 0)
        },
        Mode::Running => {
            let ks = [HintKey::Quit, HintKey::Next, HintKey::Debug, HintKey::Reset, HintKey::Custom, HintKey::CallStack, HintKey::Run];
            assert(ks@ =~= seq![HintKey::Quit, HintKey::Next, HintKey::Debug, HintKey::Reset, HintKey::Custom, HintKey::CallStack, HintKey::Run]);
            let b = shown_in(&ks);
            (b, b, if k == HintKey::Run && any_breakpoint_exec(&state.breakpoints) { 1 } else { 0 })
        },
        Mode::DebugSelect(_) => {
            let ks = [HintKey::Quit, HintKey::Debug, HintKey::CallStack, HintKey::Breakpoint, HintKey::Jump, HintKey::Up, HintKey::Down];
            assert(ks@ =~= seq![HintKey::Quit, HintKey::Debug, HintKey::CallStack, HintKey::Breakpoint, HintKey::Jump, HintKey::Up, HintKey::Down]);
            let b = shown_in(&ks);
            (b, b, if k == HintKey::Debug { 1 } else { 0 })
        },
        Mode::Finished(message) => {
            let b = k == HintKey::Quit || k == HintKey::Reset || (message && k == HintKey::Debug);
            (b, b, if k == HintKey::Debug { 2 } else { 0 })
        },
        Mode::RuntimeError(playground) => {
            let b = k == HintKey::Quit || (playground && k == HintKey::Enter) || (!playground && k == HintKey::Reset);
            (b, b, if playground && k == HintKey::Enter { 2 } else { 0 })
        },
        Mode::CustomInstructionError(_) | Mode::BuildProgramError => {
            let b = k == HintKey::Quit || k == HintKey::Enter;
            (b, b, if k == HintKey::Enter { 2 } else { 0 })
        },
        Mode::CustomInstruction(_) | Mode::Playground => {
            let ks = [HintKey::Enter, HintKey::Escape, HintKey::Up, HintKey::Down, HintKey::Left, HintKey::Right, HintKey::Tab];
            assert(ks@ =~= seq![HintKey::Enter, HintKey::Escape, HintKey::Up, HintKey::Down, HintKey::Left, HintKey::Right, HintKey::Tab]);
            let shown = shown_in(&ks);
            let i = state.input;
            let typed = !i.empty;
            let selected = i.selected.is_some();
            let down = i.items > 0 && match i.selected {
                Some(x) => x < i.items - 1,
                None => true,
            };
            let playground = match state.mode {
                Mode::Playground => true,
                _ => false,
            };
            let enabled = match k {
                HintKey::Enter => typed || selected,
                HintKey::Escape => true,
                HintKey::Up | HintKey::Tab => selected,
                HintKey::Down => down,
                HintKey::Left | HintKey::Right => typed,
                _ => false,
            };
            let st = match k {
                HintKey::Escape => if playground { 1 } else { 0 },
                HintKey::Enter => if selected { 1 } else { 0 },
                _ => 0,
            };
            (shown, enabled, st)
        },
    }
}

/// The hint `h` for the key `k` in the state `s`: shown and enabled as
/// [`hint_for`] says, in the state it says where the hint has that state,
/// else in its first state.
pub open spec fn updated_hint(h: KeybindingHintView, s: UiView, k: HintKey) -> KeybindingHintView {
    let (shown, enabled, state) = hint_for(s, k);
    KeybindingHintView {
        shown,
        enabled: shown && enabled,
        state: if state < h.orders.len() { state } else { 0 },
        ..h
    }
}

/// Sets every hint as the state `state` asks (see [`updated_hint`]).
pub fn update_hints(hints: &mut Vec<(HintKey, KeybindingHint)>, state: &UiState)
    ensures
        final(hints).len() == old(hints).len(),
        forall|i: int|
            0 <= i < old(hints).len() ==> (#[trigger] final(hints)@[i]).0 == old(hints)@[i].0 && final(hints)@[i].1@
                == updated_hint(old(hints)@[i].1@, state@, old(hints)@[i].0),
{
    let mut rest: Vec<(HintKey, KeybindingHint)> = Vec::new();
    std::mem::swap(&mut rest, hints);
    let ghost orig = rest@;
    let mut i: usize = 0;
    while rest.len() > 0
        invariant
            i + rest.len() == orig.len(),
            orig.len() <= usize::MAX,
            hints.len() == i,
            forall|j: int| 0 <= j < rest.len() ==> (#[trigger] rest@[j]) == orig[i + j],
            forall|j: int|
                0 <= j < i ==> (#[trigger] hints@[j]).0 == orig[j].0 && hints@[j].1@ == updated_hint(orig[j].1@, state@, orig[j].0),
        decreases rest.len(),
    {
        let (k, mut h) = rest.remove(0);
        let ghost h0 = h@;
        assert(orig[i as int].1@ == h0);
        let (shown, enabled, st) = hint_for_exec(state, k);
        h.clear();
        if shown {
            h.set_shown(true);
            h.set_enabled(enabled);
        }
        if st != 0 {
            let _ = h.set_state(st);
        }
        hints.push((k, h));
        i = i + 1;
    }
}

} // verus!
