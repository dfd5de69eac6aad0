use alpha_tui::base::Comparison;
use alpha_tui::cli::InstructionLimitingArgs;
use alpha_tui::instructions::instruction_config::InstructionConfig;
use alpha_tui::instructions::{Instruction, TargetType, Value};
use alpha_tui::interface::{
    after_custom, after_step, default_hints, display_lines, handle_key, run_custom_instruction, run_to_breakpoint,
    update_hints, Action, CustomInstructionError, CustomOutcome, HintKey, InputStatus, Key, Mode, StepOutcome,
    UiState,
};
use alpha_tui::runtime::builder::RuntimeBuilder;
use alpha_tui::runtime::{ControlFlow, Runtime, RuntimeMemory};

fn lines_of(input: &str) -> Vec<String> {
    input.split('\n').map(|f| f.to_string()).collect()
}

fn runtime_of(program: &str) -> Runtime {
    RuntimeBuilder::from_program(&lines_of(program), "test").unwrap().build().unwrap()
}

fn ui(mode: Mode, lines: usize) -> UiState {
    UiState {
        mode,
        breakpoints: vec![false; lines],
        selected: None,
        saved_selection: None,
        show_call_stack: false,
        lines,
        initial: 0,
        input: InputStatus { empty: true, selected: None, items: 0 },
    }
}

#[test]
fn runs_to_the_next_breakpoint() {
    let mut rt = runtime_of("a := 1\na := 2\na := 3");
    let breakpoints = vec![false, false, true];
    assert_eq!(run_to_breakpoint(&mut rt, &breakpoints), Ok(false));
    assert_eq!(rt.next_instruction_index(), 2);
    assert_eq!(rt.runtime_memory().accumulators.get(0), Some(Some(2)));
    assert_eq!(run_to_breakpoint(&mut rt, &breakpoints), Ok(true));
    assert!(rt.finished());
    assert_eq!(rt.runtime_memory().accumulators.get(0), Some(Some(3)));
}

#[test]
fn run_to_breakpoint_stops_at_an_error() {
    let mut rt = runtime_of("a := 1\na := p(h1)\na := 3");
    let res = run_to_breakpoint(&mut rt, &vec![false, false, false]);
    assert!(res.is_err());
    assert_eq!(res.err().unwrap().line_number, 2);
}

#[test]
fn custom_instruction_runs_and_enters_history() {
    let mut rt = runtime_of("a := 1");
    let mut history = vec!["a := 5".to_string()];
    assert_eq!(run_custom_instruction(&mut rt, &mut history, "", &None), Ok(None));
    assert_eq!(run_custom_instruction(&mut rt, &mut history, "a := 7", &None), Ok(Some("a0 := 7".to_string())));
    assert_eq!(rt.runtime_memory().accumulators.get(0), Some(Some(7)));
    assert_eq!(history, vec!["a := 5".to_string(), "a := 7".to_string()]);
    assert_eq!(run_custom_instruction(&mut rt, &mut history, "a := 5", &None), Ok(Some("a0 := 5".to_string())));
    assert_eq!(history.len(), 2);
}

#[test]
fn custom_instruction_errors_leave_history() {
    let mut rt = runtime_of("a := 1\na1 := 2");
    let mut history: Vec<String> = vec![];
    assert!(matches!(
        run_custom_instruction(&mut rt, &mut history, "a := 5 x 3", &None),
        Err(CustomInstructionError::Parse(_))
    ));
    let config = Some(InstructionConfig {
        allowed_instruction_identifiers: Some(vec!["A := C".to_string()]),
        allowed_comparisons: None,
        allowed_operations: None,
    });
    assert!(matches!(
        run_custom_instruction(&mut rt, &mut history, "push", &config),
        Err(CustomInstructionError::NotAllowed(_))
    ));
    assert!(matches!(
        run_custom_instruction(&mut rt, &mut history, "a := p(zz)", &None),
        Err(CustomInstructionError::Runtime(_))
    ));
    assert!(history.is_empty());
}

#[test]
fn keys_in_debug_select_mode() {
    let mut s = ui(Mode::Running, 3);
    assert_eq!(handle_key(&mut s, Key::Char('d')), Action::Nothing);
    assert_eq!(s.mode, Mode::DebugSelect(true));
    assert_eq!(s.selected, Some(0));
    assert_eq!(handle_key(&mut s, Key::Down), Action::Nothing);
    assert_eq!(handle_key(&mut s, Key::Down), Action::Nothing);
    assert_eq!(handle_key(&mut s, Key::Down), Action::Nothing);
    assert_eq!(s.selected, Some(2));
    assert_eq!(handle_key(&mut s, Key::Char('b')), Action::Nothing);
    assert_eq!(s.breakpoints, vec![false, false, true]);
    assert_eq!(handle_key(&mut s, Key::Up), Action::Nothing);
    assert_eq!(handle_key(&mut s, Key::Char('j')), Action::JumpTo(1));
    assert_eq!(s.mode, Mode::Running);
}

#[test]
fn keys_start_run_reset_and_quit() {
    let mut s = ui(Mode::Default, 2);
    assert_eq!(handle_key(&mut s, Key::Char('n')), Action::Nothing);
    assert_eq!(handle_key(&mut s, Key::Char('s')), Action::Step);
    assert_eq!(s.mode, Mode::Running);
    assert_eq!(handle_key(&mut s, Key::Char('r')), Action::RunToBreakpoint);
    assert_eq!(handle_key(&mut s, Key::Char('c')), Action::Nothing);
    assert!(s.show_call_stack);
    s.mode = Mode::Finished(true);
    assert_eq!(handle_key(&mut s, Key::Char('d')), Action::Nothing);
    assert_eq!(s.mode, Mode::Finished(false));
    s.selected = Some(1);
    assert_eq!(handle_key(&mut s, Key::Char('t')), Action::Reset);
    assert_eq!(s.mode, Mode::Default);
    assert_eq!(s.selected, None);
    assert_eq!(handle_key(&mut s, Key::Char('i')), Action::Nothing);
    assert_eq!(s.mode, Mode::CustomInstruction(false));
    assert_eq!(handle_key(&mut s, Key::Char('q')), Action::Edit);
    assert_eq!(handle_key(&mut s, Key::Enter), Action::RunCustomInstruction);
    assert_eq!(handle_key(&mut s, Key::Esc), Action::Nothing);
    assert_eq!(s.mode, Mode::Default);
    assert_eq!(handle_key(&mut s, Key::Esc), Action::Quit);
    let mut p = ui(Mode::RuntimeError(true), 0);
    assert_eq!(handle_key(&mut p, Key::Enter), Action::DismissError);
    assert_eq!(p.mode, Mode::Playground);
    assert_eq!(handle_key(&mut p, Key::Esc), Action::Quit);
}

#[test]
fn outcomes_change_the_mode() {
    let mut s = ui(Mode::Running, 3);
    after_step(&mut s, StepOutcome::Continues, 1);
    assert_eq!(s.selected, Some(1));
    after_step(&mut s, StepOutcome::Finished, 3);
    assert_eq!(s.mode, Mode::Finished(true));
    assert_eq!(s.selected, Some(2));
    after_step(&mut s, StepOutcome::Failed, 1);
    assert_eq!(s.mode, Mode::RuntimeError(false));
    let mut c = ui(Mode::CustomInstruction(true), 3);
    after_custom(&mut c, CustomOutcome::Ran);
    assert_eq!(c.mode, Mode::Running);
    let mut p = ui(Mode::Playground, 0);
    after_custom(&mut p, CustomOutcome::Ran);
    assert_eq!(p.lines, 1);
    assert_eq!(p.breakpoints, vec![false]);
    after_custom(&mut p, CustomOutcome::Unreadable);
    assert_eq!(p.mode, Mode::CustomInstructionError(true));
}

#[test]
fn hints_follow_the_state() {
    let mut hints = default_hints();
    assert_eq!(hints.len(), 17);
    let mut s = ui(Mode::Running, 2);
    s.breakpoints = vec![false, true];
    update_hints(&mut hints, &s);
    for (k, h) in &hints {
        match k {
            HintKey::Quit | HintKey::Next | HintKey::Debug | HintKey::Reset | HintKey::Custom | HintKey::CallStack => {
                assert!(h.shown() && h.enabled() && h.state() == 0)
            }
            HintKey::Run => {
                assert!(h.shown() && h.enabled());
                assert_eq!(h.label(), "Run to next breakpoint".to_string());
            }
            _ => assert!(!h.shown() && !h.enabled()),
        }
    }
    let mut t = ui(Mode::Playground, 0);
    t.input = InputStatus { empty: false, selected: Some(0), items: 1 };
    update_hints(&mut hints, &t);
    for (k, h) in &hints {
        match k {
            HintKey::Enter => assert_eq!(h.label(), "Run selected instruction".to_string()),
            HintKey::Escape => assert_eq!(h.label(), "Exit".to_string()),
            HintKey::Down => assert!(h.shown() && !h.enabled()),
            HintKey::Up | HintKey::Tab | HintKey::Left => assert!(h.shown() && h.enabled()),
            HintKey::Quit => assert!(!h.shown()),
            _ => (),
        }
    }
}

#[test]
fn lines_are_laid_out_in_columns() {
    let input = lines_of("main: a := 1 // start\nloop:\n  b := 22 # x\n\n// note");
    assert_eq!(
        display_lines(&input, true),
        vec![
            "main:  a := 1   // start".to_string(),
            "loop:".to_string(),
            "       b := 22  # x".to_string(),
            "".to_string(),
            "// note".to_string(),
        ]
    );
    assert_eq!(
        display_lines(&input, false),
        vec![
            "main: a := 1 // start".to_string(),
            "loop:".to_string(),
            "b := 22 # x".to_string(),
            "".to_string(),
            "// note".to_string(),
        ]
    );
}

#[test]
fn reset_starts_at_instruction_zero() {
    let mut rt = runtime_of("a := 1\nmain: a := 2\na := 3");
    assert_eq!(rt.initial_instruction_index(), 1);
    assert_eq!(rt.run(), Ok(true));
    rt.reset();
    assert_eq!(rt.next_instruction_index(), 0);
    assert_eq!(rt.initial_instruction_index(), 1);
    assert_eq!(rt.runtime_memory().accumulators.get(0), Some(None));
    let mut cf = ControlFlow::new();
    cf.next_instruction_index = 4;
    cf.initial_instruction = 2;
    cf.call_stack.push(3);
    cf.reset_soft();
    assert_eq!(cf.next_instruction_index, 0);
    assert_eq!(cf.initial_instruction, 2);
    assert!(cf.call_stack.is_empty());
}

#[test]
fn adding_an_accumulator_replaces_none() {
    let mut ra = RuntimeMemory::new_empty();
    ra.accumulators.insert(1, Some(5));
    ra.add_accumulator();
    assert_eq!(ra.accumulators.len(), 2);
    assert_eq!(ra.accumulators.get(1), Some(Some(5)));
    assert_eq!(ra.accumulators.get(0), Some(None));
    ra.add_accumulator();
    assert_eq!(ra.accumulators.get(2), Some(None));
    let mut rb = RuntimeMemory::new_empty();
    rb.accumulators.insert(2, Some(7));
    rb.add_accumulator();
    assert_eq!(rb.accumulators.len(), 2);
    assert_eq!(rb.accumulators.get(1), Some(None));
    assert_eq!(rb.accumulators.get(0), None);
    assert_eq!(rb.accumulators.get(2), Some(Some(7)));
}

#[test]
fn limiting_comparisons_replace_the_allowed_ones() {
    let program = lines_of("a0 := 1\na1 := 2\nif a0 == a1 then goto end\nend:");
    let mut rb = RuntimeBuilder::from_program(&program, "test").unwrap();
    rb.set_instruction_config(InstructionConfig {
        allowed_instruction_identifiers: None,
        allowed_comparisons: Some(vec![Comparison::Lt]),
        allowed_operations: None,
    });
    let ila = InstructionLimitingArgs {
        allowed_comparisons: Some(vec![Comparison::Eq]),
        allowed_instructions_file: None,
        allowed_operations: None,
        disable_memory_detection: false,
        enable_gamma_accumulator: None,
    };
    rb.apply_instruction_limiting_args(&ila, None);
    assert!(rb.build().is_ok());
    let program = lines_of("a0 := 1\na1 := 2\nif a0 < a1 then goto end\nend:");
    let mut rb = RuntimeBuilder::from_program(&program, "test").unwrap();
    rb.set_instruction_config(InstructionConfig {
        allowed_instruction_identifiers: None,
        allowed_comparisons: Some(vec![Comparison::Lt]),
        allowed_operations: None,
    });
    rb.apply_instruction_limiting_args(&ila, None);
    assert!(rb.build().is_err());
}

#[test]
fn custom_instruction_text_reads_as_written() {
    let i = Instruction::Assign(TargetType::Accumulator(0), Value::Constant(7));
    assert_eq!(i.to_string(), "a0 := 7".to_string());
}
