use alpha_tui::cli::{validate_arguments, CliError, CliErrorType, GlobalArgs};
use alpha_tui::instructions::{Instruction, TargetType, Value};
use alpha_tui::runtime::storage::{IdMap, NameMap};
use alpha_tui::runtime::{ControlFlow, RuntimeMemory, RuntimeSettings};
use alpha_tui::text::chars_to_string;
use alpha_tui::ui::{
    items_to_display,
    input_parts, insert_char_at_index, InputParts, KeySymbol, KeybindingHint, KeybindingHintError,
};
use alpha_tui::instructions::error_handling::{BuildProgramError, BuildProgramErrorTypes, InstructionParseError};
use alpha_tui::utils::{check_instruction_history, cleanup_instruction_line, get_comment, prepare_whitelist_file, remove_comment};

#[test]
fn test_remove_comments() {
    assert_eq!(remove_comment("a := 5 # Some comment"), String::from("a := 5"));
    assert_eq!(remove_comment("a := 5 // Some comment"), String::from("a := 5"));
    assert_eq!(remove_comment("a #:= 5"), String::from("a"));
    assert_eq!(remove_comment("a //:= 5"), String::from("a"));
    assert_eq!(remove_comment("#a := 5"), String::from(""));
    assert_eq!(remove_comment("//a := 5"), String::from(""));
}

#[test]
fn test_get_comment() {
    assert_eq!(get_comment("a := 5 # Some comment"), Some(String::from("# Some comment")));
    assert_eq!(get_comment("a := 5 // Some comment"), Some(String::from("// Some comment")));
    assert_eq!(get_comment("a #:= 5"), Some(String::from("#:= 5")));
    assert_eq!(get_comment("a //:= 5"), Some(String::from("//:= 5")));
    assert_eq!(get_comment("#a := 5"), Some(String::from("#a := 5")));
    assert_eq!(get_comment("//a := 5"), Some(String::from("//a := 5")));
    assert_eq!(get_comment("a := 5"), None);
}

#[test]
fn test_prepare_whitelist_file() {
    let contents = "A := M\nA := C\nM := A\nY := A OP M\nif A CMP M then goto\ngoto\ncall";
    let contents = prepare_whitelist_file(contents.split('\n').map(String::from).collect::<Vec<String>>());
    let after = vec![
        "a0 := p(h1)".to_string(),
        "a0 := 0".to_string(),
        "p(h1) := a0".to_string(),
        "y := a0 + p(h1)".to_string(),
        "if a0 == p(h1) then goto loop".to_string(),
        "goto loop".to_string(),
        "call loop".to_string(),
    ];
    assert_eq!(contents, after);
}

#[test]
fn cleanup_lines() {
    assert_eq!(cleanup_instruction_line("loop: a := 5 // comment".to_string()), "a := 5".to_string());
    assert_eq!(cleanup_instruction_line("   a := 5   ".to_string()), "a := 5".to_string());
    assert_eq!(cleanup_instruction_line("end:".to_string()), "".to_string());
    assert_eq!(cleanup_instruction_line("# only a comment".to_string()), "".to_string());
}

#[test]
fn test_keybinding_hint_new_many_err() {
    let res = KeybindingHint::new_many(vec![0, 2], "a", vec![]);
    assert!(res.is_err());
    assert_eq!(res.err(), Some(KeybindingHintError::LengthMismatch));
}

#[test]
fn test_keybinding_hint_order() {
    let hint = KeybindingHint::new(0, "a", "test1");
    assert_eq!(hint.order(), 0);
    let mut hint = KeybindingHint::new_many(vec![0, 1], "a", vec!["test1a", "test1b"]).unwrap();
    assert_eq!(hint.order(), 0);
    hint.set_state(1).unwrap();
    assert_eq!(hint.order(), 1);
}

#[test]
fn test_keybinding_hint_set_state() {
    let mut hint = KeybindingHint::new_many(vec![0, 1], "a", vec!["test1a", "test1b"]).unwrap();
    assert_eq!(hint.state(), 0);
    hint.set_state(1).unwrap();
    assert_eq!(hint.state(), 1);
    assert!(hint.set_state(3).is_err());
}

#[test]
fn keybinding_hint_flags_and_labels() {
    let mut hint = KeybindingHint::new_with_state(3, "q", "Quit", true, false);
    assert!(hint.enabled());
    assert!(!hint.shown());
    assert_eq!(hint.label(), "Quit".to_string());
    hint.set_shown(true);
    assert!(hint.shown());
    hint.set_enabled(false);
    assert!(!hint.enabled());
    hint.reset();
    assert!(!hint.enabled() && !hint.shown());
    assert_eq!(hint.set_state(2), Err(KeybindingHintError::StateInvalid));
    assert_eq!(hint.state(), 0);
}

#[test]
fn key_symbols() {
    assert_eq!(KeySymbol::ArrowUp.to_string(), "\u{2191}".to_string());
    assert_eq!(KeySymbol::Enter.to_string(), "\u{23ce}".to_string());
    assert_eq!(KeySymbol::Tab.to_string(), "\u{21e5}".to_string());
}

#[test]
fn test_input_parts() {
    assert_eq!(
        input_parts("main: a := 20 // comment".to_string()),
        Some(InputParts {
            label: Some("main".to_string()),
            instruction: Some("a := 20".to_string()),
            comment: Some("// comment".to_string())
        })
    );
    assert_eq!(
        input_parts("    a := 20 // comment".to_string()),
        Some(InputParts {
            label: None,
            instruction: Some("a := 20".to_string()),
            comment: Some("// comment".to_string())
        })
    );
    assert_eq!(
        input_parts(" // comment".to_string()),
        Some(InputParts { label: None, instruction: None, comment: Some("// comment".to_string()) })
    );
    assert_eq!(
        input_parts("main: // comment".to_string()),
        Some(InputParts {
            label: Some("main".to_string()),
            instruction: None,
            comment: Some("// comment".to_string())
        })
    );
    assert_eq!(
        input_parts("main:".to_string()),
        Some(InputParts { label: Some("main".to_string()), instruction: None, comment: None })
    );
    assert_eq!(
        input_parts(" a := 20 ".to_string()),
        Some(InputParts { label: None, instruction: Some("a := 20".to_string()), comment: None })
    );
    assert_eq!(
        input_parts("main: a := 20 ".to_string()),
        Some(InputParts {
            label: Some("main".to_string()),
            instruction: Some("a := 20".to_string()),
            comment: None
        })
    );
    assert_eq!(input_parts("".to_string()), None);
}

#[test]
fn insert_characters() {
    let mut s = "ac".to_string();
    insert_char_at_index(&mut s, 1, 'b');
    assert_eq!(s, "abc".to_string());
    insert_char_at_index(&mut s, 3, 'ö');
    assert_eq!(s, "abcö".to_string());
    insert_char_at_index(&mut s, 0, 'x');
    assert_eq!(s, "xabcö".to_string());
}

#[test]
fn characters_to_text() {
    assert_eq!(chars_to_string(&['a', 'ß', ' ', '1']), "aß 1".to_string());
    assert_eq!(chars_to_string(&[]), "".to_string());
}

#[test]
fn memory_cell_names_validated() {
    let mut args = GlobalArgs::default();
    assert_eq!(validate_arguments(&args), Ok(()));
    args.memory_cells = Some(vec!["a".to_string(), "h1".to_string(), "x_2".to_string()]);
    assert_eq!(validate_arguments(&args), Ok(()));
    args.memory_cells = Some(vec!["a".to_string(), "12".to_string(), "3".to_string()]);
    assert_eq!(
        validate_arguments(&args),
        Err(CliError::new(CliErrorType::MemoryCellsInvalid("12".to_string())))
    );
    args.memory_cells = Some(vec!["ä1".to_string()]);
    assert_eq!(validate_arguments(&args), Ok(()));
}

#[test]
fn maps_hold_what_was_inserted() {
    let mut m: IdMap<Option<i32>> = IdMap::new();
    assert_eq!(m.len(), 0);
    m.insert(3, Some(1));
    m.insert(1, None);
    m.insert(3, Some(2));
    assert_eq!(m.len(), 2);
    assert_eq!(m.get(3), Some(Some(2)));
    assert_eq!(m.get(7), None);
    m.set_all(Some(0));
    assert_eq!(m.get(1), Some(Some(0)));
    let mut e = m.entries();
    e.sort();
    assert_eq!(e, vec![(1, Some(0)), (3, Some(0))]);

    let mut n: NameMap<usize> = NameMap::new();
    n.insert("loop".to_string(), 4);
    n.insert("end".to_string(), 9);
    n.insert("loop".to_string(), 5);
    assert_eq!(n.get(&"loop".to_string()), Some(5));
    assert!(!n.contains_key(&"main".to_string()));
    assert_eq!(n.entries().len(), 2);
}

#[test]
fn memory_reset_and_lists() {
    let mut m = RuntimeMemory::new(3, vec!["h1".to_string()], Some(vec![0, 4]), true);
    m.accumulators.insert(1, Some(7));
    m.memory_cells.insert("h1".to_string(), Some(2));
    m.stack.push(5);
    let mut list = m.accumulator_list();
    list.sort_by_key(|a| a.id);
    assert_eq!(list.len(), 3);
    assert_eq!(list[1].data, Some(7));
    m.reset();
    assert_eq!(m.accumulators.len(), 3);
    assert_eq!(m.accumulators.get(1), Some(None));
    assert_eq!(m.memory_cells.get(&"h1".to_string()), Some(None));
    assert_eq!(m.index_memory_cells.get(4), Some(None));
    assert_eq!(m.gamma, Some(None));
    assert!(m.stack.is_empty());
    assert!(m.exists_accumulator(2));
    assert!(!m.exists_accumulator(3));
}

/// Pushing and popping leaves the memory as it was; a call and a return
/// leave the control flow as it was.
#[test]
fn push_pop_and_call_return_undo() {
    let mut m = RuntimeMemory::new(1, vec![], None, false);
    m.accumulators.insert(0, Some(42));
    let mut cf = ControlFlow::new();
    cf.instruction_labels.insert("f".to_string(), 7);
    cf.next_instruction_index = 3;
    let s = RuntimeSettings::default();
    Instruction::Push.run(&mut m, &mut cf, &s).unwrap();
    Instruction::Pop.run(&mut m, &mut cf, &s).unwrap();
    assert_eq!(m.accumulators.get(0), Some(Some(42)));
    assert!(m.stack.is_empty());
    Instruction::Call("f".to_string()).run(&mut m, &mut cf, &s).unwrap();
    assert_eq!(cf.next_instruction_index, 7);
    Instruction::Return.run(&mut m, &mut cf, &s).unwrap();
    assert_eq!(cf.next_instruction_index, 3);
    assert!(cf.call_stack.is_empty());
}

/// A failing instruction leaves memory and control flow alone.
#[test]
fn failure_changes_nothing() {
    let mut m = RuntimeMemory::new(1, vec!["h1".to_string()], None, false);
    let mut cf = ControlFlow::new();
    let s = RuntimeSettings::default();
    let r = Instruction::Assign(TargetType::MemoryCell("h1".to_string()), Value::Accumulator(0)).run(&mut m, &mut cf, &s);
    assert!(r.is_err());
    assert_eq!(m.memory_cells.get(&"h1".to_string()), Some(None));
    assert_eq!(cf.next_instruction_index, 0);
}

/// Writing a location that does not exist creates it when detection is on,
/// and fails when it is off.
#[test]
fn autodetection_settings() {
    let mut s = RuntimeSettings::default();
    let mut m = RuntimeMemory::new_empty();
    let mut cf = ControlFlow::new();
    assert!(Instruction::Assign(TargetType::Accumulator(2), Value::Constant(1)).run(&mut m, &mut cf, &s).is_err());
    assert!(Instruction::Assign(TargetType::Gamma, Value::Constant(1)).run(&mut m, &mut cf, &s).is_err());
    assert!(s.autodetect_index_memory_cells);
    s.autodetect_accumulators = true;
    s.autodetect_gamma_accumulator = true;
    s.autodetect_memory_cells = true;
    Instruction::Assign(TargetType::Accumulator(2), Value::Constant(1)).run(&mut m, &mut cf, &s).unwrap();
    Instruction::Assign(TargetType::Gamma, Value::Constant(1)).run(&mut m, &mut cf, &s).unwrap();
    assert_eq!(m.accumulators.get(2), Some(Some(1)));
    assert_eq!(m.gamma, Some(Some(1)));
    s.autodetect_memory_cells = false;
    assert!(Instruction::Assign(TargetType::MemoryCell("q".to_string()), Value::Constant(1))
        .run(&mut m, &mut cf, &s)
        .is_err());
}

#[test]
fn instruction_history_checked() {
    let content: Vec<String> = vec![
        "a := 5 // first".to_string(),
        "".to_string(),
        "loop:   a   :=   5".to_string(),
        "# nothing".to_string(),
        "push".to_string(),
    ];
    assert_eq!(
        check_instruction_history(&content, "history"),
        Ok(vec!["a := 5".to_string(), "push".to_string()])
    );
    let content: Vec<String> = vec!["push".to_string(), "pop xxx".to_string()];
    assert_eq!(
        check_instruction_history(&content, "history"),
        Err(BuildProgramError {
            reason: BuildProgramErrorTypes::ParseError {
                file_name: "history".to_string(),
                line: 2,
                reason: InstructionParseError::UnknownInstruction((0, 6), "pop xxx".to_string()),
            }
        })
    );
}

#[test]
fn history_items_filtered_by_prefix() {
    let history = vec![
        "a := 5".to_string(),
        "  push ".to_string(),
        "a := 1".to_string(),
        "a := 5".to_string(),
        "if a < 3 then goto x".to_string(),
    ];
    assert_eq!(
        items_to_display(&history, "a"),
        vec!["a := 1".to_string(), "a := 5".to_string()]
    );
    assert_eq!(items_to_display(&history, "pu"), vec!["push".to_string()]);
    assert_eq!(items_to_display(&history, "z"), Vec::<String>::new());
    let mut all = history.clone();
    all.reverse();
    assert_eq!(items_to_display(&history, ""), all);
}

#[test]
fn comments_leave_the_line_trimmed() {
    assert_eq!(remove_comment("  a := p(h1) + 2\t// add two"), String::from("a := p(h1) + 2"));
    assert_eq!(remove_comment("goto loop#again"), String::from("goto loop"));
    assert_eq!(remove_comment("return //"), String::from("return"));
    assert_eq!(remove_comment("push"), String::from("push"));
    assert_eq!(remove_comment("call f # see the label\r"), String::from("call f"));
    // The comment starts at whichever mark comes first.
    assert_eq!(remove_comment("pop # see //x"), String::from("pop"));
    assert_eq!(remove_comment("a := 5 # x // y"), String::from("a := 5"));
    assert_eq!(get_comment("a := 5 # x // y"), Some(String::from("# x // y")));
    // `//` right after a `/` starts the comment one character earlier.
    assert_eq!(remove_comment("a := 4 /// x"), String::from("a := 4"));
    assert_eq!(remove_comment("x///c"), String::from("x"));
}

#[test]
fn keybinding_hint_state_must_index_a_label() {
    let mut hint = KeybindingHint::new_many(vec![0, 1], "a", vec!["test1a", "test1b"]).unwrap();
    assert_eq!(hint.set_state(2), Err(KeybindingHintError::StateInvalid));
    assert_eq!(hint.state(), 0);
    assert!(hint.set_state(1).is_ok());
    assert_eq!(hint.label(), "test1b".to_string());
    assert_eq!(hint.order(), 1);
    assert_eq!(hint.key(), "a".to_string());
    assert!(hint.set_state(3).is_err());
}
