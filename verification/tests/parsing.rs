use alpha_tui::base::Operation;
use alpha_tui::instructions::error_handling::{
    BuildProgramError, BuildProgramErrorTypes, InstructionParseError,
};
use alpha_tui::instructions::parsing::{
    parse_alpha, parse_comparison, parse_gamma, parse_index_memory_cell, parse_memory_cell,
    parse_operation, part_range, whole_range,
};
use alpha_tui::instructions::{IndexMemoryCellIndexType, Instruction, TargetType, Value};
use alpha_tui::base::Comparison;
use alpha_tui::instructions::instruction_config::InstructionConfig;
use alpha_tui::instructions::parsing::instruction_readable;
use alpha_tui::runtime::builder::{program_is_readable, RuntimeBuilder};
use alpha_tui::utils::{build_instruction_whitelist, history_is_readable, whitelist_is_readable};

#[test]
fn test_ipe_unknown_operation() {
    assert_eq!(
        Instruction::try_from("a0 := p(h1) x p(h1)"),
        Err(InstructionParseError::UnknownOperation((12, 12), "x".to_string()))
    );
    assert_eq!(
        Instruction::try_from("a0 := p(h1) ö p(h1)"),
        Err(InstructionParseError::UnknownOperation((12, 14), "ö".to_string()))
    );
    assert_eq!(
        Instruction::try_from("a0 := a0 xxx p(h1)"),
        Err(InstructionParseError::UnknownOperation((9, 11), "xxx".to_string()))
    );
    assert_eq!(
        Instruction::try_from("stackxxx"),
        Err(InstructionParseError::UnknownOperation((5, 7), "xxx".to_string()))
    );
}

#[test]
fn test_ipe_unknown_comparison() {
    assert_eq!(
        Instruction::try_from("if a0 x a0 then goto loop"),
        Err(InstructionParseError::UnknownComparison((6, 6), "x".to_string()))
    );
    assert_eq!(
        Instruction::try_from("if a0 ö a0 then goto loop"),
        Err(InstructionParseError::UnknownComparison((6, 8), "ö".to_string()))
    );
    assert_eq!(
        Instruction::try_from("if p(h1) xxx 5 then goto loop"),
        Err(InstructionParseError::UnknownComparison((9, 11), "xxx".to_string()))
    );
}

#[test]
fn test_ipe_not_a_number() {
    assert_eq!(
        Instruction::try_from("if axx != a0 then goto loop"),
        Err(InstructionParseError::NotANumber((4, 5), "xx".to_string()))
    );
    assert_eq!(
        Instruction::try_from("if a0 != axx then goto loop"),
        Err(InstructionParseError::NotANumber((10, 11), "xx".to_string()))
    );
    assert_eq!(
        Instruction::try_from("axx := p(a)"),
        Err(InstructionParseError::NotANumber((1, 2), "xx".to_string()))
    );
}

#[test]
fn test_ipe_invalid_expression() {
    assert_eq!(
        Instruction::try_from("xxx := xxx"),
        Err(InstructionParseError::InvalidExpression((0, 2), "xxx".to_string()))
    );
    assert_eq!(
        Instruction::try_from("p(h1) := xxx"),
        Err(InstructionParseError::InvalidExpression((9, 11), "xxx".to_string()))
    );
}

#[test]
fn test_ipe_unknown_instruction() {
    assert_eq!(
        Instruction::try_from("stackxxx + p(h1)"),
        Err(InstructionParseError::UnknownInstruction((0, 15), "stackxxx + p(h1)".to_string()))
    );
    assert_eq!(
        Instruction::try_from("a0 := p(h1) + p(h2) +"),
        Err(InstructionParseError::UnknownInstruction((0, 20), "a0 := p(h1) + p(h2) +".to_string()))
    );
    assert_eq!(
        Instruction::try_from("a0 := p(h1) + p(h2) + p(h3)"),
        Err(InstructionParseError::UnknownInstruction(
            (0, 26),
            "a0 := p(h1) + p(h2) + p(h3)".to_string()
        ))
    );
    assert_eq!(
        Instruction::try_from("return xyz"),
        Err(InstructionParseError::UnknownInstruction((0, 9), "return xyz".to_string()))
    );
    assert_eq!(
        Instruction::try_from("call xxx yz"),
        Err(InstructionParseError::UnknownInstruction((0, 10), "call xxx yz".to_string()))
    );
    assert_eq!(
        Instruction::try_from("push xxx"),
        Err(InstructionParseError::UnknownInstruction((0, 7), "push xxx".to_string()))
    );
    assert_eq!(
        Instruction::try_from("pop xxx"),
        Err(InstructionParseError::UnknownInstruction((0, 6), "pop xxx".to_string()))
    );
}

#[test]
fn test_ipe_missing_expression() {
    assert_eq!(
        Instruction::try_from("xxx"),
        Err(InstructionParseError::MissingExpression {
            range: (3, 3),
            help: "You might be missing ':='".to_string()
        })
    );
    assert_eq!(
        Instruction::try_from("a0"),
        Err(InstructionParseError::MissingExpression {
            range: (2, 2),
            help: "You might be missing ':='".to_string()
        })
    );
    assert_eq!(
        Instruction::try_from("a0 :="),
        Err(InstructionParseError::MissingExpression {
            range: (5, 5),
            help: "Try inserting an accumulator or a memory cell".to_string()
        })
    );
    assert_eq!(
        Instruction::try_from("a0 := p(h1) +"),
        Err(InstructionParseError::MissingExpression {
            range: (13, 13),
            help: "Try inserting an accumulator or a memory cell".to_string()
        })
    );
}

#[test]
fn error_handling_test_bpe_label_defined_multiple_times() {
    let mut rb = RuntimeBuilder::new_debug(&["a", "b"]);
    let instructions_input = vec!["loop:", "", "loop:"];
    assert_eq!(
        rb.build_instructions(&instructions_input, "test"),
        Err(BuildProgramError {
            reason: BuildProgramErrorTypes::LabelDefinedMultipleTimes("loop".to_string())
        })
    )
}

#[test]
fn error_handling_test_bpe_main_label_defined_multiple_times() {
    let mut rb = RuntimeBuilder::new_debug(&["a", "b"]);
    let instructions_input = vec!["main:", "", "MAIN:"];
    assert_eq!(
        rb.build_instructions(&instructions_input, "test"),
        Err(BuildProgramError { reason: BuildProgramErrorTypes::MainLabelDefinedMultipleTimes })
    );
    let instructions_input = vec!["main:", "", "main:"];
    assert_eq!(
        rb.build_instructions(&instructions_input, "test"),
        Err(BuildProgramError { reason: BuildProgramErrorTypes::MainLabelDefinedMultipleTimes })
    )
}

#[test]
fn parsing_test_parse_memory_cell() {
    assert_eq!(parse_memory_cell("p(h1)", (0, 4)), Ok("h1".to_string()));
    assert_eq!(parse_memory_cell("ρ(h1)", (0, 4)), Ok("h1".to_string()));
    assert_eq!(
        parse_memory_cell("p(1)", (0, 4)),
        Err(InstructionParseError::InvalidExpression((2, 2), "1".to_string()))
    );
    assert_eq!(
        parse_memory_cell("ρ(10)", (0, 5)),
        Err(InstructionParseError::InvalidExpression((2, 3), "10".to_string()))
    );
}

#[test]
fn test_parse_index_memory_cell() {
    assert_eq!(
        parse_index_memory_cell("p(p(h1))", (0, 7)),
        Ok(IndexMemoryCellIndexType::MemoryCell("h1".to_string()))
    );
    assert_eq!(
        parse_index_memory_cell("ρ(ρ(h1))", (0, 7)),
        Ok(IndexMemoryCellIndexType::MemoryCell("h1".to_string()))
    );
    assert_eq!(
        parse_index_memory_cell("p(p(hello))", (0, 7)),
        Ok(IndexMemoryCellIndexType::MemoryCell("hello".to_string()))
    );
    assert_eq!(parse_index_memory_cell("p(p(1))", (0, 7)), Ok(IndexMemoryCellIndexType::Index(1)));
    assert_eq!(parse_index_memory_cell("p(10)", (0, 7)), Ok(IndexMemoryCellIndexType::Direct(10)));
    assert_eq!(
        parse_index_memory_cell("p(p())", (0, 6)),
        Err(InstructionParseError::InvalidExpression((4, 4), "".to_string()))
    );
    assert_eq!(
        parse_index_memory_cell("p(p()))", (0, 7)),
        Err(InstructionParseError::InvalidExpression((4, 5), ")".to_string()))
    );
}

#[test]
fn parse_single_parts() {
    assert_eq!(parse_alpha("a3", (0, 1)), Ok(3));
    assert_eq!(parse_alpha("α12", (4, 7)), Ok(12));
    assert_eq!(parse_alpha("a", (0, 0)), Ok(0));
    assert_eq!(
        parse_alpha("ax", (3, 4)),
        Err(InstructionParseError::NotANumber((4, 4), "x".to_string()))
    );
    assert_eq!(parse_gamma("y", (0, 0)), Ok(()));
    assert_eq!(parse_gamma("γ", (0, 1)), Ok(()));
    assert!(parse_gamma("a0", (0, 1)).is_err());
    assert_eq!(parse_operation("+", (0, 0)), Ok(Operation::Add));
    assert_eq!(
        parse_operation("?", (2, 2)),
        Err(InstructionParseError::UnknownOperation((2, 2), "?".to_string()))
    );
    assert_eq!(parse_comparison(">=", (0, 1)), Ok(Comparison::Ge));
    assert_eq!(
        parse_comparison("?", (2, 2)),
        Err(InstructionParseError::UnknownComparison((2, 2), "?".to_string()))
    );
}

#[test]
fn part_ranges() {
    let parts: Vec<String> = "a1 := a2 + a4".split_whitespace().map(|s| s.to_string()).collect();
    assert_eq!(part_range(&parts, 0), (0, 1));
    assert_eq!(part_range(&parts, 2), (6, 7));
    assert_eq!(part_range(&parts, 4), (11, 12));
    assert_eq!(whole_range(&parts), (0, 12));
}

#[test]
fn parse_more_forms() {
    assert_eq!(
        Instruction::try_from("if y <= p(3) then goto end"),
        Ok(Instruction::JumpIf(
            Value::Gamma,
            Comparison::Le,
            Value::IndexMemoryCell(IndexMemoryCellIndexType::Direct(3)),
            "end".to_string()
        ))
    );
    assert_eq!(
        Instruction::try_from("p(a1) := -4"),
        Ok(Instruction::Assign(
            TargetType::IndexMemoryCell(IndexMemoryCellIndexType::Accumulator(1)),
            Value::Constant(-4)
        ))
    );
}

/// What an instruction is written as reads back as the same instruction.
#[test]
fn display_then_parse() {
    let instructions = vec![
        Instruction::Assign(TargetType::Accumulator(3), Value::Constant(-7)),
        Instruction::Calc(
            TargetType::MemoryCell("h1".to_string()),
            Value::Gamma,
            Operation::Mod,
            Value::IndexMemoryCell(IndexMemoryCellIndexType::Index(2)),
        ),
        Instruction::JumpIf(Value::Accumulator(0), Comparison::Gt, Value::Constant(0), "loop".to_string()),
        Instruction::Goto("end".to_string()),
        Instruction::Call("f".to_string()),
        Instruction::Return,
        Instruction::Push,
        Instruction::Pop,
        Instruction::StackOp(Operation::Sub),
    ];
    for i in instructions {
        assert_eq!(Instruction::try_from(i.to_string().as_str()), Ok(i.clone()));
    }
}

#[test]
fn readability_checks() {
    assert!(instruction_readable("a := 5"));
    assert!(instruction_readable("if a == b then goto x"));
    assert!(!instruction_readable(""));
    assert!(instruction_readable("if a == b foo"));
    assert_eq!(
        Instruction::try_from("if a == b foo"),
        Err(InstructionParseError::InvalidExpression((10, 12), "foo".to_string()))
    );
    assert!(!instruction_readable("; := 4"));
    let program: Vec<String> = vec!["loop:".to_string(), "a := 5 // x".to_string(), "".to_string()];
    assert!(program_is_readable(&program));
    let program: Vec<String> = vec!["x: ; := 4".to_string()];
    assert!(!program_is_readable(&program));
    assert!(history_is_readable(&vec!["push".to_string(), " # c".to_string()]));
    assert!(!history_is_readable(&vec!["main:".to_string()]));
    assert!(whitelist_is_readable(&vec!["A := C".to_string(), "goto".to_string()]));
    assert!(!whitelist_is_readable(&vec!["".to_string()]));
}

#[test]
fn whitelist_kinds() {
    let ids = build_instruction_whitelist(vec![
        "A := M".to_string(),
        "A := C".to_string(),
        "A := M".to_string(),
        "goto".to_string(),
    ])
    .unwrap();
    assert_eq!(ids, vec!["A := M".to_string(), "A := C".to_string(), "goto".to_string()]);
    let err = build_instruction_whitelist(vec!["A := C".to_string(), "A := xyz".to_string()]).unwrap_err();
    assert_eq!(err.line, 2);
    assert_eq!(err.reason, InstructionParseError::InvalidExpression((6, 8), "xyz".to_string()));
    assert_eq!(err.marked_length(), 3);
    let config = InstructionConfig::from_lists(Some(vec!["stackOP".to_string()]), Some(vec![Comparison::Lt]), None).unwrap();
    assert_eq!(config.allowed_instruction_identifiers, Some(vec!["stackOP".to_string()]));
    assert_eq!(config.allowed_comparisons, Some(vec![Comparison::Lt]));
    assert_eq!(config.allowed_operations, None);
}

#[test]
fn written_instructions_read_back() {
    let instructions = vec![
        Instruction::Assign(
            TargetType::IndexMemoryCell(IndexMemoryCellIndexType::MemoryCell("h1".to_string())),
            Value::IndexMemoryCell(IndexMemoryCellIndexType::Accumulator(12)),
        ),
        Instruction::Assign(
            TargetType::IndexMemoryCell(IndexMemoryCellIndexType::Direct(0)),
            Value::IndexMemoryCell(IndexMemoryCellIndexType::Gamma),
        ),
        Instruction::Calc(TargetType::Gamma, Value::Constant(i32::MIN), Operation::Add, Value::Constant(i32::MAX)),
        Instruction::JumpIf(
            Value::MemoryCell("xY2".to_string()),
            Comparison::Le,
            Value::Accumulator(usize::MAX),
            "l(1)".to_string(),
        ),
        Instruction::StackOp(Operation::Div),
    ];
    for i in instructions {
        assert_eq!(Instruction::try_from(i.to_string().as_str()), Ok(i.clone()));
    }
}

#[test]
fn cell_named_like_an_accumulator_reads_as_an_index() {
    let i = Instruction::Assign(TargetType::MemoryCell("a1".to_string()), Value::Constant(1));
    assert_eq!(i.to_string(), "p(a1) := 1");
    assert_eq!(
        Instruction::try_from(i.to_string().as_str()),
        Ok(Instruction::Assign(
            TargetType::IndexMemoryCell(IndexMemoryCellIndexType::Accumulator(1)),
            Value::Constant(1)
        ))
    );
}

#[test]
fn memory_cell_names_are_letters_and_digits() {
    assert_eq!(parse_memory_cell("p(AB)", (0, 4)), Ok("AB".to_string()));
    assert_eq!(parse_memory_cell("p(h1)", (0, 4)), Ok("h1".to_string()));
    assert_eq!(
        parse_memory_cell("p(x-y)", (0, 5)),
        Err(InstructionParseError::InvalidExpression((2, 3), "x-y".to_string()))
    );
    assert_eq!(
        parse_memory_cell("p(12)", (0, 4)),
        Err(InstructionParseError::InvalidExpression((2, 2), "12".to_string()))
    );
}

#[test]
fn operation_ranges_and_part_ranges() {
    assert_eq!(
        parse_operation("x", (12, 12)),
        Err(InstructionParseError::UnknownOperation((12, 12), "x".to_string()))
    );
    assert_eq!(
        parse_operation("ö", (12, 13)),
        Err(InstructionParseError::UnknownOperation((12, 14), "ö".to_string()))
    );
    assert_eq!(parse_operation("×", (0, 1)), Ok(Operation::Mul));
    let parts: Vec<String> = vec!["a0", ":=", "p(h1)", "x", "p(h1)"].into_iter().map(|s| s.to_string()).collect();
    assert_eq!(part_range(&parts, 0), (0, 1));
    assert_eq!(part_range(&parts, 3), (12, 12));
    assert_eq!(part_range(&parts, 4), (14, 18));
}
