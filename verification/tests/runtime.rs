use alpha_tui::base::{Comparison, Operation};
use alpha_tui::cli::GlobalArgs;
use alpha_tui::instructions::error_handling::{BuildProgramError, BuildProgramErrorTypes};
use alpha_tui::instructions::instruction_config::InstructionConfig;
use alpha_tui::instructions::{IndexMemoryCellIndexType, Instruction, TargetType, Value};
use alpha_tui::runtime::builder::{check_index_memory_cell, check_instructions, RuntimeBuilder};
use alpha_tui::runtime::error_handling::{
    AddLabelError, CalcError, RuntimeBuildError, RuntimeErrorType,
};
use alpha_tui::runtime::{ControlFlow, Runtime, RuntimeArgs, RuntimeMemory, RuntimeSettings};

/// Used to set the available memory cells during testing.
const TEST_MEMORY_CELL_LABELS: &[&str] = &[
    "a", "b", "c", "d", "e", "f", "w", "x", "y", "z", "h1", "h2", "h3", "h4",
];

fn lines_of(input: &str) -> Vec<String> {
    input.split('\n').map(|f| f.to_string()).collect()
}

fn runtime_from_str_with_default_cli_args(input: &str) -> Result<Runtime, RuntimeBuildError> {
    let mut rb = RuntimeBuilder::from_program(&lines_of(input), "test").unwrap();
    rb.apply_global_cli_args(&GlobalArgs::default(), None);
    rb.build()
}

/// The instructions of a program whose lines are single instructions.
fn build_instructions_test(input: &str) -> Vec<Instruction> {
    input.split('\n').map(|l| Instruction::try_from(l).unwrap()).collect()
}

fn run(i: Instruction, ra: &mut RuntimeArgs) -> Result<(), RuntimeErrorType> {
    let mut cf = ControlFlow::new();
    i.run(ra, &mut cf, &RuntimeSettings::default())
}

fn two_accumulators(x: i32, y: i32) -> RuntimeArgs {
    let mut ra = RuntimeArgs::new(2, vec![], None, true);
    ra.accumulators.insert(0, Some(x));
    ra.accumulators.insert(1, Some(y));
    ra
}

fn calc_on_accumulators(op: Operation, x: i32, y: i32) -> Result<(), RuntimeErrorType> {
    let mut ra = two_accumulators(x, y);
    run(Instruction::Calc(TargetType::Accumulator(0), Value::Accumulator(0), op, Value::Accumulator(1)), &mut ra)
}

fn overflow(verb: &str, noun: &str) -> Result<(), RuntimeErrorType> {
    Err(RuntimeErrorType::IllegalCalculation {
        cause: CalcError::AttemptToOverflow(verb.to_string(), noun.to_string()),
    })
}

#[test]
fn test_rbe_runtime_args_missing_error() {
    let mut rt = RuntimeBuilder::new();
    rt.set_instructions(vec![Instruction::Push]);
    assert_eq!(rt.build().err(), Some(RuntimeBuildError::RuntimeArgsMissing));
}

#[test]
fn test_rbe_instructions_missing_error() {
    let mut rt = RuntimeBuilder::new();
    rt.set_runtime_args(RuntimeArgs::new_debug(&[""]));
    assert_eq!(rt.build().err(), Some(RuntimeBuildError::InstructionsMissing));
}

#[test]
fn test_rbe_label_undefined_error() {
    let mut rt = RuntimeBuilder::new_debug(&[]);
    rt.set_instructions(vec![Instruction::Goto("loop".to_string())]);
    assert_eq!(rt.build().err(), Some(RuntimeBuildError::LabelUndefined("loop".to_string())));
}

#[test]
fn test_rbe_memory_cell_missing() {
    let mut rt = RuntimeBuilder::new_debug(&[]);
    rt.set_instructions(vec![Instruction::Assign(TargetType::MemoryCell("h1".to_string()), Value::Constant(10))]);
    assert_eq!(rt.build().err(), Some(RuntimeBuildError::MemoryCellMissing("h1".to_string())));
}

#[test]
fn test_rbe_accumulator_missing() {
    let mut rt = RuntimeBuilder::new_debug(&[]);
    rt.set_runtime_args(RuntimeArgs::new_empty());
    rt.set_instructions(vec![Instruction::Assign(TargetType::Accumulator(0), Value::Constant(10))]);
    assert_eq!(rt.build().err(), Some(RuntimeBuildError::AccumulatorMissing("0".to_string())));
}

#[test]
fn test_re_accumulator_uninitialized() {
    let mut ra = RuntimeArgs::new(1, vec!["h1".to_string()], None, true);
    assert_eq!(
        run(Instruction::Assign(TargetType::MemoryCell("h1".to_string()), Value::Accumulator(0)), &mut ra),
        Err(RuntimeErrorType::AccumulatorUninitialized(0))
    );
}

#[test]
fn test_re_accumulator_does_not_exist() {
    let mut ra = RuntimeArgs::new(0, vec!["h1".to_string()], None, true);
    assert_eq!(
        run(Instruction::Assign(TargetType::MemoryCell("h1".to_string()), Value::Accumulator(0)), &mut ra),
        Err(RuntimeErrorType::AccumulatorDoesNotExist(0))
    );
}

#[test]
fn test_re_memory_cell_uninitialized() {
    let mut ra = RuntimeArgs::new(1, vec!["a".to_string()], None, true);
    assert_eq!(
        run(Instruction::Assign(TargetType::Accumulator(0), Value::MemoryCell("a".to_string())), &mut ra),
        Err(RuntimeErrorType::MemoryCellUninitialized("a".to_string()))
    );
}

#[test]
fn test_re_memory_cell_does_not_exist() {
    let mut ra = RuntimeArgs::new(1, vec![], None, true);
    assert_eq!(
        run(Instruction::Assign(TargetType::Accumulator(0), Value::MemoryCell("a".to_string())), &mut ra),
        Err(RuntimeErrorType::MemoryCellDoesNotExist("a".to_string()))
    );
}

#[test]
fn test_re_push_fail() {
    let mut ra = RuntimeArgs::new(1, vec![], None, true);
    assert_eq!(run(Instruction::Push, &mut ra), Err(RuntimeErrorType::PushFail));
}

#[test]
fn test_re_pop_fail() {
    let mut ra = RuntimeArgs::new(1, vec!["a".to_string()], None, true);
    assert_eq!(run(Instruction::Pop, &mut ra), Err(RuntimeErrorType::PopFail));
}

#[test]
fn test_re_stack_overflow() {
    let ra = RuntimeArgs::new(1, vec!["a".to_string()], None, true);
    let mut rb = RuntimeBuilder::new();
    rb.set_runtime_args(ra);
    let instructions = vec!["loop: call loop"];
    rb.build_instructions(&instructions, "test").unwrap();
    let mut rt = rb.build().unwrap();
    match rt.run() {
        Err(e) => assert_eq!(e.reason, RuntimeErrorType::StackOverflowError),
        Ok(_) => panic!("the program should overflow its call stack"),
    }
}

#[test]
fn test_re_label_missing() {
    let mut ra = RuntimeArgs::new(1, vec!["a".to_string()], None, true);
    assert_eq!(
        run(Instruction::Goto("loop".to_string()), &mut ra),
        Err(RuntimeErrorType::LabelMissing("loop".to_string()))
    );
}

#[test]
fn test_ce_me_attempt_to_divide_by_zero() {
    assert_eq!(
        calc_on_accumulators(Operation::Div, 0, 0),
        Err(RuntimeErrorType::IllegalCalculation { cause: CalcError::AttemptToDivideByZero() })
    );
}

#[test]
fn test_re_ce_attempt_to_overflow_add() {
    assert_eq!(calc_on_accumulators(Operation::Add, i32::MAX, 1), overflow("add", "Addition"));
}

#[test]
fn test_re_ce_attempt_to_overflow_sub() {
    assert_eq!(calc_on_accumulators(Operation::Sub, i32::MIN, 1), overflow("subtract", "Subtraction"));
}

#[test]
fn test_re_ce_attempt_to_overflow_div() {
    assert_eq!(calc_on_accumulators(Operation::Div, i32::MIN, -1), overflow("divide", "Division"));
}

#[test]
fn test_re_ce_attempt_to_overflow_mul() {
    assert_eq!(calc_on_accumulators(Operation::Mul, i32::MAX, 2), overflow("multiply", "Multiplication"));
}

#[test]
fn test_re_ce_attempt_to_overflow_mod() {
    assert_eq!(calc_on_accumulators(Operation::Mod, i32::MIN, -1), overflow("mod", "Modulo"));
}

#[test]
fn test_re_ce_attempt_to_divide_by_zero_mod() {
    assert_eq!(
        calc_on_accumulators(Operation::Mod, 10, 0),
        Err(RuntimeErrorType::IllegalCalculation { cause: CalcError::AttemptToDivideByZero() })
    );
}

#[test]
fn builder_test_instruction_building_with_comments() {
    let instructions = r#"
            a0 := 4 // Set alpha to 4
            p(h1) := a0 # Set memory cell h1 to 4
            a0 := a1 # Just some stuff
            a1 := a2 // Just some more stuff
        "#;
    assert!(runtime_from_str_with_default_cli_args(instructions).is_ok());
}

#[test]
fn test_instruction_building_with_semicolons() {
    let instructions = r#"
            a0 := 4; // Set alpha to 4,
            p(h1) := a0; # Set memory cell h1 to 4,
            a0 := a1; # Just some stuff,
            a1 := a2; // Just some more stuff,
        "#;
    assert!(runtime_from_str_with_default_cli_args(instructions).is_ok());
}

#[test]
fn test_only_label_line() {
    let instructions = r#"
            a0 := 5
            my_label:
            a1 := 5
        "#;
    assert!(runtime_from_str_with_default_cli_args(instructions).is_ok());
}

#[test]
fn test_accumulator_auto_add_working() {
    let instructions = r#"
            a1 := a2 + a3
        "#;
    let rt = runtime_from_str_with_default_cli_args(instructions).ok().unwrap();
    assert!(rt.runtime_memory().accumulators.contains_key(1));
    assert!(rt.runtime_memory().accumulators.contains_key(2));
    assert!(rt.runtime_memory().accumulators.contains_key(3));
    assert!(!rt.runtime_memory().accumulators.contains_key(4));
}

#[test]
fn test_check_index_memory_cell() {
    let mut args = RuntimeMemory::new_empty();
    assert_eq!(
        check_index_memory_cell(&mut args, &IndexMemoryCellIndexType::Accumulator(0), false),
        Err(RuntimeBuildError::AccumulatorMissing("0".to_string()))
    );
    assert_eq!(
        check_index_memory_cell(&mut args, &IndexMemoryCellIndexType::Gamma, false),
        Err(RuntimeBuildError::GammaDisabled)
    );
    assert_eq!(
        check_index_memory_cell(&mut args, &IndexMemoryCellIndexType::MemoryCell("h1".to_string()), false),
        Err(RuntimeBuildError::MemoryCellMissing("h1".to_string()))
    );
    assert_eq!(check_index_memory_cell(&mut args, &IndexMemoryCellIndexType::Accumulator(0), true), Ok(()));
    assert_eq!(check_index_memory_cell(&mut args, &IndexMemoryCellIndexType::Gamma, true), Ok(()));
    assert_eq!(
        check_index_memory_cell(&mut args, &IndexMemoryCellIndexType::MemoryCell("h1".to_string()), true),
        Ok(())
    );
    assert!(args.accumulators.contains_key(0));
    assert!(args.gamma.is_some());
    assert!(args.memory_cells.contains_key(&"h1".to_string()));
}

#[test]
fn builder_test_bpe_label_defined_multiple_times() {
    let mut rb = RuntimeBuilder::new();
    assert_eq!(
        rb.build_instructions(&vec!["loop:", "", "loop:"], "test"),
        Err(BuildProgramError {
            reason: BuildProgramErrorTypes::LabelDefinedMultipleTimes("loop".to_string())
        })
    )
}

#[test]
fn builder_test_bpe_main_label_defined_multiple_times() {
    let mut rb = RuntimeBuilder::new();
    assert_eq!(
        rb.build_instructions(&vec!["main:", "", "MAIN:"], "test"),
        Err(BuildProgramError { reason: BuildProgramErrorTypes::MainLabelDefinedMultipleTimes })
    );
    assert_eq!(
        rb.build_instructions(&vec!["main:", "", "main:"], "test"),
        Err(BuildProgramError { reason: BuildProgramErrorTypes::MainLabelDefinedMultipleTimes })
    )
}

#[test]
fn test_bpe_instruction_not_allowed() {
    let instructions = build_instructions_test("a := 5");
    let allowed_instructions = InstructionConfig {
        allowed_instruction_identifiers: Some(vec!["A := H".to_string()]),
        allowed_comparisons: None,
        allowed_operations: None,
    };
    assert_eq!(
        check_instructions(&instructions, &allowed_instructions),
        Err(BuildProgramError {
            reason: BuildProgramErrorTypes::InstructionNotAllowed(
                1,
                "a0 := 5".to_string(),
                "A := C".to_string(),
                "A := H".to_string()
            )
        })
    );
}

#[test]
fn test_bpe_comparison_not_allowed() {
    let instructions = build_instructions_test("if a == a then goto loop");
    let allowed_instructions = InstructionConfig {
        allowed_instruction_identifiers: None,
        allowed_comparisons: Some(Vec::new()),
        allowed_operations: None,
    };
    assert!(check_instructions(&instructions, &allowed_instructions).is_err());
}

#[test]
fn test_bpe_operation_not_allowed() {
    let instructions = build_instructions_test("a := a + p(h1)");
    let allowed_instructions = InstructionConfig {
        allowed_instruction_identifiers: None,
        allowed_comparisons: None,
        allowed_operations: Some(Vec::new()),
    };
    assert!(check_instructions(&instructions, &allowed_instructions).is_err());
}

fn test_label_instruction(instruction: Instruction, label: &str) -> bool {
    let instructions = vec![instruction];
    let mut rb = RuntimeBuilder::new_debug(TEST_MEMORY_CELL_LABELS);
    rb.set_instructions(instructions.clone());
    assert!(rb.add_label(label.to_string(), 0).is_ok());
    assert!(rb.build().is_ok());
    rb.reset();
    rb.set_instructions(instructions);
    rb.set_runtime_args(RuntimeMemory::new_debug(TEST_MEMORY_CELL_LABELS));
    assert_eq!(rb.build().err(), Some(RuntimeBuildError::LabelUndefined(label.to_string())));
    true
}

#[test]
fn mod_test_label_missing() {
    assert!(test_label_instruction(Instruction::Goto("loop".to_string()), "loop"));
    assert!(test_label_instruction(
        Instruction::JumpIf(Value::Accumulator(0), Comparison::Eq, Value::Accumulator(0), "loop".to_string()),
        "loop",
    ));
    assert!(test_label_instruction(
        Instruction::JumpIf(
            Value::Accumulator(0),
            Comparison::Eq,
            Value::MemoryCell("h1".to_string()),
            "loop".to_string(),
        ),
        "loop",
    ));
}

#[test]
fn runtime_test_label_missing() {
    assert!(test_label_instruction(Instruction::Goto("loop".to_string()), "loop"));
    assert!(test_label_instruction(
        Instruction::JumpIf(Value::Accumulator(0), Comparison::Eq, Value::Accumulator(0), "loop".to_string()),
        "loop",
    ));
    assert!(test_label_instruction(
        Instruction::JumpIf(Value::Accumulator(0), Comparison::Eq, Value::Constant(0), "loop".to_string()),
        "loop",
    ));
    assert!(test_label_instruction(
        Instruction::JumpIf(Value::Accumulator(0), Comparison::Eq, Value::MemoryCell("a".to_string()), "loop".to_string()),
        "loop",
    ));
}

fn test_accumulator_instruction(instruction: Instruction, to_test: Vec<usize>) -> bool {
    let mut rb = RuntimeBuilder::new();
    rb.set_instructions(vec![instruction]);
    let _ = rb.add_label("loop".to_string(), 0);
    let mut runtime_args = RuntimeMemory::new_empty();
    runtime_args.add_storage_cell("h1");
    runtime_args.add_storage_cell("h2");
    for _ in &to_test {
        runtime_args.add_accumulator();
    }
    rb.set_runtime_args(runtime_args);
    assert!(rb.build().is_ok());
    for s in to_test.iter() {
        let mut runtime_args = RuntimeMemory::new_empty();
        runtime_args.add_storage_cell("h1");
        runtime_args.add_storage_cell("h2");
        for _ in 0..(to_test.len() - *s - 1) {
            runtime_args.add_accumulator();
        }
        rb.set_runtime_args(runtime_args);
        assert_eq!(
            rb.build().err(),
            Some(RuntimeBuildError::AccumulatorMissing((to_test.len() - *s - 1).to_string()))
        );
    }
    true
}

#[test]
fn mod_test_accumulator_missing() {
    assert!(test_accumulator_instruction(
        Instruction::Assign(TargetType::Accumulator(0), Value::Accumulator(1)),
        vec![0, 1],
    ));
    assert!(test_accumulator_instruction(
        Instruction::Calc(TargetType::Accumulator(0), Value::Accumulator(1), Operation::Add, Value::Accumulator(2)),
        vec![0, 1, 2],
    ));
}

fn test_memory_cell_instruction(instruction: Instruction, to_test: Vec<&str>) -> bool {
    let mut rb = RuntimeBuilder::new();
    rb.set_instructions(vec![instruction]);
    let _ = rb.add_label("loop".to_string(), 0);
    let mut runtime_args = RuntimeMemory::new_empty();
    runtime_args.add_accumulator();
    for s in &to_test {
        runtime_args.add_storage_cell(s);
    }
    rb.set_runtime_args(runtime_args);
    assert!(rb.build().is_ok());
    for (i1, s) in to_test.iter().enumerate() {
        let mut runtime_args = RuntimeMemory::new_empty();
        runtime_args.add_accumulator();
        for (i2, s2) in to_test.iter().enumerate() {
            if i1 == i2 {
                continue;
            }
            runtime_args.add_storage_cell(s2);
        }
        rb.set_runtime_args(runtime_args);
        assert_eq!(rb.build().err(), Some(RuntimeBuildError::MemoryCellMissing(s.to_string())));
    }
    true
}

#[test]
fn mod_test_memory_cell_missing() {
    assert!(test_memory_cell_instruction(
        Instruction::Assign(TargetType::MemoryCell("h1".to_string()), Value::MemoryCell("h2".to_string())),
        vec!["h1", "h2"],
    ));
    assert!(test_memory_cell_instruction(
        Instruction::Calc(
            TargetType::MemoryCell("h1".to_string()),
            Value::MemoryCell("h2".to_string()),
            Operation::Add,
            Value::MemoryCell("h3".to_string()),
        ),
        vec!["h1", "h2", "h3"],
    ));
}

#[test]
fn runtime_test_instruction_building_with_comments() {
    let instructions = vec![
        "a0 := 4 // Set alpha to 4",
        "p(h1) := a0 # Set memory cell h1 to 4",
        "a0 := a1 # Just some stuff",
        "a1 := a2 // Just some more stuff",
    ];
    let mut rb = RuntimeBuilder::new_debug(TEST_MEMORY_CELL_LABELS);
    assert!(rb.build_instructions(&instructions, "test").is_ok());
}

#[test]
fn add_label_errors() {
    let mut rb = RuntimeBuilder::new();
    assert_eq!(rb.add_label("x".to_string(), 0), Err(AddLabelError::InstructionsNotSet));
    rb.set_instructions(vec![Instruction::Push]);
    assert_eq!(rb.add_label("x".to_string(), 1), Err(AddLabelError::IndexOutOfBounds));
    assert_eq!(rb.add_label("x".to_string(), 0), Ok(()));
}

#[test]
fn gamma_disabled_and_run_to_end() {
    let mut rb = RuntimeBuilder::new();
    rb.set_runtime_args(RuntimeMemory::new(1, vec![], None, false));
    rb.set_instructions(vec![Instruction::Assign(TargetType::Gamma, Value::Constant(1))]);
    assert_eq!(rb.build().err(), Some(RuntimeBuildError::GammaDisabled));

    let program = "a := 2\nloop: a := a * 3\nif a < 50 then goto loop\npush\nend:";
    let mut rt = RuntimeBuilder::from_program(&lines_of(program), "test").unwrap().build().unwrap();
    assert_eq!(rt.run().ok(), Some(true));
    assert!(rt.finished());
    assert_eq!(rt.runtime_memory().accumulators.get(0), Some(Some(54)));
    assert_eq!(rt.runtime_memory().stack, vec![54]);
    rt.reset();
    assert_eq!(rt.runtime_memory().accumulators.get(0), Some(None));
    assert!(rt.runtime_memory().stack.is_empty());
}
