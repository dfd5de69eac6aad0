use alpha_tui::base::{Comparison, Operation};
use alpha_tui::instructions::notation::{
    Identifier, ACCUMULATOR_IDENTIFIER, COMPARISON_IDENTIFIER, CONSTANT_IDENTIFIER,
    GAMMA_IDENTIFIER, INDEX_MEMORY_CELL_IDENTIFIER, MEMORY_CELL_IDENTIFIER, OPERATOR_IDENTIFIER,
};
use alpha_tui::instructions::semantics::{
    assign_index_memory_cell, assign_index_memory_cell_from_value,
};
use alpha_tui::instructions::{IndexMemoryCellIndexType, Instruction, TargetType, Value};
use alpha_tui::runtime::builder::RuntimeBuilder;
use alpha_tui::runtime::error_handling::RuntimeErrorType;
use alpha_tui::runtime::storage::{IdMap, NameMap};
use alpha_tui::runtime::{ControlFlow, Runtime, RuntimeMemory, RuntimeSettings};

/// Used to set the available memory cells during testing.
const TEST_MEMORY_CELL_LABELS: &[&str] = &[
    "a", "b", "c", "d", "e", "f", "w", "x", "y", "z", "h1", "h2", "h3", "h4",
];

fn setup_runtime_settings() -> RuntimeSettings {
    RuntimeSettings::default()
}

/// Memory with the accumulators 0 to 2, the gamma accumulator and the memory cells h1 and h2.
fn setup_runtime_memory() -> RuntimeMemory {
    let mut runtime_memory = RuntimeMemory::new_debug(TEST_MEMORY_CELL_LABELS);
    runtime_memory.memory_cells = NameMap::new();
    runtime_memory.memory_cells.insert("h1".to_string(), None);
    runtime_memory.memory_cells.insert("h2".to_string(), None);
    runtime_memory.accumulators = IdMap::new();
    runtime_memory.accumulators.insert(0, None);
    runtime_memory.accumulators.insert(1, None);
    runtime_memory.accumulators.insert(2, None);
    runtime_memory
}

/// Memory where no memory cells or accumulators are set.
fn setup_empty_runtime_memory() -> RuntimeMemory {
    let mut runtime_memory = RuntimeMemory::new_debug(TEST_MEMORY_CELL_LABELS);
    runtime_memory.accumulators = IdMap::new();
    runtime_memory.memory_cells = NameMap::new();
    runtime_memory
}

fn acc(m: &RuntimeMemory, id: usize) -> i32 {
    m.accumulators.get(id).unwrap().unwrap()
}

fn cell(m: &RuntimeMemory, name: &str) -> i32 {
    m.memory_cells.get(&name.to_string()).unwrap().unwrap()
}

fn set_acc(m: &mut RuntimeMemory, id: usize, v: i32) {
    m.accumulators.insert(id, Some(v));
}

fn set_cell(m: &mut RuntimeMemory, name: &str, v: i32) {
    m.memory_cells.insert(name.to_string(), Some(v));
}

fn runtime_from_str(input: &str) -> Runtime {
    let lines: Vec<String> = input.split('\n').map(|f| f.to_string()).collect();
    RuntimeBuilder::from_program(&lines, "test").unwrap().build().unwrap()
}

fn run(i: Instruction, m: &mut RuntimeMemory, cf: &mut ControlFlow) -> Result<(), RuntimeErrorType> {
    i.run(m, cf, &setup_runtime_settings())
}

#[test]
fn test_instruction_comparison() {
    assert_eq!(
        Instruction::JumpIf(Value::Constant(0), Comparison::Eq, Value::Constant(0), "label".to_string())
            .comparison(),
        Some(&Comparison::Eq)
    );
    assert_eq!(Instruction::Assign(TargetType::Gamma, Value::Constant(0)).comparison(), None);
}

#[test]
fn test_instruction_operation() {
    assert_eq!(
        Instruction::Calc(TargetType::Gamma, Value::Constant(0), Operation::Add, Value::Constant(0))
            .operation(),
        Some(&Operation::Add)
    );
    assert_eq!(Instruction::StackOp(Operation::Add).operation(), Some(&Operation::Add));
    assert_eq!(Instruction::Assign(TargetType::Gamma, Value::Constant(0)).operation(), None);
}

#[test]
fn tests_test_parse_assign_accumulator_from_constant() {
    assert_eq!(
        Instruction::try_from("a0 := 5"),
        Ok(Instruction::Assign(TargetType::Accumulator(0), Value::Constant(5)))
    );
    assert_eq!(
        Instruction::try_from("a := 5"),
        Ok(Instruction::Assign(TargetType::Accumulator(0), Value::Constant(5)))
    );
    assert_eq!(
        Instruction::try_from("α0 := 5"),
        Ok(Instruction::Assign(TargetType::Accumulator(0), Value::Constant(5)))
    );
}

#[test]
fn tests_test_run_assign_accumulator_from_constant() {
    let mut m = setup_runtime_memory();
    let mut cf = ControlFlow::new();
    run(Instruction::Assign(TargetType::Accumulator(0), Value::Constant(10)), &mut m, &mut cf).unwrap();
    assert_eq!(acc(&m, 0), 10);
}

#[test]
fn tests_test_parse_assign_accumulator_from_accumulator() {
    assert_eq!(
        Instruction::try_from("a0 := a1"),
        Ok(Instruction::Assign(TargetType::Accumulator(0), Value::Accumulator(1)))
    );
}

#[test]
fn test_parse_assign_memory_cell_from_constant() {
    assert_eq!(
        Instruction::try_from("ρ(h1) := 5"),
        Ok(Instruction::Assign(TargetType::MemoryCell("h1".to_string()), Value::Constant(5)))
    );
}

#[test]
fn tests_test_run_assign_accumulator_from_accumulator() {
    let mut m = setup_runtime_memory();
    let mut cf = ControlFlow::new();
    set_acc(&mut m, 1, 10);
    run(Instruction::Assign(TargetType::Accumulator(0), Value::Accumulator(1)), &mut m, &mut cf).unwrap();
    assert_eq!(acc(&m, 0), 10);
}

#[test]
fn tests_test_parse_assign_accumulator_from_memory_cell() {
    assert_eq!(
        Instruction::try_from("a0 := p(h1)"),
        Ok(Instruction::Assign(TargetType::Accumulator(0), Value::MemoryCell("h1".to_string())))
    );
}

#[test]
fn tests_test_run_assign_accumulator_from_memory_cell() {
    let mut m = setup_runtime_memory();
    let mut cf = ControlFlow::new();
    set_cell(&mut m, "h1", 10);
    run(
        Instruction::Assign(TargetType::Accumulator(0), Value::MemoryCell("h1".to_string())),
        &mut m,
        &mut cf,
    )
    .unwrap();
    assert_eq!(acc(&m, 0), 10);
}

#[test]
fn test_parse_assign_gamma() {
    assert_eq!(
        Instruction::try_from("y := 5"),
        Ok(Instruction::Assign(TargetType::Gamma, Value::Constant(5)))
    );
    assert_eq!(
        Instruction::try_from("γ := 5"),
        Ok(Instruction::Assign(TargetType::Gamma, Value::Constant(5)))
    );
}

#[test]
fn test_run_assign_gamma() {
    let mut m = setup_runtime_memory();
    let mut cf = ControlFlow::new();
    m.gamma = Some(None);
    run(Instruction::Assign(TargetType::Gamma, Value::Constant(5)), &mut m, &mut cf).unwrap();
    assert_eq!(m.gamma, Some(Some(5)));
}

#[test]
fn test_parse_calc_gamma() {
    assert_eq!(
        Instruction::try_from("y := y + y"),
        Ok(Instruction::Calc(TargetType::Gamma, Value::Gamma, Operation::Add, Value::Gamma))
    );
    assert_eq!(
        Instruction::try_from("γ := γ + γ"),
        Ok(Instruction::Calc(TargetType::Gamma, Value::Gamma, Operation::Add, Value::Gamma))
    );
}

#[test]
fn test_run_calc_gamma() {
    let mut m = setup_runtime_memory();
    let mut cf = ControlFlow::new();
    m.gamma = Some(None);
    run(
        Instruction::Calc(TargetType::Gamma, Value::Constant(5), Operation::Add, Value::Constant(5)),
        &mut m,
        &mut cf,
    )
    .unwrap();
    assert_eq!(m.gamma, Some(Some(10)));
    run(
        Instruction::Calc(TargetType::Gamma, Value::Gamma, Operation::Add, Value::Gamma),
        &mut m,
        &mut cf,
    )
    .unwrap();
    assert_eq!(m.gamma, Some(Some(20)));
}

#[test]
fn test_parse_assign_index_memory_cell() {
    assert_eq!(
        Instruction::try_from("p(5) := 5"),
        Ok(Instruction::Assign(
            TargetType::IndexMemoryCell(IndexMemoryCellIndexType::Direct(5)),
            Value::Constant(5)
        ))
    );
    assert_eq!(
        Instruction::try_from("p(p(5)) := 5"),
        Ok(Instruction::Assign(
            TargetType::IndexMemoryCell(IndexMemoryCellIndexType::Index(5)),
            Value::Constant(5)
        ))
    );
    assert_eq!(
        Instruction::try_from("p(y) := 5"),
        Ok(Instruction::Assign(
            TargetType::IndexMemoryCell(IndexMemoryCellIndexType::Gamma),
            Value::Constant(5)
        ))
    );
    assert_eq!(
        Instruction::try_from("p(p(h1)) := 5"),
        Ok(Instruction::Assign(
            TargetType::IndexMemoryCell(IndexMemoryCellIndexType::MemoryCell("h1".to_string())),
            Value::Constant(5)
        ))
    );
    assert_eq!(
        Instruction::try_from("p(a0) := 5"),
        Ok(Instruction::Assign(
            TargetType::IndexMemoryCell(IndexMemoryCellIndexType::Accumulator(0)),
            Value::Constant(5)
        ))
    );
}

fn check_imc_instruction(make: fn(TargetType) -> Instruction, expected: i32) -> bool {
    let mut m = setup_runtime_memory();
    let mut cf = ControlFlow::new();
    run(make(TargetType::IndexMemoryCell(IndexMemoryCellIndexType::Direct(5))), &mut m, &mut cf).unwrap();
    assert_eq!(m.index_memory_cells.get(5), Some(Some(expected)));

    m.index_memory_cells.insert(1, Some(1));
    run(make(TargetType::IndexMemoryCell(IndexMemoryCellIndexType::Index(1))), &mut m, &mut cf).unwrap();
    assert_eq!(m.index_memory_cells.get(1), Some(Some(expected)));

    m.index_memory_cells.insert(2, Some(1));
    set_cell(&mut m, "h1", 2);
    run(
        make(TargetType::IndexMemoryCell(IndexMemoryCellIndexType::MemoryCell("h1".to_string()))),
        &mut m,
        &mut cf,
    )
    .unwrap();
    assert_eq!(m.index_memory_cells.get(2), Some(Some(expected)));

    m.index_memory_cells.insert(3, Some(4));
    set_acc(&mut m, 0, 3);
    run(make(TargetType::IndexMemoryCell(IndexMemoryCellIndexType::Accumulator(0))), &mut m, &mut cf).unwrap();
    assert_eq!(m.index_memory_cells.get(3), Some(Some(expected)));

    m.index_memory_cells.insert(4, Some(0));
    m.gamma = Some(Some(4));
    run(make(TargetType::IndexMemoryCell(IndexMemoryCellIndexType::Gamma)), &mut m, &mut cf).unwrap();
    assert_eq!(m.index_memory_cells.get(4), Some(Some(expected)));
    true
}

#[test]
fn test_run_assign_index_memory_cell() {
    assert!(check_imc_instruction(|t| Instruction::Assign(t, Value::Constant(5)), 5));
}

#[test]
fn test_parse_calc_index_memory_cell() {
    assert_eq!(
        Instruction::try_from("p(5) := 1 + 3"),
        Ok(Instruction::Calc(
            TargetType::IndexMemoryCell(IndexMemoryCellIndexType::Direct(5)),
            Value::Constant(1),
            Operation::Add,
            Value::Constant(3)
        ))
    );
    assert_eq!(
        Instruction::try_from("p(p(5)) := 1 + 3"),
        Ok(Instruction::Calc(
            TargetType::IndexMemoryCell(IndexMemoryCellIndexType::Index(5)),
            Value::Constant(1),
            Operation::Add,
            Value::Constant(3)
        ))
    );
    assert_eq!(
        Instruction::try_from("p(y) := 5 + 5"),
        Ok(Instruction::Calc(
            TargetType::IndexMemoryCell(IndexMemoryCellIndexType::Gamma),
            Value::Constant(5),
            Operation::Add,
            Value::Constant(5)
        ))
    );
    assert_eq!(
        Instruction::try_from("p(p(h1)) := 1 + 3"),
        Ok(Instruction::Calc(
            TargetType::IndexMemoryCell(IndexMemoryCellIndexType::MemoryCell("h1".to_string())),
            Value::Constant(1),
            Operation::Add,
            Value::Constant(3)
        ))
    );
    assert_eq!(
        Instruction::try_from("p(a0) := 5 + 5"),
        Ok(Instruction::Calc(
            TargetType::IndexMemoryCell(IndexMemoryCellIndexType::Accumulator(0)),
            Value::Constant(5),
            Operation::Add,
            Value::Constant(5)
        ))
    );
}

#[test]
fn test_run_calc_index_memory_cell() {
    assert!(check_imc_instruction(
        |t| Instruction::Calc(t, Value::Constant(5), Operation::Add, Value::Constant(5)),
        10,
    ));
}

#[test]
fn tests_test_parse_calc_accumulator_with_memory_cells() {
    assert_eq!(
        Instruction::try_from("a0 := p(h1) / p(h2)"),
        Ok(Instruction::Calc(
            TargetType::Accumulator(0),
            Value::MemoryCell("h1".to_string()),
            Operation::Div,
            Value::MemoryCell("h2".to_string())
        ))
    );
}

#[test]
fn tests_test_run_calc_accumulator_with_memory_cells() {
    let mut m = setup_runtime_memory();
    let mut cf = ControlFlow::new();
    set_cell(&mut m, "h1", 10);
    set_cell(&mut m, "h2", 10);
    run(
        Instruction::Calc(
            TargetType::Accumulator(0),
            Value::MemoryCell("h1".to_string()),
            Operation::Mul,
            Value::MemoryCell("h2".to_string()),
        ),
        &mut m,
        &mut cf,
    )
    .unwrap();
    assert_eq!(acc(&m, 0), 100);
}

#[test]
fn tests_test_parse_calc_accumulator_with_memory_cell_constant() {
    assert_eq!(
        Instruction::try_from("a0 := p(h1) + 5"),
        Ok(Instruction::Calc(
            TargetType::Accumulator(0),
            Value::MemoryCell("h1".to_string()),
            Operation::Add,
            Value::Constant(5)
        ))
    );
}

#[test]
fn tests_test_run_calc_accumulator_with_memory_cell_constant() {
    let mut m = setup_runtime_memory();
    let mut cf = ControlFlow::new();
    set_cell(&mut m, "h1", 10);
    run(
        Instruction::Calc(
            TargetType::Accumulator(0),
            Value::MemoryCell("h1".to_string()),
            Operation::Mul,
            Value::Constant(10),
        ),
        &mut m,
        &mut cf,
    )
    .unwrap();
    assert_eq!(acc(&m, 0), 100);
}

#[test]
fn tests_test_parse_calc_accumulator_with_memory_cell_accumulator() {
    assert_eq!(
        Instruction::try_from("a0 := p(h1) - a0"),
        Ok(Instruction::Calc(
            TargetType::Accumulator(0),
            Value::MemoryCell("h1".to_string()),
            Operation::Sub,
            Value::Accumulator(0)
        ))
    );
    assert_eq!(
        Instruction::try_from("a := p(h1) - a"),
        Ok(Instruction::Calc(
            TargetType::Accumulator(0),
            Value::MemoryCell("h1".to_string()),
            Operation::Sub,
            Value::Accumulator(0)
        ))
    );
}

#[test]
fn tests_test_run_calc_accumulator_with_memory_cell_accumulator() {
    let mut m = setup_runtime_memory();
    let mut cf = ControlFlow::new();
    set_cell(&mut m, "h1", 10);
    set_acc(&mut m, 1, 10);
    run(
        Instruction::Calc(
            TargetType::Accumulator(0),
            Value::MemoryCell("h1".to_string()),
            Operation::Sub,
            Value::Accumulator(1),
        ),
        &mut m,
        &mut cf,
    )
    .unwrap();
    assert_eq!(acc(&m, 0), 0);
}

#[test]
fn tests_test_parse_calc_accumulator_with_accumulators() {
    assert_eq!(
        Instruction::try_from("a0 := a1 * a2"),
        Ok(Instruction::Calc(
            TargetType::Accumulator(0),
            Value::Accumulator(1),
            Operation::Mul,
            Value::Accumulator(2)
        ))
    );
}

#[test]
fn tests_test_run_calc_accumulator_with_accumulators() {
    let mut m = setup_runtime_memory();
    let mut cf = ControlFlow::new();
    set_acc(&mut m, 1, 10);
    set_acc(&mut m, 2, 5);
    run(
        Instruction::Calc(TargetType::Accumulator(0), Value::Accumulator(1), Operation::Div, Value::Accumulator(2)),
        &mut m,
        &mut cf,
    )
    .unwrap();
    assert_eq!(acc(&m, 0), 2);
}

#[test]
fn tests_test_parse_calc_accumulator_with_accumulator_constant() {
    assert_eq!(
        Instruction::try_from("a0 := a1 * 5"),
        Ok(Instruction::Calc(
            TargetType::Accumulator(0),
            Value::Accumulator(1),
            Operation::Mul,
            Value::Constant(5)
        ))
    );
}

#[test]
fn tests_test_run_calc_accumulator_with_accumulator_constant() {
    let mut m = setup_runtime_memory();
    let mut cf = ControlFlow::new();
    set_acc(&mut m, 1, 10);
    run(
        Instruction::Calc(TargetType::Accumulator(0), Value::Accumulator(1), Operation::Add, Value::Constant(5)),
        &mut m,
        &mut cf,
    )
    .unwrap();
    assert_eq!(acc(&m, 0), 15);
}

#[test]
fn tests_test_parse_calc_accumulator_with_accumulator_memory_cell() {
    assert_eq!(
        Instruction::try_from("a0 := a1 * p(h1)"),
        Ok(Instruction::Calc(
            TargetType::Accumulator(0),
            Value::Accumulator(1),
            Operation::Mul,
            Value::MemoryCell("h1".to_string())
        ))
    );
    assert_eq!(
        Instruction::try_from("a0 := a1 * p(a)"),
        Ok(Instruction::Calc(
            TargetType::Accumulator(0),
            Value::Accumulator(1),
            Operation::Mul,
            Value::MemoryCell("a".to_string())
        ))
    );
}

#[test]
fn tests_test_run_calc_accumulator_with_accumulator_memory_cell() {
    let mut m = setup_runtime_memory();
    let mut cf = ControlFlow::new();
    set_acc(&mut m, 1, 10);
    set_cell(&mut m, "h1", 5);
    run(
        Instruction::Calc(
            TargetType::Accumulator(0),
            Value::Accumulator(1),
            Operation::Sub,
            Value::MemoryCell("h1".to_string()),
        ),
        &mut m,
        &mut cf,
    )
    .unwrap();
    assert_eq!(acc(&m, 0), 5);
}

#[test]
fn test_run_cmp() {
    let mut m = setup_runtime_memory();
    let mut cf = ControlFlow::new();
    cf.instruction_labels.insert("loop".to_string(), 20);
    run(Instruction::Assign(TargetType::Accumulator(0), Value::Constant(20)), &mut m, &mut cf).unwrap();
    run(
        Instruction::JumpIf(Value::Accumulator(0), Comparison::Lt, Value::Constant(40), "loop".to_string()),
        &mut m,
        &mut cf,
    )
    .unwrap();
    assert_eq!(cf.next_instruction_index, 20);
    cf.next_instruction_index = 0;
    run(
        Instruction::JumpIf(Value::Accumulator(0), Comparison::Eq, Value::Constant(40), "loop".to_string()),
        &mut m,
        &mut cf,
    )
    .unwrap();
    assert_eq!(cf.next_instruction_index, 0);
    assert!(run(
        Instruction::JumpIf(Value::Accumulator(0), Comparison::Lt, Value::Constant(40), "none".to_string()),
        &mut m,
        &mut cf
    )
    .is_err());
    assert!(run(
        Instruction::JumpIf(Value::Accumulator(0), Comparison::Eq, Value::Constant(40), "none".to_string()),
        &mut m,
        &mut cf
    )
    .is_ok());
}

#[test]
fn tests_test_parse_cmp() {
    assert_eq!(
        Instruction::try_from("if a0 != a1 then goto loop"),
        Ok(Instruction::JumpIf(
            Value::Accumulator(0),
            Comparison::Neq,
            Value::Accumulator(1),
            "loop".to_string()
        ))
    );
}

#[test]
fn tests_test_parse_goto() {
    assert_eq!(Instruction::try_from("goto loop"), Ok(Instruction::Goto("loop".to_string())));
}

#[test]
fn test_run_goto() {
    let mut m = setup_empty_runtime_memory();
    let mut cf = ControlFlow::new();
    cf.instruction_labels.insert("loop".to_string(), 5);
    run(Instruction::Goto("loop".to_string()), &mut m, &mut cf).unwrap();
    assert_eq!(cf.next_instruction_index, 5);
}

#[test]
fn tests_test_stack() {
    let mut m = setup_runtime_memory();
    let mut cf = ControlFlow::new();
    run(Instruction::Assign(TargetType::Accumulator(0), Value::Constant(5)), &mut m, &mut cf).unwrap();
    run(Instruction::Push, &mut m, &mut cf).unwrap();
    run(Instruction::Assign(TargetType::Accumulator(0), Value::Constant(10)), &mut m, &mut cf).unwrap();
    run(Instruction::Push, &mut m, &mut cf).unwrap();
    assert_eq!(m.stack, vec![5, 10]);
    run(Instruction::Pop, &mut m, &mut cf).unwrap();
    assert_eq!(acc(&m, 0), 10);
    run(Instruction::Pop, &mut m, &mut cf).unwrap();
    assert_eq!(acc(&m, 0), 5);
    assert_eq!(m.stack.len(), 0);
}

#[test]
fn tests_test_parse_push() {
    assert_eq!(Instruction::try_from("push"), Ok(Instruction::Push));
}

#[test]
fn tests_test_parse_pop() {
    assert_eq!(Instruction::try_from("pop"), Ok(Instruction::Pop));
}

fn run_stack_op(op: Operation, result: i32) -> bool {
    let mut m = setup_runtime_memory();
    let mut cf = ControlFlow::new();
    set_acc(&mut m, 0, 10);
    run(Instruction::Push, &mut m, &mut cf).unwrap();
    set_acc(&mut m, 0, 5);
    run(Instruction::Push, &mut m, &mut cf).unwrap();
    run(Instruction::StackOp(op), &mut m, &mut cf).unwrap();
    assert_eq!(m.stack.pop(), Some(result));
    true
}

#[test]
fn test_run_stack_op() {
    assert!(run_stack_op(Operation::Add, 15));
    assert!(run_stack_op(Operation::Sub, 5));
    assert!(run_stack_op(Operation::Mul, 50));
    assert!(run_stack_op(Operation::Div, 2));
    assert!(run_stack_op(Operation::Mod, 0));
}

#[test]
fn test_parse_stack_op() {
    assert_eq!(Instruction::try_from("stack+"), Ok(Instruction::StackOp(Operation::Add)));
    assert_eq!(Instruction::try_from("stack-"), Ok(Instruction::StackOp(Operation::Sub)));
    assert_eq!(Instruction::try_from("stack*"), Ok(Instruction::StackOp(Operation::Mul)));
    assert_eq!(Instruction::try_from("stack/"), Ok(Instruction::StackOp(Operation::Div)));
    assert_eq!(Instruction::try_from("stack%"), Ok(Instruction::StackOp(Operation::Mod)));
    assert_eq!(Instruction::try_from("stack +"), Ok(Instruction::StackOp(Operation::Add)));
    assert_eq!(Instruction::try_from("stack -"), Ok(Instruction::StackOp(Operation::Sub)));
    assert_eq!(Instruction::try_from("stack *"), Ok(Instruction::StackOp(Operation::Mul)));
    assert_eq!(Instruction::try_from("stack /"), Ok(Instruction::StackOp(Operation::Div)));
    assert_eq!(Instruction::try_from("stack %"), Ok(Instruction::StackOp(Operation::Mod)));
}

#[test]
fn test_run_call() {
    let mut m = setup_runtime_memory();
    let mut cf = ControlFlow::new();
    cf.instruction_labels.insert("function".to_string(), 10);
    run(Instruction::Call("function".to_string()), &mut m, &mut cf).unwrap();
    assert_eq!(cf.next_instruction_index, 10);
    assert_eq!(cf.call_stack.pop(), Some(0));
}

#[test]
fn test_parse_call() {
    assert_eq!(Instruction::try_from("call function"), Ok(Instruction::Call("function".to_string())));
}

#[test]
fn test_run_return() {
    let mut m = setup_runtime_memory();
    let mut cf = ControlFlow::new();
    cf.instruction_labels.insert("function".to_string(), 10);
    run(Instruction::Call("function".to_string()), &mut m, &mut cf).unwrap();
    run(Instruction::Return, &mut m, &mut cf).unwrap();
    assert_eq!(cf.next_instruction_index, 0);
}

#[test]
fn test_parse_return() {
    assert_eq!(Instruction::try_from("return"), Ok(Instruction::Return));
}

#[test]
fn test_parsing_with_semicolon() {
    assert_eq!(Instruction::try_from("return;"), Ok(Instruction::Return));
    assert_eq!(
        Instruction::try_from("a := 5;"),
        Ok(Instruction::Assign(TargetType::Accumulator(0), Value::Constant(5)))
    );
    assert_eq!(
        Instruction::try_from("a := 5 * 5;"),
        Ok(Instruction::Calc(TargetType::Accumulator(0), Value::Constant(5), Operation::Mul, Value::Constant(5)))
    );
    assert_eq!(Instruction::try_from("call label;"), Ok(Instruction::Call("label".to_string())));
    assert_eq!(Instruction::try_from("goto label;"), Ok(Instruction::Goto("label".to_string())));
}

#[test]
fn test_alternative_assignment_parsing() {
    assert_eq!(
        Instruction::try_from("a = 5;"),
        Ok(Instruction::Assign(TargetType::Accumulator(0), Value::Constant(5)))
    );
    assert_eq!(
        Instruction::try_from("a = 5 * 5;"),
        Ok(Instruction::Calc(TargetType::Accumulator(0), Value::Constant(5), Operation::Mul, Value::Constant(5)))
    );
}

#[test]
fn test_example_program_memory_cells() {
    let instructions = r#"
p(a) := 5
p(b) := 2
p(c) := 3
p(d) := 9
p(w) := 4
p(x) := 8
p(yy) := 3
p(z) := 2
p(h1) := p(a) * p(w)
p(h2) := p(b) * p(yy)
p(h3) := p(a) * p(x)
p(h4) := p(b) * p(z)
p(a) := p(h1) + p(h2)
p(b) := p(h3) + p(h4)
p(h1) := p(c) * p(w)
p(h2) := p(d) * p(yy)
p(h3) := p(c) * p(x)
p(h4) := p(d) * p(z)
p(c) := p(h1) + p(h2)
p(d) := p(h3) + p(h4)
    "#;
    let mut runtime = runtime_from_str(instructions);
    runtime.run().unwrap();
    assert_eq!(cell(runtime.runtime_memory(), "a"), 26);
    assert_eq!(cell(runtime.runtime_memory(), "b"), 44);
    assert_eq!(cell(runtime.runtime_memory(), "c"), 39);
    assert_eq!(cell(runtime.runtime_memory(), "d"), 42);
}

#[test]
fn test_example_program_loop() {
    let program = r#"
a0 := 1
p(a) := 8
loop: a0 := a0 * 2
p(a) := p(a) - 1
a1 := p(a)
if a1 > 0 then goto loop
    "#;
    let mut rt = runtime_from_str(program);
    rt.run().unwrap();
    assert_eq!(acc(rt.runtime_memory(), 0), 256);
}

#[test]
fn test_example_program_functions() {
    let program = r#"
func:
p(h1) := 5
p(h2) := 10
p(h3) := p(h1) * p(h2)
return

main:
call func
a := p(h3)
return
    "#;
    let mut rt = runtime_from_str(program);
    rt.run().unwrap();
    assert_eq!(acc(rt.runtime_memory(), 0), 50);
}

#[test]
fn test_try_target_type_from_string_usize_usize_tuple() {
    assert_eq!(TargetType::try_from((&"a5".to_string(), (0, 4))), Ok(TargetType::Accumulator(5)));
    assert_eq!(
        TargetType::try_from((&"p(h1)".to_string(), (0, 4))),
        Ok(TargetType::MemoryCell("h1".to_string()))
    );
    assert_eq!(
        TargetType::try_from((&"p(10)".to_string(), (0, 4))),
        Ok(TargetType::IndexMemoryCell(IndexMemoryCellIndexType::Direct(10)))
    );
    assert_eq!(
        TargetType::try_from((&"p(p(10))".to_string(), (0, 7))),
        Ok(TargetType::IndexMemoryCell(IndexMemoryCellIndexType::Index(10)))
    );
    assert_eq!(
        TargetType::try_from((&"p(p(h1))".to_string(), (0, 7))),
        Ok(TargetType::IndexMemoryCell(IndexMemoryCellIndexType::MemoryCell("h1".to_string())))
    );
}

#[test]
fn test_try_value_from_string_usize_usize_tuple() {
    assert_eq!(Value::try_from((&"5".to_string(), (0, 4))), Ok(Value::Constant(5)));
    assert_eq!(Value::try_from((&"a5".to_string(), (0, 4))), Ok(Value::Accumulator(5)));
    assert_eq!(Value::try_from((&"p(h1)".to_string(), (0, 4))), Ok(Value::MemoryCell("h1".to_string())));
    assert_eq!(
        Value::try_from((&"p(10)".to_string(), (0, 4))),
        Ok(Value::IndexMemoryCell(IndexMemoryCellIndexType::Direct(10)))
    );
    assert_eq!(
        Value::try_from((&"p(p(10))".to_string(), (0, 7))),
        Ok(Value::IndexMemoryCell(IndexMemoryCellIndexType::Index(10)))
    );
    assert_eq!(
        Value::try_from((&"p(p(h1))".to_string(), (0, 7))),
        Ok(Value::IndexMemoryCell(IndexMemoryCellIndexType::MemoryCell("h1".to_string())))
    );
}

#[test]
fn test_assign_index_memory_cell() {
    let mut m = RuntimeMemory::new_debug(&[&""]);
    let mut s = setup_runtime_settings();
    s.autodetect_index_memory_cells = true;
    assert_eq!(assign_index_memory_cell(&mut m, &s, 0, 5), Ok(()));
    s.autodetect_index_memory_cells = false;
    assert_eq!(
        assign_index_memory_cell(&mut m, &s, 1, 5),
        Err(RuntimeErrorType::IndexMemoryCellDoesNotExist(1))
    );
}

#[test]
fn test_assign_index_memory_cell_from_value() {
    let mut m = RuntimeMemory::new_debug(&[&""]);
    let mut s = setup_runtime_settings();
    s.autodetect_index_memory_cells = true;
    assert_eq!(assign_index_memory_cell_from_value(&mut m, &s, 0, &Value::Constant(5)), Ok(()));
    s.autodetect_index_memory_cells = false;
    assert_eq!(
        assign_index_memory_cell_from_value(&mut m, &s, 1, &Value::Constant(5)),
        Err(RuntimeErrorType::IndexMemoryCellDoesNotExist(1))
    );
}

#[test]
fn test_instruction_display() {
    assert_eq!(
        Instruction::Assign(TargetType::Accumulator(0), Value::Constant(5)).to_string(),
        "a0 := 5".to_string()
    );
    assert_eq!(
        Instruction::Calc(
            TargetType::Accumulator(0),
            Value::Constant(5),
            Operation::Add,
            Value::MemoryCell("h1".to_string())
        )
        .to_string(),
        "a0 := 5 + p(h1)".to_string()
    );
    assert_eq!(Instruction::Call("fun".to_string()).to_string(), "call fun".to_string());
    assert_eq!(Instruction::Goto("loop".to_string()).to_string(), "goto loop".to_string());
    assert_eq!(
        Instruction::JumpIf(
            Value::Accumulator(0),
            Comparison::Eq,
            Value::IndexMemoryCell(IndexMemoryCellIndexType::Direct(0)),
            "loop".to_string()
        )
        .to_string(),
        "if a0 == p(0) then goto loop".to_string()
    );
    assert_eq!(Instruction::Noop.to_string(), "".to_string());
    assert_eq!(Instruction::Pop.to_string(), "pop".to_string());
    assert_eq!(Instruction::Push.to_string(), "push".to_string());
    assert_eq!(Instruction::Return.to_string(), "return".to_string());
    assert_eq!(Instruction::StackOp(Operation::Mul).to_string(), "stack*".to_string());
}

#[test]
fn test_value_display() {
    assert_eq!(Value::Accumulator(0).to_string(), "a0".to_string());
    assert_eq!(Value::Constant(5).to_string(), "5".to_string());
    assert_eq!(Value::Gamma.to_string(), "y".to_string());
    assert_eq!(
        Value::IndexMemoryCell(IndexMemoryCellIndexType::Accumulator(0)).to_string(),
        "p(a0)".to_string()
    );
    assert_eq!(Value::IndexMemoryCell(IndexMemoryCellIndexType::Direct(0)).to_string(), "p(0)".to_string());
    assert_eq!(Value::IndexMemoryCell(IndexMemoryCellIndexType::Gamma).to_string(), "p(y)".to_string());
    assert_eq!(Value::IndexMemoryCell(IndexMemoryCellIndexType::Index(0)).to_string(), "p(p(0))".to_string());
    assert_eq!(
        Value::IndexMemoryCell(IndexMemoryCellIndexType::MemoryCell("h1".to_string())).to_string(),
        "p(p(h1))".to_string()
    );
    assert_eq!(Value::MemoryCell("h1".to_string()).to_string(), "p(h1)".to_string());
}

#[test]
fn test_target_type_display() {
    assert_eq!(TargetType::Accumulator(0).to_string(), "a0".to_string());
    assert_eq!(TargetType::Gamma.to_string(), "y".to_string());
    assert_eq!(
        TargetType::IndexMemoryCell(IndexMemoryCellIndexType::Accumulator(0)).to_string(),
        "p(a0)".to_string()
    );
    assert_eq!(TargetType::IndexMemoryCell(IndexMemoryCellIndexType::Direct(0)).to_string(), "p(0)".to_string());
    assert_eq!(TargetType::IndexMemoryCell(IndexMemoryCellIndexType::Gamma).to_string(), "p(y)".to_string());
    assert_eq!(
        TargetType::IndexMemoryCell(IndexMemoryCellIndexType::Index(0)).to_string(),
        "p(p(0))".to_string()
    );
    assert_eq!(
        TargetType::IndexMemoryCell(IndexMemoryCellIndexType::MemoryCell("h1".to_string())).to_string(),
        "p(p(h1))".to_string()
    );
    assert_eq!(TargetType::MemoryCell("h1".to_string()).to_string(), "p(h1)".to_string());
}

#[test]
fn test_index_memory_cell_index_type_display() {
    assert_eq!(IndexMemoryCellIndexType::Accumulator(0).to_string(), "a0".to_string());
    assert_eq!(IndexMemoryCellIndexType::Direct(0).to_string(), "0".to_string());
    assert_eq!(IndexMemoryCellIndexType::Gamma.to_string(), "y".to_string());
    assert_eq!(IndexMemoryCellIndexType::Index(0).to_string(), "p(0)".to_string());
    assert_eq!(IndexMemoryCellIndexType::MemoryCell("h1".to_string()).to_string(), "p(h1)".to_string());
}

#[test]
fn test_value_instruction_identifier() {
    assert_eq!(Value::Accumulator(0).identifier(), ACCUMULATOR_IDENTIFIER.to_string());
    assert_eq!(Value::Constant(0).identifier(), CONSTANT_IDENTIFIER.to_string());
    assert_eq!(Value::Gamma.identifier(), GAMMA_IDENTIFIER.to_string());
    assert_eq!(
        Value::IndexMemoryCell(IndexMemoryCellIndexType::Accumulator(0)).identifier(),
        MEMORY_CELL_IDENTIFIER.to_string()
    );
    assert_eq!(Value::MemoryCell("h1".to_string()).identifier(), MEMORY_CELL_IDENTIFIER.to_string());
}

#[test]
fn test_target_type_identifier() {
    assert_eq!(TargetType::Accumulator(0).identifier(), ACCUMULATOR_IDENTIFIER.to_string());
    assert_eq!(TargetType::Gamma.identifier(), GAMMA_IDENTIFIER.to_string());
    assert_eq!(TargetType::MemoryCell("h1".to_string()).identifier(), MEMORY_CELL_IDENTIFIER.to_string());
}

#[test]
fn test_target_type_identifier_imc() {
    assert_eq!(
        TargetType::IndexMemoryCell(IndexMemoryCellIndexType::Accumulator(1)).identifier(),
        format!("{}({})", INDEX_MEMORY_CELL_IDENTIFIER, ACCUMULATOR_IDENTIFIER)
    );
    assert_eq!(
        TargetType::IndexMemoryCell(IndexMemoryCellIndexType::Direct(1)).identifier(),
        format!("{}({})", INDEX_MEMORY_CELL_IDENTIFIER, CONSTANT_IDENTIFIER)
    );
    assert_eq!(
        TargetType::IndexMemoryCell(IndexMemoryCellIndexType::Gamma).identifier(),
        format!("{}({})", INDEX_MEMORY_CELL_IDENTIFIER, GAMMA_IDENTIFIER)
    );
    assert_eq!(
        TargetType::IndexMemoryCell(IndexMemoryCellIndexType::Index(1)).identifier(),
        format!(
            "{}({}({}))",
            INDEX_MEMORY_CELL_IDENTIFIER, INDEX_MEMORY_CELL_IDENTIFIER, CONSTANT_IDENTIFIER
        )
    );
    assert_eq!(
        TargetType::IndexMemoryCell(IndexMemoryCellIndexType::MemoryCell("h1".to_string())).identifier(),
        format!("{}({})", INDEX_MEMORY_CELL_IDENTIFIER, MEMORY_CELL_IDENTIFIER)
    );
}

#[test]
fn test_comparison_identifier() {
    assert_eq!(Comparison::Eq.identifier(), COMPARISON_IDENTIFIER);
}

#[test]
fn test_operation_identifier() {
    assert_eq!(Operation::Add.identifier(), OPERATOR_IDENTIFIER);
}

#[test]
fn test_instruction_identifier() {
    assert_eq!(
        Instruction::Assign(TargetType::Accumulator(0), Value::Accumulator(0)).identifier(),
        "A := A".to_string()
    );
    assert_eq!(
        Instruction::Calc(
            TargetType::MemoryCell("h1".to_string()),
            Value::Constant(5),
            Operation::Add,
            Value::IndexMemoryCell(IndexMemoryCellIndexType::Accumulator(0))
        )
        .identifier(),
        "M := C OP M".to_string()
    );
    assert_eq!(Instruction::Call("label".to_string()).identifier(), "call".to_string());
    assert_eq!(Instruction::Goto("loop".to_string()).identifier(), "goto".to_string());
    assert_eq!(
        Instruction::JumpIf(Value::Gamma, Comparison::Gt, Value::MemoryCell("h1".to_string()), "label".to_string())
            .identifier(),
        "if Y CMP M then goto".to_string()
    );
    assert_eq!(Instruction::Noop.identifier(), "NOOP".to_string());
    assert_eq!(Instruction::Pop.identifier(), "pop".to_string());
    assert_eq!(Instruction::Push.identifier(), "push".to_string());
    assert_eq!(Instruction::Return.identifier(), "return".to_string());
    assert_eq!(Instruction::StackOp(Operation::Add).identifier(), "stackOP".to_string());
}

#[test]
fn test_instruction_identifier_imc() {
    let id = |t: IndexMemoryCellIndexType| {
        Instruction::Assign(TargetType::IndexMemoryCell(t), Value::Accumulator(0)).identifier()
    };
    assert_eq!(id(IndexMemoryCellIndexType::Accumulator(0)), "M(A) := A".to_string());
    assert_eq!(id(IndexMemoryCellIndexType::Direct(0)), "M(C) := A".to_string());
    assert_eq!(id(IndexMemoryCellIndexType::Gamma), "M(Y) := A".to_string());
    assert_eq!(id(IndexMemoryCellIndexType::Index(1)), "M(M(C)) := A".to_string());
    assert_eq!(id(IndexMemoryCellIndexType::MemoryCell("h1".to_string())), "M(M) := A".to_string());
}
