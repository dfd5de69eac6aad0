use alpha_tui::base::Operation;
use alpha_tui::instructions::{Instruction, TargetType, Value};
use alpha_tui::runtime::storage::{IdMap, NameMap};
use alpha_tui::runtime::{ControlFlow, RuntimeArgs, RuntimeSettings};

/// Used to set the available memory cells during testing.
const TEST_MEMORY_CELL_LABELS: &[&str] = &[
    "a", "b", "c", "d", "e", "f", "w", "x", "y", "z", "h1", "h2", "h3", "h4",
];

/// Memory with the accumulators 0 to 2 and the memory cells h1 and h2.
fn setup_runtime_args() -> RuntimeArgs {
    let mut args = RuntimeArgs::new_debug(TEST_MEMORY_CELL_LABELS);
    args.memory_cells = NameMap::new();
    args.memory_cells.insert("h1".to_string(), None);
    args.memory_cells.insert("h2".to_string(), None);
    args.accumulators = IdMap::new();
    args.accumulators.insert(0, None);
    args.accumulators.insert(1, None);
    args.accumulators.insert(2, None);
    args
}

fn run_on(i: Instruction, args: &mut RuntimeArgs) {
    let mut control_flow = ControlFlow::new();
    i.run(args, &mut control_flow, &RuntimeSettings::default()).unwrap();
}

fn acc0(args: &RuntimeArgs) -> i32 {
    args.accumulators.get(0).unwrap().unwrap()
}

#[test]
fn new_backend_test_parse_assign_accumulator_from_constant() {
    assert_eq!(
        Instruction::try_from("a0 := 5"),
        Ok(Instruction::Assign(TargetType::Accumulator(0), Value::Constant(5)))
    );
}

#[test]
fn new_backend_test_run_assign_accumulator_from_constant() {
    let mut args = setup_runtime_args();
    run_on(Instruction::Assign(TargetType::Accumulator(0), Value::Constant(10)), &mut args);
    assert_eq!(acc0(&args), 10);
}

#[test]
fn new_backend_test_parse_assign_accumulator_from_accumulator() {
    assert_eq!(
        Instruction::try_from("a0 := a1"),
        Ok(Instruction::Assign(TargetType::Accumulator(0), Value::Accumulator(1)))
    );
}

#[test]
fn new_backend_test_run_assign_accumulator_from_accumulator() {
    let mut args = setup_runtime_args();
    args.accumulators.insert(1, Some(10));
    run_on(Instruction::Assign(TargetType::Accumulator(0), Value::Accumulator(1)), &mut args);
    assert_eq!(acc0(&args), 10);
}

#[test]
fn new_backend_test_parse_assign_accumulator_from_memory_cell() {
    assert_eq!(
        Instruction::try_from("a0 := p(h1)"),
        Ok(Instruction::Assign(TargetType::Accumulator(0), Value::MemoryCell("h1".to_string())))
    );
}

#[test]
fn new_backend_test_run_assign_accumulator_from_memory_cell() {
    let mut args = setup_runtime_args();
    args.memory_cells.insert("h1".to_string(), Some(10));
    run_on(Instruction::Assign(TargetType::Accumulator(0), Value::MemoryCell("h1".to_string())), &mut args);
    assert_eq!(acc0(&args), 10);
}

#[test]
fn new_backend_test_parse_calc_accumulator_with_memory_cells() {
    assert_eq!(
        Instruction::try_from("a0 := p(h1) / p(h2)"),
        Ok(Instruction::Calc(
            TargetType::Accumulator(0),
            Value::MemoryCell("h1".to_string()),
            Operation::Div,
            Value::MemoryCell("h2".to_string())
        ))
    );
}

#[test]
fn new_backend_test_run_calc_accumulator_with_memory_cells() {
    let mut args = setup_runtime_args();
    args.memory_cells.insert("h1".to_string(), Some(10));
    args.memory_cells.insert("h2".to_string(), Some(10));
    run_on(
        Instruction::Calc(
            TargetType::Accumulator(0),
            Value::MemoryCell("h1".to_string()),
            Operation::Mul,
            Value::MemoryCell("h2".to_string()),
        ),
        &mut args,
    );
    assert_eq!(acc0(&args), 100);
}

#[test]
fn new_backend_test_parse_calc_accumulator_with_memory_cell_constant() {
    assert_eq!(
        Instruction::try_from("a0 := p(h1) + 5"),
        Ok(Instruction::Calc(
            TargetType::Accumulator(0),
            Value::MemoryCell("h1".to_string()),
            Operation::Add,
            Value::Constant(5)
        ))
    );
}

#[test]
fn new_backend_test_run_calc_accumulator_with_memory_cell_constant() {
    let mut args = setup_runtime_args();
    args.memory_cells.insert("h1".to_string(), Some(10));
    run_on(
        Instruction::Calc(
            TargetType::Accumulator(0),
            Value::MemoryCell("h1".to_string()),
            Operation::Mul,
            Value::Constant(10),
        ),
        &mut args,
    );
    assert_eq!(acc0(&args), 100);
}

#[test]
fn new_backend_test_parse_calc_accumulator_with_memory_cell_accumulator() {
    assert_eq!(
        Instruction::try_from("a0 := p(h1) - a0"),
        Ok(Instruction::Calc(
            TargetType::Accumulator(0),
            Value::MemoryCell("h1".to_string()),
            Operation::Sub,
            Value::Accumulator(0)
        ))
    );
}

#[test]
fn new_backend_test_run_calc_accumulator_with_memory_cell_accumulator() {
    let mut args = setup_runtime_args();
    args.memory_cells.insert("h1".to_string(), Some(10));
    args.accumulators.insert(1, Some(10));
    run_on(
        Instruction::Calc(
            TargetType::Accumulator(0),
            Value::MemoryCell("h1".to_string()),
            Operation::Sub,
            Value::Accumulator(1),
        ),
        &mut args,
    );
    assert_eq!(acc0(&args), 0);
}

#[test]
fn new_backend_test_parse_calc_accumulator_with_accumulators() {
    assert_eq!(
        Instruction::try_from("a0 := a1 * a2"),
        Ok(Instruction::Calc(
            TargetType::Accumulator(0),
            Value::Accumulator(1),
            Operation::Mul,
            Value::Accumulator(2)
        ))
    );
}

#[test]
fn new_backend_test_run_calc_accumulator_with_accumulators() {
    let mut args = setup_runtime_args();
    args.accumulators.insert(1, Some(10));
    args.accumulators.insert(2, Some(5));
    run_on(
        Instruction::Calc(TargetType::Accumulator(0), Value::Accumulator(1), Operation::Div, Value::Accumulator(2)),
        &mut args,
    );
    assert_eq!(acc0(&args), 2);
}

#[test]
fn new_backend_test_parse_calc_accumulator_with_accumulator_constant() {
    assert_eq!(
        Instruction::try_from("a0 := a1 * 5"),
        Ok(Instruction::Calc(
            TargetType::Accumulator(0),
            Value::Accumulator(1),
            Operation::Mul,
            Value::Constant(5)
        ))
    );
}

#[test]
fn new_backend_test_run_calc_accumulator_with_accumulator_constant() {
    let mut args = setup_runtime_args();
    args.accumulators.insert(1, Some(10));
    run_on(
        Instruction::Calc(TargetType::Accumulator(0), Value::Accumulator(1), Operation::Add, Value::Constant(5)),
        &mut args,
    );
    assert_eq!(acc0(&args), 15);
}

#[test]
fn new_backend_test_parse_calc_accumulator_with_accumulator_memory_cell() {
    assert_eq!(
        Instruction::try_from("a0 := a1 * p(a)"),
        Ok(Instruction::Calc(
            TargetType::Accumulator(0),
            Value::Accumulator(1),
            Operation::Mul,
            Value::MemoryCell("a".to_string())
        ))
    );
}

#[test]
fn new_backend_test_run_calc_accumulator_with_accumulator_memory_cell() {
    let mut args = setup_runtime_args();
    args.accumulators.insert(1, Some(10));
    args.memory_cells.insert("h1".to_string(), Some(5));
    run_on(
        Instruction::Calc(
            TargetType::Accumulator(0),
            Value::Accumulator(1),
            Operation::Sub,
            Value::MemoryCell("h1".to_string()),
        ),
        &mut args,
    );
    assert_eq!(acc0(&args), 5);
}
