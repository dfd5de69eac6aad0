use alpha_tui::base::{Accumulator, Comparison, MemoryCell, Operation};
use alpha_tui::cli::CliHint;
use alpha_tui::runtime::error_handling::{CalcError, RuntimeErrorType};

#[test]
fn test_accumultor_display() {
    let mut acc = Accumulator::new(0);
    acc.data = Some(5);
    assert_eq!(acc.to_string(), " 0: 5");
    acc.data = None;
    assert_eq!(acc.to_string(), " 0: None");
}

#[test]
fn test_memory_cell_display() {
    let mut acc = MemoryCell::new("a");
    acc.data = Some(5);
    assert_eq!(acc.to_string(), "a : 5");
    acc.data = None;
    assert_eq!(acc.to_string(), "a : None");
}

#[test]
fn test_comparison() {
    assert!(Comparison::Lt.cmp(5, 10));
    assert!(Comparison::Le.cmp(5, 10));
    assert!(Comparison::Le.cmp(5, 5));
    assert!(Comparison::Eq.cmp(5, 5));
    assert!(Comparison::Neq.cmp(5, 6));
    assert!(!Comparison::Neq.cmp(6, 6));
    assert!(Comparison::Ge.cmp(5, 5));
    assert!(Comparison::Ge.cmp(10, 5));
    assert!(Comparison::Gt.cmp(10, 5));
}

#[test]
fn test_comparison_try_from_str() {
    assert_eq!(Comparison::try_from("<"), Ok(Comparison::Lt));
    assert_eq!(Comparison::try_from("<="), Ok(Comparison::Le));
    assert_eq!(Comparison::try_from("=<"), Ok(Comparison::Le));
    assert_eq!(Comparison::try_from("≤"), Ok(Comparison::Le));
    assert_eq!(Comparison::try_from("="), Ok(Comparison::Eq));
    assert_eq!(Comparison::try_from("=="), Ok(Comparison::Eq));
    assert_eq!(Comparison::try_from("!="), Ok(Comparison::Neq));
    assert_eq!(Comparison::try_from("≠"), Ok(Comparison::Neq));
    assert_eq!(Comparison::try_from(">="), Ok(Comparison::Ge));
    assert_eq!(Comparison::try_from("=>"), Ok(Comparison::Ge));
    assert_eq!(Comparison::try_from("≥"), Ok(Comparison::Ge));
    assert_eq!(Comparison::try_from(">"), Ok(Comparison::Gt));
}

#[test]
fn test_comparison_display() {
    assert_eq!(Comparison::Lt.to_string(), "<".to_string());
    assert_eq!(Comparison::Le.to_string(), "<=".to_string());
    assert_eq!(Comparison::Eq.to_string(), "==".to_string());
    assert_eq!(Comparison::Neq.to_string(), "!=".to_string());
    assert_eq!(Comparison::Ge.to_string(), ">=".to_string());
    assert_eq!(Comparison::Gt.to_string(), ">".to_string());
}

#[test]
fn test_comparison_cli_hint() {
    assert_eq!(Comparison::Lt.cli_hint(), "lt".to_string());
    assert_eq!(Comparison::Le.cli_hint(), "le".to_string());
    assert_eq!(Comparison::Eq.cli_hint(), "eq".to_string());
    assert_eq!(Comparison::Neq.cli_hint(), "neq".to_string());
    assert_eq!(Comparison::Ge.cli_hint(), "ge".to_string());
    assert_eq!(Comparison::Gt.cli_hint(), "gt".to_string());
}

#[test]
fn test_operation() {
    assert_eq!(Operation::Add.calc(20, 5).unwrap(), 25);
    assert_eq!(Operation::Sub.calc(20, 5).unwrap(), 15);
    assert_eq!(Operation::Mul.calc(20, 5).unwrap(), 100);
    assert_eq!(Operation::Div.calc(20, 5).unwrap(), 4);
    assert_eq!(Operation::Mod.calc(20, 5).unwrap(), 0)
}

#[test]
fn test_operation_try_from_str() {
    assert_eq!(Operation::try_from("+"), Ok(Operation::Add));
    assert_eq!(Operation::try_from("-"), Ok(Operation::Sub));
    assert_eq!(Operation::try_from("*"), Ok(Operation::Mul));
    assert_eq!(Operation::try_from("×"), Ok(Operation::Mul));
    assert_eq!(Operation::try_from("/"), Ok(Operation::Div));
    assert_eq!(Operation::try_from("÷"), Ok(Operation::Div));
    assert_eq!(Operation::try_from("%"), Ok(Operation::Mod));
    assert_eq!(Operation::try_from("P"), Err(()));
}

#[test]
fn test_operation_display() {
    assert_eq!(Operation::Add.to_string(), "+".to_string());
    assert_eq!(Operation::Sub.to_string(), "-".to_string());
    assert_eq!(Operation::Mul.to_string(), "*".to_string());
    assert_eq!(Operation::Div.to_string(), "/".to_string());
    assert_eq!(Operation::Mod.to_string(), "%".to_string());
}

#[test]
fn test_operation_cli_hint() {
    assert_eq!(Operation::Add.cli_hint(), "add".to_string());
    assert_eq!(Operation::Sub.cli_hint(), "sub".to_string());
    assert_eq!(Operation::Mul.cli_hint(), "mul".to_string());
    assert_eq!(Operation::Div.cli_hint(), "div".to_string());
    assert_eq!(Operation::Mod.cli_hint(), "mod".to_string());
}

#[test]
fn comparison_opposites_on_values() {
    for (x, y) in [(1, 2), (2, 2), (3, 2), (-5, 7)] {
        assert_eq!(Comparison::Lt.cmp(x, y), !Comparison::Ge.cmp(x, y));
        assert_eq!(Comparison::Gt.cmp(x, y), !Comparison::Le.cmp(x, y));
        assert_eq!(Comparison::Eq.cmp(x, y), !Comparison::Neq.cmp(x, y));
    }
}

#[test]
fn comparison_unknown_symbol() {
    assert_eq!(Comparison::try_from("<>"), Err(()));
    assert_eq!(Comparison::try_from(""), Err(()));
}

#[test]
fn operation_errors() {
    assert_eq!(
        Operation::Div.calc(1, 0),
        Err(RuntimeErrorType::IllegalCalculation { cause: CalcError::AttemptToDivideByZero() })
    );
    assert_eq!(
        Operation::Add.calc(i32::MAX, 1),
        Err(RuntimeErrorType::IllegalCalculation { cause: CalcError::AttemptToOverflow("add".to_string(), "Addition".to_string()) })
    );
    assert_eq!(Operation::Sub.calc(i32::MIN, 1).is_err(), true);
    assert_eq!(Operation::Mod.calc(-7, 3).unwrap(), 2);
    assert_eq!(Operation::Div.calc(-7, 2).unwrap(), -3);
    // what an addition adds, a subtraction takes away again
    assert_eq!(Operation::Sub.calc(Operation::Add.calc(40, 2).unwrap(), 2).unwrap(), 40);
}
