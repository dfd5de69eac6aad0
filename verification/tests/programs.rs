use alpha_tui::base::{Comparison, Operation};
use alpha_tui::instructions::error_handling::{BuildProgramError, BuildProgramErrorTypes};
use alpha_tui::instructions::instruction_config::InstructionConfig;
use alpha_tui::runtime::builder::RuntimeBuilder;
use alpha_tui::runtime::error_handling::RuntimeBuildError;
use alpha_tui::runtime::Runtime;

fn lines_of(input: &str) -> Vec<String> {
    input.split('\n').map(|f| f.to_string()).collect()
}

fn build(program: &str, config: Option<InstructionConfig>) -> Result<Runtime, RuntimeBuildError> {
    let mut rb = RuntimeBuilder::from_program(&lines_of(program), "program.alpha").unwrap();
    if let Some(c) = config {
        rb.set_instruction_config(c);
    }
    rb.build()
}

fn whitelist(kinds: &[&str], comparisons: Option<Vec<Comparison>>, operations: Option<Vec<Operation>>) -> InstructionConfig {
    InstructionConfig {
        allowed_instruction_identifiers: Some(kinds.iter().map(|k| k.to_string()).collect()),
        allowed_comparisons: comparisons,
        allowed_operations: operations,
    }
}

#[test]
fn faculty_program_runs() {
    let program = "p(n) := 5\na0 := 1\nloop: if p(n) <= 1 then goto end\na0 := a0 * p(n)\np(n) := p(n) - 1\ngoto loop\nend:";
    let mut rt = build(program, None).unwrap();
    assert_eq!(rt.run(), Ok(true));
    assert_eq!(rt.runtime_memory().accumulators.get(0), Some(Some(120)));
}

#[test]
fn stack_program_runs() {
    let program = "a := 4\npush\na := 6\npush\nstack*\npop";
    let mut rt = build(program, None).unwrap();
    assert_eq!(rt.run(), Ok(true));
    assert_eq!(rt.runtime_memory().accumulators.get(0), Some(Some(24)));
    assert!(rt.runtime_memory().stack.is_empty());
}

#[test]
fn index_memory_cell_program_runs() {
    let program = "p(1) := 10\na0 := 1\np(a0) := p(a0) + 5\na1 := p(1)";
    let mut rt = build(program, None).unwrap();
    assert_eq!(rt.run(), Ok(true));
    assert_eq!(rt.runtime_memory().accumulators.get(1), Some(Some(15)));
}

#[test]
fn whitelisted_program_builds() {
    let program = "a := 1\np(h1) := a + 2\nif a < p(h1) then goto end\nend:";
    let config = whitelist(&["A := C", "M := A OP C", "if A CMP M then goto"], Some(vec![Comparison::Lt]), Some(vec![Operation::Add]));
    assert!(build(program, Some(config)).is_ok());
}

#[test]
fn instruction_outside_whitelist_is_refused() {
    let program = "a := 1\np(h1) := 20";
    let config = whitelist(&["A := C"], None, None);
    assert_eq!(
        build(program, Some(config)).err(),
        Some(RuntimeBuildError::InstructionsNotAllowed(BuildProgramError {
            reason: BuildProgramErrorTypes::InstructionNotAllowed(
                2,
                "p(h1) := 20".to_string(),
                "M := C".to_string(),
                "A := C".to_string()
            )
        }))
    );
}

#[test]
fn pop_outside_whitelist_is_refused() {
    let program = "push\npop";
    let config = whitelist(&["push"], None, None);
    assert_eq!(
        build(program, Some(config)).err(),
        Some(RuntimeBuildError::InstructionsNotAllowed(BuildProgramError {
            reason: BuildProgramErrorTypes::InstructionNotAllowed(
                2,
                "pop".to_string(),
                "pop".to_string(),
                "push".to_string()
            )
        }))
    );
}

#[test]
fn comparison_outside_whitelist_is_refused() {
    let program = "if a == a then goto end\nend:";
    let config = InstructionConfig {
        allowed_instruction_identifiers: None,
        allowed_comparisons: Some(vec![Comparison::Lt]),
        allowed_operations: None,
    };
    assert_eq!(
        build(program, Some(config)).err(),
        Some(RuntimeBuildError::InstructionsNotAllowed(BuildProgramError {
            reason: BuildProgramErrorTypes::ComparisonNotAllowed(1, "==".to_string(), "eq".to_string())
        }))
    );
}

#[test]
fn operation_outside_whitelist_is_refused() {
    let program = "a := 1 + 2\na := a - 1";
    let config = InstructionConfig {
        allowed_instruction_identifiers: None,
        allowed_comparisons: None,
        allowed_operations: Some(vec![Operation::Add]),
    };
    assert_eq!(
        build(program, Some(config)).err(),
        Some(RuntimeBuildError::InstructionsNotAllowed(BuildProgramError {
            reason: BuildProgramErrorTypes::OperationNotAllowed(2, "-".to_string(), "sub".to_string())
        }))
    );
}
