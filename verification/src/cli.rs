//! The command line arguments as plain values, and the checks on them that
//! the argument parser cannot make.
use vstd::prelude::*;

use crate::base::{comparison_hint, operation_hint, Comparison, Operation};
use crate::text::to_chars;

verus! {

/// The whole command line: a command and the arguments that all commands share.
#[derive(Debug, Clone)]
pub struct Cli {
    pub command: Command,
    pub global_args: GlobalArgs,
}

/// Arguments that all commands share.
#[derive(Debug, Clone)]
pub struct GlobalArgs {
    /// Number of available accumulators.
    pub accumulators: Option<u8>,
    /// The available index memory cells.
    pub index_memory_cells: Option<Vec<usize>>,
    /// The available memory cells.
    pub memory_cells: Option<Vec<String>>,
    /// A file from which the memory layout is read.
    pub memory_config_file: Option<String>,
    /// If set, any number of instructions may run.
    pub disable_instruction_limit: bool,
}

impl Default for GlobalArgs {
    fn default() -> (res: Self)
        ensures
            res.accumulators is None,
            res.index_memory_cells is None,
            res.memory_cells is None,
            res.memory_config_file is None,
            !res.disable_instruction_limit,
    {
        GlobalArgs {
            accumulators: None,
            index_memory_cells: None,
            memory_cells: None,
            memory_config_file: None,
            disable_instruction_limit: false,
        }
    }
}

/// Arguments of the command that loads a program.
#[derive(Debug, Clone)]
pub struct LoadArgs {
    pub instruction_limiting_args: InstructionLimitingArgs,
    /// The file that holds the program.
    pub file: String,
    /// Lines in which breakpoints are set.
    pub breakpoints: Option<Vec<usize>>,
    /// If set, labels, instructions and comments are not aligned.
    pub disable_alignment: bool,
    /// If set, the aligned program is written back to its file.
    pub write_alignment: bool,
    /// A file that holds the history of custom instructions.
    pub custom_instruction_history_file: Option<String>,
    /// If set, the program is shown without colours.
    pub disable_syntax_highlighting: bool,
}

/// Arguments of the command that checks a program.
#[derive(Debug, Clone)]
pub struct CheckArgs {
    pub instruction_limiting_args: InstructionLimitingArgs,
    /// The file that holds the program.
    pub file: String,
    /// What to check.
    pub command: CheckCommand,
}

/// Arguments of the command that starts the playground.
#[derive(Debug, Clone)]
pub struct PlaygroundArgs {
    /// A file that holds the history of custom instructions.
    pub custom_instruction_history_file: Option<String>,
    /// If set, instructions are shown without colours.
    pub disable_syntax_highlighting: bool,
}

/// The commands of the program.
#[derive(Debug, Clone)]
pub enum Command {
    /// Load a program.
    Load(LoadArgs),
    /// Check a program.
    Check(CheckArgs),
    /// Run single instructions in a playground.
    Playground(PlaygroundArgs),
}

/// Arguments that limit which instructions and memory a program may use.
#[derive(Debug, Clone)]
pub struct InstructionLimitingArgs {
    /// If set, only these comparisons are allowed.
    pub allowed_comparisons: Option<Vec<Comparison>>,
    /// A file that lists the allowed instructions.
    pub allowed_instructions_file: Option<String>,
    /// If set, only these operations are allowed.
    pub allowed_operations: Option<Vec<Operation>>,
    /// If set, memory locations are neither detected in the program nor created while it runs.
    pub disable_memory_detection: bool,
    /// Whether the gamma accumulator is enabled.
    pub enable_gamma_accumulator: Option<bool>,
}

impl Default for InstructionLimitingArgs {
    fn default() -> (res: Self)
        ensures
            res.allowed_comparisons is None,
            res.allowed_instructions_file is None,
            res.allowed_operations is None,
            !res.disable_memory_detection,
            res.enable_gamma_accumulator is None,
    {
        InstructionLimitingArgs {
            allowed_comparisons: None,
            allowed_instructions_file: None,
            allowed_operations: None,
            disable_memory_detection: false,
            enable_gamma_accumulator: None,
        }
    }
}

/// What the check command checks.
#[derive(Debug, Clone, Copy, PartialEq, Eq, Structural)]
pub enum CheckCommand {
    /// Whether the program builds.
    Compile,
}

/// Gives the name under which a value is written on the command line.
pub trait CliHint {
    fn cli_hint(&self) -> String;
}

impl CliHint for Comparison {
    fn cli_hint(&self) -> (res: String)
        ensures
            res@ == comparison_hint(*self),
    {
        match self {
            Comparison::Lt => "lt".to_string(),
            Comparison::Le => "le".to_string(),
            Comparison::Eq => "eq".to_string(),
            Comparison::Neq => "neq".to_string(),
            Comparison::Ge => "ge".to_string(),
            Comparison::Gt => "gt".to_string(),
        }
    }
}

impl CliHint for Operation {
    fn cli_hint(&self) -> (res: String)
        ensures
            res@ == operation_hint(*self),
    {
        match self {
            Operation::Add => "add".to_string(),
            Operation::Sub => "sub".to_string(),
            Operation::Mul => "mul".to_string(),
            Operation::Div => "div".to_string(),
            Operation::Mod => "mod".to_string(),
        }
    }
}

/// An error in the command line arguments.
#[derive(Debug, Clone, PartialEq)]
pub struct CliError {
    pub reason: CliErrorType,
}

impl CliError {
    /// An error for `reason`.
    pub fn new(reason: CliErrorType) -> (res: Self)
        ensures
            res.reason == reason,
    {
        CliError { reason }
    }
}

/// The ways in which the command line arguments can be invalid.
#[derive(Debug, Clone, PartialEq)]
pub enum CliErrorType {
    /// A memory cell is named by digits without a letter, as an index memory cell would be.
    MemoryCellsInvalid(String),
}

/// Whether `c` has the Unicode `Alphabetic` property.
pub uninterp spec fn alphabetic(c: char) -> bool;

/// Calls `char::is_alphabetic`, whose result is the Unicode `Alphabetic`
/// property of `c`; the property itself, a table of the Unicode standard,
/// is left unstated.
#[verifier::external_body]
fn is_alphabetic(c: char) -> (res: bool)
    ensures
        res == alphabetic(c),
{
    c.is_alphabetic()
}

/// A memory cell name that consists of digits without a letter would be
/// taken for an index memory cell.
pub open spec fn cell_name_invalid(name: Seq<char>) -> bool {
    &&& exists|i: int| 0 <= i < name.len() && '0' <= #[trigger] name[i] && name[i] <= '9'
    &&& !exists|i: int| 0 <= i < name.len() && alphabetic(#[trigger] name[i])
}

fn cell_name_invalid_exec(name: &String) -> (res: bool)
    ensures
        res == cell_name_invalid(name@),
{
    let c = to_chars(name.as_str());
    let mut digit = false;
    let mut letter = false;
    let mut i: usize = 0;
    while i < c.len()
        invariant
            i <= c.len(),
            c@ == name@,
            digit == exists|k: int| 0 <= k < i && '0' <= #[trigger] c@[k] && c@[k] <= '9',
            letter == exists|k: int| 0 <= k < i && alphabetic(#[trigger] c@[k]),
        decreases c.len() - i,
    {
        if '0' <= c[i] && c[i] <= '9' {
            digit = true;
        }
        if is_alphabetic(c[i]) {
            letter = true;
        }
        i = i + 1;
    }
    digit && !letter
}

/// `i` is the first memory cell name in `cells` that is invalid.
pub open spec fn first_invalid(cells: Seq<String>, i: int) -> bool {
    cell_name_invalid(cells[i]@) && forall|j: int| 0 <= j < i ==> !cell_name_invalid(#[trigger] cells[j]@)
}

/// `e` reports the memory cell name `name`.
pub open spec fn reports(e: CliError, name: Seq<char>) -> bool {
    match e.reason {
        CliErrorType::MemoryCellsInvalid(n) => n@ == name,
    }
}

/// Checks what the argument parser cannot: no memory cell may be named by
/// digits alone. The first such name is reported.
pub fn validate_arguments(global_args: &GlobalArgs) -> (res: Result<(), CliError>)
    ensures
        match global_args.memory_cells {
            None => res is Ok,
            Some(cells) => match res {
                Ok(()) => forall|i: int| 0 <= i < cells.len() ==> !cell_name_invalid(#[trigger] cells@[i]@),
                Err(e) => exists|i: int| 0 <= i < cells.len() && #[trigger] first_invalid(cells@, i) && reports(e, cells@[i]@),
            },
        },
{
    match &global_args.memory_cells {
        None => Ok(()),
        Some(cells) => {
            let mut i: usize = 0;
            while i < cells.len()
                invariant
                    i <= cells.len(),
                    global_args.memory_cells == Some(*cells),
                    forall|j: int| 0 <= j < i ==> !cell_name_invalid(#[trigger] cells@[j]@),
                decreases cells.len() - i,
            {
                if cell_name_invalid_exec(&cells[i]) {
                    let name = cells[i].clone();
                    let err = CliError::new(CliErrorType::MemoryCellsInvalid(name));
                    assert(first_invalid(cells@, i as int) && reports(err, cells@[i as int]@));
                    assert(global_args.memory_cells->0 == *cells);
                    assert(exists|k: int| 0 <= k < cells.len() && #[trigger] first_invalid(cells@, k) && reports(err, cells@[k]@));
                    return Err(err);
                }
                i = i + 1;
            }
            Ok(())
        },
    }
}

} // verus!
