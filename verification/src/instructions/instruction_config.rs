//! Which instructions, comparisons and operations a program may use.
use vstd::prelude::*;

use crate::base::{Comparison, Operation};
use crate::text::string_views;
use crate::utils::{build_instruction_whitelist, prepared_line, whitelist_prefix, whitelist_readable, BuildAllowedInstructionsError};

verus! {

/// Limits on the instructions of a program. A limit that is `None` allows everything.
#[derive(Debug, Clone)]
pub struct InstructionConfig {
    /// The kinds of the allowed instructions (see `Identifier`).
    pub allowed_instruction_identifiers: Option<Vec<String>>,
    /// The allowed comparisons.
    pub allowed_comparisons: Option<Vec<Comparison>>,
    /// The allowed operations.
    pub allowed_operations: Option<Vec<Operation>>,
}

/// The limits as mathematical values.
pub struct InstructionConfigView {
    pub identifiers: Option<Seq<Seq<char>>>,
    pub comparisons: Option<Seq<Comparison>>,
    pub operations: Option<Seq<Operation>>,
}

impl View for InstructionConfig {
    type V = InstructionConfigView;

    open spec fn view(&self) -> InstructionConfigView {
        InstructionConfigView {
            identifiers: match self.allowed_instruction_identifiers {
                Some(v) => Some(string_views(v@)),
                None => None,
            },
            comparisons: match self.allowed_comparisons {
                Some(v) => Some(v@),
                None => None,
            },
            operations: match self.allowed_operations {
                Some(v) => Some(v@),
                None => None,
            },
        }
    }
}

impl Default for InstructionConfig {
    fn default() -> (res: Self)
        ensures
            res@ == (InstructionConfigView { identifiers: None, comparisons: None, operations: None }),
    {
        InstructionConfig {
            allowed_instruction_identifiers: None,
            allowed_comparisons: None,
            allowed_operations: None,
        }
    }
}

/// The sequence that an optional list holds.
pub open spec fn opt_seq<T>(v: Option<Vec<T>>) -> Option<Seq<T>> {
    match v {
        Some(v) => Some(v@),
        None => None,
    }
}

impl InstructionConfig {
    /// The limits that a file of allowed instructions gives: the kinds of the
    /// instructions in `instructions`, read as a whitelist (see
    /// `build_instruction_whitelist`), and the comparisons and operations as
    /// they are. Fails when a line of the whitelist is no instruction.
    pub fn from_lists(
        instructions: Option<Vec<String>>,
        comparisons: Option<Vec<Comparison>>,
        operations: Option<Vec<Operation>>,
    ) -> (res: Result<InstructionConfig, BuildAllowedInstructionsError>)
        requires
            instructions matches Some(v) ==> whitelist_readable(string_views(v@)) && v.len() < usize::MAX,
        ensures
            match instructions {
                None => res matches Ok(c) && c@ == (InstructionConfigView {
                    identifiers: None,
                    comparisons: opt_seq(comparisons),
                    operations: opt_seq(operations),
                }),
                Some(v) => {
                    let p = string_views(v@).map_values(|l: Seq<char>| prepared_line(l));
                    match whitelist_prefix(p, p.len() as int) {
                        Ok(ids) => res matches Ok(c) && c@ == (InstructionConfigView {
                            identifiers: Some(ids),
                            comparisons: opt_seq(comparisons),
                            operations: opt_seq(operations),
                        }),
                        Err(e) => res matches Err(x) && x.line == e.0 && x.reason@ == e.1,
                    }
                },
            },
    {
        let allowed_instruction_identifiers = match instructions {
            Some(v) => match build_instruction_whitelist(v) {
                Ok(ids) => Some(ids),
                Err(e) => return Err(e),
            },
            None => None,
        };
        Ok(InstructionConfig { allowed_instruction_identifiers, allowed_comparisons: comparisons, allowed_operations: operations })
    }
}

} // verus!
