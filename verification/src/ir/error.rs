//! Violations of the invariants of the representation.

use vstd::prelude::*;

verus! {

/// An invariant of the representation that does not hold.
#[derive(Debug, Clone, PartialEq)]
pub enum IRError {
    /// An instruction was to be added to a block that has its terminator.
    TerminatedBlock { block: String },
    /// A block that can be reached has no terminator.
    UnterminatedBlock { block: String },
    /// The graph holds no block of the name of its entry block.
    MissingEntryBlock { name: String },
}

/// Model of [`IRError`].
pub enum SpecIRError {
    TerminatedBlock { block: Seq<char> },
    UnterminatedBlock { block: Seq<char> },
    MissingEntryBlock { name: Seq<char> },
}

impl View for IRError {
    type V = SpecIRError;

    open spec fn view(&self) -> SpecIRError {
        match self {
            IRError::TerminatedBlock { block } => SpecIRError::TerminatedBlock { block: block@ },
            IRError::UnterminatedBlock { block } => SpecIRError::UnterminatedBlock {
                block: block@,
            },
            IRError::MissingEntryBlock { name } => SpecIRError::MissingEntryBlock { name: name@ },
        }
    }
}

} // verus!
