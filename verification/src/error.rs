//! The faults of the library.

use vstd::prelude::*;

verus! {

/// Everything that can go wrong while configuring, building, decoding or
/// evaluating a gene-expression program.
#[derive(Debug, Clone, PartialEq, Eq)]
pub enum GepError {
    /// The configuration is inconsistent: an argument primitive was supplied
    /// to a vocabulary, or a dictionary was given the wrong number of
    /// sub-expressions.
    Configuration,
    /// An identifier was requested from a space that holds none.
    EmptySpace,
    /// A gene value names neither a primitive nor a registered sub-expression.
    IdentifierOutOfRange { id: u32 },
    /// An argument primitive refers to an input that was not supplied.
    ArgumentIndexOutOfRange { argument: u32 },
    /// The number of top-level arguments differs from the declared one.
    ArgumentCountMismatch { declared: u32, supplied: usize },
    /// A persisted display string differs from that of the vocabulary entry
    /// at the same index.
    SchemaMismatch { index: usize, expected: String, actual: String },
    /// Persisted bytes could not be read back.
    IoFault,
    /// A tree type other than the linear one was requested.
    DecodeUnsupported,
}

} // verus!
