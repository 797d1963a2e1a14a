//! Typed failures surfaced by the storage core.

use vstd::prelude::*;

verus! {

/// A failure raised by the write or read path. Each variant names the stage
/// that failed and carries the location or expression fragment that caused it.
#[derive(Clone, Debug)]
pub enum EngineError {
    /// A read or write against the storage accessor failed; holds the location.
    StorageIo(String),
    /// A snapshot, segment or block record was malformed or schema-incompatible.
    Serialization(String),
    /// Statistics cannot be computed or compared for a column's declared type.
    UnsupportedType(String),
    /// A filter expression referenced an unknown column or an operator with no
    /// statistics-based relaxation.
    PredicateCompilation(String),
}

impl EngineError {
    /// The context string carried by the error, whichever stage produced it.
    pub fn context(&self) -> (r: &String)
        ensures
            *r == self.context_spec(),
    {
        match self {
            EngineError::StorageIo(s) => s,
            EngineError::Serialization(s) => s,
            EngineError::UnsupportedType(s) => s,
            EngineError::PredicateCompilation(s) => s,
        }
    }

    /// The context string of each variant.
    pub open spec fn context_spec(self) -> String {
        match self {
            EngineError::StorageIo(s) => s,
            EngineError::Serialization(s) => s,
            EngineError::UnsupportedType(s) => s,
            EngineError::PredicateCompilation(s) => s,
        }
    }
}

} // verus!
