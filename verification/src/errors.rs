//! Errors shared by CRDT arithmetic and consistency planning.
use vstd::prelude::*;

verus! {

/// Failure produced by a CRDT value operation.
#[derive(Debug, Clone, Copy, PartialEq, Eq, Structural)]
pub enum CrdtError {
    /// An unsigned per-replica counter or aggregate exceeded its numeric range.
    CounterOverflow,
    /// A signed counter result cannot be represented by the public value type.
    CounterValueOutOfRange,
}

impl CrdtError {
    /// Human-readable description of the failure.
    pub fn message(&self) -> (r: &'static str)
        ensures
            r@ == match self {
                CrdtError::CounterOverflow => "counter value overflowed"@,
                CrdtError::CounterValueOutOfRange => "counter value is outside the supported signed range"@,
            },
    {
        match self {
            CrdtError::CounterOverflow => "counter value overflowed",
            CrdtError::CounterValueOutOfRange => "counter value is outside the supported signed range",
        }
    }
}

/// Invalid replica-count input for a non-local consistency level.
#[derive(Debug, Clone, Copy, PartialEq, Eq, Structural)]
pub enum ConsistencyError {
    /// Fewer than two replicas were requested for distributed consistency.
    ReplicaCountTooSmall {
        /// Invalid requested replica count.
        requested: usize,
    },
}

} // verus!
