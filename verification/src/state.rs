//! Deterministic state snapshots identified by their content hash.
use vstd::prelude::*;

verus! {

/// A state snapshot identified by its content hash.
#[derive(Clone, Debug, PartialEq, Eq, Hash)]
pub struct StateSnapshot {
    /// Monotonically increasing sequence number (deterministic across runs).
    pub sequence: u64,
    /// SHA-256 hash of the canonical state encoding.
    pub hash: [u8; 32],
}

impl StateSnapshot {
    /// A snapshot with the given sequence number and content hash.
    pub fn new(sequence: u64, hash: [u8; 32]) -> (r: Self)
        ensures
            r.sequence == sequence,
            r.hash == hash,
    {
        StateSnapshot { sequence, hash }
    }
}

} // verus!
