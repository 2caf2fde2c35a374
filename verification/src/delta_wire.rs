//! Decoded delta ranges, as handed to the receiving replicator.
//!
//! Each range carries inclusive source versions and the logical key's
//! current removed-replica pruning table.
use vstd::prelude::*;

use crate::key::ReplicatorKey;
use crate::pruning::{PTable, PruningTable};

verus! {

/// One decoded CRDT delta range and its key-level pruning metadata.
#[derive(Debug, Clone)]
pub struct DecodedReplicatorDelta<Delta> {
    key: ReplicatorKey,
    delta: Delta,
    pruning: PruningTable,
    from_version: u64,
    to_version: u64,
}

/// Abstract decoded range: key, delta, pruning table and inclusive versions.
pub struct DecodedDeltaView<V> {
    pub key: Seq<char>,
    pub delta: V,
    pub pruning: PTable,
    pub from_version: u64,
    pub to_version: u64,
}

impl<Delta: View> View for DecodedReplicatorDelta<Delta> {
    type V = DecodedDeltaView<Delta::V>;

    closed spec fn view(&self) -> DecodedDeltaView<Delta::V> {
        DecodedDeltaView {
            key: self.key@,
            delta: self.delta@,
            pruning: self.pruning@,
            from_version: self.from_version,
            to_version: self.to_version,
        }
    }
}

impl<Delta: View> DecodedReplicatorDelta<Delta> {
    /// Creates a decoded range with an empty pruning table.
    pub fn new(key: ReplicatorKey, delta: Delta, from_version: u64, to_version: u64) -> (r: Self)
        ensures
            r@ == (DecodedDeltaView {
                key: key@,
                delta: delta@,
                pruning: PTable::empty(),
                from_version,
                to_version,
            }),
    {
        DecodedReplicatorDelta { key, delta, pruning: PruningTable::new(), from_version, to_version }
    }

    /// Replaces the decoded range's pruning metadata.
    pub fn with_pruning(self, pruning: PruningTable) -> (r: Self)
        ensures
            r@ == (DecodedDeltaView { pruning: pruning@, ..self@ }),
    {
        let mut r = self;
        r.pruning = pruning;
        r
    }

    /// Returns the stable typed-namespace key.
    pub fn key(&self) -> (r: &ReplicatorKey)
        ensures
            r@ == self@.key,
    {
        &self.key
    }

    /// Borrows the decoded CRDT delta.
    pub fn delta(&self) -> (r: &Delta)
        ensures
            r@ == self@.delta,
    {
        &self.delta
    }

    /// Consumes the range and returns its decoded CRDT delta.
    pub fn into_delta(self) -> (r: Delta)
        ensures
            r@ == self@.delta,
    {
        self.delta
    }

    /// Returns pruning metadata captured for the logical key at publication.
    pub fn pruning(&self) -> (r: &PruningTable)
        ensures
            r@ == self@.pruning,
    {
        &self.pruning
    }

    /// Returns the first source version represented by this range.
    pub fn from_version(&self) -> (r: u64)
        ensures
            r == self@.from_version,
    {
        self.from_version
    }

    /// Returns the last source version represented by this range.
    pub fn to_version(&self) -> (r: u64)
        ensures
            r == self@.to_version,
    {
        self.to_version
    }
}

} // verus!
