//! Core state-, delta-, and removed-replica CRDT contracts.
//!
//! Implementations are immutable values: operations return new state, and
//! merging is associative, commutative and idempotent on the states that
//! replicas can hold together. Each implementation proves these laws.
use vstd::prelude::*;

use crate::errors::CrdtError;
use crate::replica::ReplicaId;
use crate::sorted_map::Duplicate;
use crate::sorted_set::SortedSet;

verus! {

/// A value with a merge operation.
pub trait Mergeable: Duplicate {
    /// The value obtained by merging `b` into `a`.
    spec fn merged(a: Self::V, b: Self::V) -> Self::V;

    /// Whether the value carries no operations recorded since its last
    /// delta reset.
    spec fn settled(&self) -> bool;

    /// A copy of the value, pending operations included.
    fn clone_value(&self) -> (r: Self)
        ensures
            r@ == self@,
            r.settled() == self.settled(),
    ;

    /// Merges another value into this one; the result carries no pending
    /// operations.
    fn merge(&self, other: &Self) -> (r: Self)
        ensures
            r@ == Self::merged(self@, other@),
            r.settled(),
    ;
}

/// State-based convergent replicated data value.
pub trait ReplicatedData: Mergeable {
    /// Abstract states that the type's operations can produce.
    spec fn valid(v: Self::V) -> bool;

    /// Two states that replicas can hold at the same time.
    spec fn coherent(a: Self::V, b: Self::V) -> bool;

    /// Every value of the type holds a valid state.
    fn lemma_valid(&self)
        ensures
            Self::valid(self@),
    ;

    /// Merging keeps states valid and coherent with every state coherent with both inputs.
    proof fn lemma_merge_closed(a: Self::V, b: Self::V, c: Self::V)
        requires
            Self::valid(a),
            Self::valid(b),
            Self::valid(c),
            Self::coherent(a, b),
            Self::coherent(a, c),
            Self::coherent(b, c),
        ensures
            Self::valid(Self::merged(a, b)),
            Self::coherent(Self::merged(a, b), c),
            Self::coherent(c, Self::merged(a, b)),
    ;

    /// Coherence is symmetric and every valid state is coherent with itself.
    proof fn lemma_coherent_symmetric(a: Self::V, b: Self::V)
        requires
            Self::valid(a),
            Self::valid(b),
        ensures
            Self::coherent(a, a),
            Self::coherent(a, b) ==> Self::coherent(b, a),
    ;

    /// Merging a state with itself changes nothing.
    proof fn lemma_merge_idempotent(a: Self::V)
        requires
            Self::valid(a),
        ensures
            Self::merged(a, a) == a,
    ;

    /// The order of two merged states does not matter.
    proof fn lemma_merge_commutative(a: Self::V, b: Self::V)
        requires
            Self::valid(a),
            Self::valid(b),
            Self::coherent(a, b),
        ensures
            Self::merged(a, b) == Self::merged(b, a),
    ;

    /// The grouping of merges does not matter.
    proof fn lemma_merge_associative(a: Self::V, b: Self::V, c: Self::V)
        requires
            Self::valid(a),
            Self::valid(b),
            Self::valid(c),
            Self::coherent(a, b),
            Self::coherent(a, c),
            Self::coherent(b, c),
        ensures
            Self::merged(Self::merged(a, b), c) == Self::merged(a, Self::merged(b, c)),
    ;
}

/// Replicated data that can disseminate accumulated operation deltas.
pub trait DeltaReplicatedData: ReplicatedData {
    /// Delta representation paired with this full-state type.
    type Delta: ReplicatedDelta<Full = Self>;

    /// Operations accumulated since the last delta reset, if any.
    spec fn pending_delta(&self) -> Option<<Self::Delta as View>::V>;

    /// The state obtained by applying delta `d` to `a`.
    spec fn delta_merged(a: Self::V, d: <Self::Delta as View>::V) -> Self::V;

    /// Returns operations accumulated since the last [`Self::reset_delta`].
    fn delta(&self) -> (r: Option<Self::Delta>)
        ensures
            r is Some == self.pending_delta() is Some,
            r matches Some(d) ==> Some(d@) == self.pending_delta(),
    ;

    /// Merges one received delta into the full state.
    fn merge_delta(&self, delta: &Self::Delta) -> (r: Self)
        ensures
            r@ == Self::delta_merged(self@, delta@),
    ;

    /// Returns the same full state with transient accumulated deltas cleared.
    fn reset_delta(&self) -> (r: Self)
        ensures
            r@ == self@,
    ;
}

/// Mergeable delta that can produce the empty full state it applies to.
pub trait ReplicatedDelta: Mergeable {
    /// Full-state CRDT reconstructed by applying this delta.
    type Full: View;

    /// The full state a delta `d` starts from when nothing was received before.
    spec fn zero_state(d: Self::V) -> <Self::Full as View>::V;

    /// Returns a full state used when the first received value is a delta.
    fn zero(&self) -> (r: Self::Full)
        ensures
            r@ == Self::zero_state(self@),
    ;
}

/// Replicated data that can remove causal state owned by a departed replica.
pub trait RemovedNodePruning: ReplicatedData {
    /// Replicas whose causal state the value holds.
    spec fn modified_by(v: Self::V) -> Set<Seq<char>>;

    /// Whether collapsing `removed` into `into` fails on `v`.
    spec fn prune_fails(v: Self::V, removed: Seq<char>, into: Seq<char>) -> bool;

    /// The state after collapsing `removed` into `into`.
    spec fn pruned(v: Self::V, removed: Seq<char>, into: Seq<char>) -> Self::V;

    /// The state after dropping metadata of an already pruned replica.
    spec fn cleaned(v: Self::V, removed: Seq<char>) -> Self::V;

    /// Returns replica identities whose causal state may require pruning.
    fn modified_by_replica_ids(&self) -> (r: SortedSet<ReplicaId>)
        ensures
            r.wf(),
            r@ == Self::modified_by(self@),
    ;

    /// Reports whether this value still contains state from `removed_replica`.
    fn need_pruning_from(&self, removed_replica: &ReplicaId) -> (r: bool)
        ensures
            r == Self::modified_by(self@).contains(removed_replica@),
    ;

    /// Collapses state from `removed_replica` into a surviving replica.
    fn prune(&self, removed_replica: &ReplicaId, collapse_into: ReplicaId) -> (r: Result<
        Self,
        CrdtError,
    >)
        ensures
            r is Err == Self::prune_fails(self@, removed_replica@, collapse_into@),
            r matches Ok(v) ==> v@ == Self::pruned(self@, removed_replica@, collapse_into@),
    ;

    /// Removes causal metadata for a replica whose state was already pruned.
    fn pruning_cleanup(&self, removed_replica: &ReplicaId) -> (r: Self)
        ensures
            r@ == Self::cleaned(self@, removed_replica@),
    ;
}

} // verus!
