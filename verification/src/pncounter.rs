//! Immutable increment/decrement counter composed from two grow-only counters.
use vstd::prelude::*;

use crate::data::{DeltaReplicatedData, Mergeable, RemovedNodePruning, ReplicatedData, ReplicatedDelta};
use crate::errors::CrdtError;
use crate::gcounter::{
    counts_merged, incremented_delta, counts_prune_overflows, counts_pruned, counts_sum, counts_valid, get0, Counts,
    GCounter,
};
use crate::replica::ReplicaId;
use crate::sorted_map::Duplicate;
use crate::sorted_set::SortedSet;

verus! {

/// The signed value of a counter pair, or the error its evaluation reports.
pub open spec fn pn_value(inc: Counts, dec: Counts) -> Result<i128, CrdtError> {
    if counts_sum(inc) > u128::MAX {
        Err(CrdtError::CounterOverflow)
    } else if counts_sum(inc) > i128::MAX {
        Err(CrdtError::CounterValueOutOfRange)
    } else if counts_sum(dec) > u128::MAX {
        Err(CrdtError::CounterOverflow)
    } else if counts_sum(dec) > i128::MAX {
        Err(CrdtError::CounterValueOutOfRange)
    } else {
        Ok((counts_sum(inc) - counts_sum(dec)) as i128)
    }
}

/// The pending component delta of a grow-only counter, empty when none.
pub open spec fn delta_or_empty(d: Option<Counts>) -> Counts {
    match d {
        Some(c) => c,
        None => Counts::empty(),
    }
}

#[derive(Debug, PartialEq, Eq)]
/// Positive/negative counter CRDT backed by increment and decrement GCounters.
///
/// Merge combines each inner counter independently; the exposed value is the
/// checked increment total minus the checked decrement total.
pub struct PNCounter {
    increments: GCounter,
    decrements: GCounter,
}

impl View for PNCounter {
    type V = (Counts, Counts);

    closed spec fn view(&self) -> (Counts, Counts) {
        (self.increments@, self.decrements@)
    }
}

impl PNCounter {
    /// Pending deltas of both inner counters.
    pub closed spec fn delta_view(&self) -> (Option<Counts>, Option<Counts>) {
        (self.increments.delta_view(), self.decrements.delta_view())
    }

    /// Creates an empty zero-valued counter.
    pub fn new() -> (r: Self)
        ensures
            r@ == (Counts::empty(), Counts::empty()),
            r.delta_view() == (None::<Counts>, None::<Counts>),
    {
        PNCounter { increments: GCounter::new(), decrements: GCounter::new() }
    }

    /// Creates a counter from explicit positive and negative components.
    pub fn from_counters(increments: GCounter, decrements: GCounter) -> (r: Self)
        ensures
            r@ == (increments@, decrements@),
            r.delta_view() == (increments.delta_view(), decrements.delta_view()),
    {
        PNCounter { increments, decrements }
    }

    /// Returns the grow-only positive component.
    pub fn increments(&self) -> (r: &GCounter)
        ensures
            r@ == self@.0,
    {
        &self.increments
    }

    /// Returns the grow-only negative component.
    pub fn decrements(&self) -> (r: &GCounter)
        ensures
            r@ == self@.1,
    {
        &self.decrements
    }

    /// Returns the signed counter value.
    pub fn value(&self) -> (r: Result<i128, CrdtError>)
        ensures
            r == pn_value(self@.0, self@.1),
    {
        let inc = match self.increments.value() {
            Ok(v) => v,
            Err(e) => {
                return Err(e);
            },
        };
        if inc > i128::MAX as u128 {
            return Err(CrdtError::CounterValueOutOfRange);
        }
        let dec = match self.decrements.value() {
            Ok(v) => v,
            Err(e) => {
                return Err(e);
            },
        };
        if dec > i128::MAX as u128 {
            return Err(CrdtError::CounterValueOutOfRange);
        }
        Ok(inc as i128 - dec as i128)
    }

    /// Adds `amount` to one replica's positive component.
    pub fn increment(&self, replica: ReplicaId, amount: u128) -> (r: Result<Self, CrdtError>)
        ensures
            r is Err <==> amount > 0 && get0(self@.0, replica@) + amount > u128::MAX,
            r matches Err(e) ==> e == CrdtError::CounterOverflow,
            r matches Ok(c) ==> c@.1 == self@.1 && c@.0 == (if amount == 0 {
                self@.0
            } else {
                self@.0.insert(replica@, (get0(self@.0, replica@) + amount) as u128)
            }),
            r matches Ok(c) ==> c.delta_view() == (
                incremented_delta(self.delta_view().0, self@.0, replica@, amount),
                self.delta_view().1,
            ),
    {
        match self.increments.increment(replica, amount) {
            Ok(increments) => Ok(PNCounter { increments, decrements: self.decrements.duplicate() }),
            Err(e) => Err(e),
        }
    }

    /// Adds `amount` to one replica's negative component.
    pub fn decrement(&self, replica: ReplicaId, amount: u128) -> (r: Result<Self, CrdtError>)
        ensures
            r is Err <==> amount > 0 && get0(self@.1, replica@) + amount > u128::MAX,
            r matches Err(e) ==> e == CrdtError::CounterOverflow,
            r matches Ok(c) ==> c@.0 == self@.0 && c@.1 == (if amount == 0 {
                self@.1
            } else {
                self@.1.insert(replica@, (get0(self@.1, replica@) + amount) as u128)
            }),
            r matches Ok(c) ==> c.delta_view() == (
                self.delta_view().0,
                incremented_delta(self.delta_view().1, self@.1, replica@, amount),
            ),
    {
        match self.decrements.increment(replica, amount) {
            Ok(decrements) => Ok(PNCounter { increments: self.increments.duplicate(), decrements }),
            Err(e) => Err(e),
        }
    }

    /// Applies a signed change, routing negative values to the decrement side.
    pub fn change(&self, replica: ReplicaId, amount: i128) -> (r: Result<Self, CrdtError>)
        ensures
            amount >= 0 ==> (r is Err <==> amount > 0 && get0(self@.0, replica@) + amount
                > u128::MAX),
            amount < 0 ==> (r is Err <==> get0(self@.1, replica@) - amount > u128::MAX),
            r matches Err(e) ==> e == CrdtError::CounterOverflow,
            r matches Ok(c) ==> amount >= 0 ==> c@.1 == self@.1 && c@.0 == (if amount == 0 {
                self@.0
            } else {
                self@.0.insert(replica@, (get0(self@.0, replica@) + amount) as u128)
            }),
            r matches Ok(c) ==> amount < 0 ==> c@.0 == self@.0 && c@.1 == self@.1.insert(
                replica@,
                (get0(self@.1, replica@) - amount) as u128,
            ),
            r matches Ok(c) ==> amount >= 0 ==> c.delta_view() == (
                incremented_delta(self.delta_view().0, self@.0, replica@, amount as u128),
                self.delta_view().1,
            ),
            r matches Ok(c) ==> amount < 0 ==> c.delta_view() == (
                self.delta_view().0,
                incremented_delta(self.delta_view().1, self@.1, replica@, (0 - amount) as u128),
            ),
    {
        if amount >= 0 {
            self.increment(replica, amount as u128)
        } else {
            let magnitude: u128 = ((-(amount + 1)) as u128) + 1;
            self.decrement(replica, magnitude)
        }
    }

    /// Reports whether either inner counter contains a departed replica.
    pub fn need_pruning_from(&self, removed_replica: &ReplicaId) -> (r: bool)
        ensures
            r == (self@.0.contains_key(removed_replica@) || self@.1.contains_key(removed_replica@)),
    {
        self.increments.need_pruning_from(removed_replica) || self.decrements.need_pruning_from(
            removed_replica,
        )
    }

    /// Collapses both departed-replica components into one survivor.
    pub fn prune(&self, removed_replica: &ReplicaId, collapse_into: ReplicaId) -> (r: Result<
        Self,
        CrdtError,
    >)
        ensures
            r is Err <==> counts_prune_overflows(self@.0, removed_replica@, collapse_into@)
                || counts_prune_overflows(self@.1, removed_replica@, collapse_into@),
            r matches Err(e) ==> e == CrdtError::CounterOverflow,
            r matches Ok(c) ==> c@ == (
                counts_pruned(self@.0, removed_replica@, collapse_into@),
                counts_pruned(self@.1, removed_replica@, collapse_into@),
            ),
    {
        let increments = match self.increments.prune(removed_replica, collapse_into.duplicate()) {
            Ok(c) => c,
            Err(e) => {
                return Err(e);
            },
        };
        let decrements = match self.decrements.prune(removed_replica, collapse_into) {
            Ok(c) => c,
            Err(e) => {
                return Err(e);
            },
        };
        Ok(PNCounter { increments, decrements })
    }

    /// Removes a departed replica from both components after pruning completes.
    pub fn pruning_cleanup(&self, removed_replica: &ReplicaId) -> (r: Self)
        ensures
            r@ == (self@.0.remove(removed_replica@), self@.1.remove(removed_replica@)),
    {
        PNCounter {
            increments: self.increments.pruning_cleanup(removed_replica),
            decrements: self.decrements.pruning_cleanup(removed_replica),
        }
    }

    /// A copy with the same state and pending deltas.
    pub fn duplicate(&self) -> (r: Self)
        ensures
            r@ == self@,
            r.delta_view() == self.delta_view(),
    {
        PNCounter { increments: self.increments.duplicate(), decrements: self.decrements.duplicate() }
    }
}

impl Clone for PNCounter {
    fn clone(&self) -> (r: PNCounter)
        ensures
            r@ == self@,
    {
        self.duplicate()
    }
}

impl Duplicate for PNCounter {
    fn duplicate(&self) -> (r: PNCounter) {
        PNCounter::duplicate(self)
    }
}

impl Mergeable for PNCounter {
    fn clone_value(&self) -> (r: Self) {
        PNCounter::duplicate(self)
    }

    open spec fn settled(&self) -> bool {
        self.delta_view() == (None::<Counts>, None::<Counts>)
    }

    open spec fn merged(a: (Counts, Counts), b: (Counts, Counts)) -> (Counts, Counts) {
        (counts_merged(a.0, b.0), counts_merged(a.1, b.1))
    }

    fn merge(&self, other: &Self) -> (r: Self) {
        PNCounter {
            increments: self.increments.merge(&other.increments),
            decrements: self.decrements.merge(&other.decrements),
        }
    }
}

impl ReplicatedData for PNCounter {
    fn lemma_valid(&self) {
        self.increments.lemma_valid();
        self.decrements.lemma_valid();
    }

    open spec fn valid(v: (Counts, Counts)) -> bool {
        counts_valid(v.0) && counts_valid(v.1)
    }

    open spec fn coherent(a: (Counts, Counts), b: (Counts, Counts)) -> bool {
        true
    }


    proof fn lemma_merge_closed(a: (Counts, Counts), b: (Counts, Counts), c: (Counts, Counts)) {
        GCounter::lemma_merge_closed(a.0, b.0, c.0);
        GCounter::lemma_merge_closed(a.1, b.1, c.1);
    }

    proof fn lemma_coherent_symmetric(a: (Counts, Counts), b: (Counts, Counts)) {
    }

    proof fn lemma_merge_idempotent(a: (Counts, Counts)) {
        GCounter::lemma_merge_idempotent(a.0);
        GCounter::lemma_merge_idempotent(a.1);
    }

    proof fn lemma_merge_commutative(a: (Counts, Counts), b: (Counts, Counts)) {
        GCounter::lemma_merge_commutative(a.0, b.0);
        GCounter::lemma_merge_commutative(a.1, b.1);
    }

    proof fn lemma_merge_associative(a: (Counts, Counts), b: (Counts, Counts), c: (Counts, Counts)) {
        GCounter::lemma_merge_associative(a.0, b.0, c.0);
        GCounter::lemma_merge_associative(a.1, b.1, c.1);
    }
}

impl DeltaReplicatedData for PNCounter {
    type Delta = PNCounter;

    open spec fn pending_delta(&self) -> Option<(Counts, Counts)> {
        Some(
            (delta_or_empty(self.delta_view().0), delta_or_empty(self.delta_view().1)),
        )
    }

    open spec fn delta_merged(a: (Counts, Counts), d: (Counts, Counts)) -> (Counts, Counts) {
        (counts_merged(a.0, d.0), counts_merged(a.1, d.1))
    }

    fn delta(&self) -> (r: Option<PNCounter>) {
        let increments = match self.increments.delta() {
            Some(d) => d,
            None => GCounter::new(),
        };
        let decrements = match self.decrements.delta() {
            Some(d) => d,
            None => GCounter::new(),
        };
        Some(PNCounter { increments, decrements })
    }

    fn merge_delta(&self, delta: &PNCounter) -> (r: PNCounter) {
        self.merge(delta)
    }

    fn reset_delta(&self) -> (r: PNCounter)
        ensures
            r.delta_view() == (None::<Counts>, None::<Counts>),
    {
        PNCounter {
            increments: self.increments.reset_delta(),
            decrements: self.decrements.reset_delta(),
        }
    }
}

impl ReplicatedDelta for PNCounter {
    type Full = PNCounter;

    open spec fn zero_state(d: (Counts, Counts)) -> (Counts, Counts) {
        (Counts::empty(), Counts::empty())
    }

    fn zero(&self) -> (r: PNCounter)
        ensures
            r@ == (Counts::empty(), Counts::empty()),
    {
        PNCounter::new()
    }
}

impl RemovedNodePruning for PNCounter {
    open spec fn modified_by(v: (Counts, Counts)) -> Set<Seq<char>> {
        v.0.dom().union(v.1.dom())
    }

    open spec fn prune_fails(v: (Counts, Counts), removed: Seq<char>, into: Seq<char>) -> bool {
        counts_prune_overflows(v.0, removed, into) || counts_prune_overflows(v.1, removed, into)
    }

    open spec fn pruned(v: (Counts, Counts), removed: Seq<char>, into: Seq<char>) -> (
        Counts,
        Counts,
    ) {
        (counts_pruned(v.0, removed, into), counts_pruned(v.1, removed, into))
    }

    open spec fn cleaned(v: (Counts, Counts), removed: Seq<char>) -> (Counts, Counts) {
        (v.0.remove(removed), v.1.remove(removed))
    }

    fn modified_by_replica_ids(&self) -> (r: SortedSet<ReplicaId>) {
        let a = self.increments.modified_by_replica_ids();
        let b = self.decrements.modified_by_replica_ids();
        a.union(&b)
    }

    fn need_pruning_from(&self, removed_replica: &ReplicaId) -> (r: bool) {
        PNCounter::need_pruning_from(self, removed_replica)
    }

    fn prune(&self, removed_replica: &ReplicaId, collapse_into: ReplicaId) -> (r: Result<
        PNCounter,
        CrdtError,
    >) {
        PNCounter::prune(self, removed_replica, collapse_into)
    }

    fn pruning_cleanup(&self, removed_replica: &ReplicaId) -> (r: PNCounter) {
        PNCounter::pruning_cleanup(self, removed_replica)
    }
}

} // verus!
