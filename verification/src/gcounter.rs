//! Immutable grow-only counter with one monotonic component per replica.
use vstd::prelude::*;

use crate::data::{DeltaReplicatedData, Mergeable, RemovedNodePruning, ReplicatedData, ReplicatedDelta};
use crate::errors::CrdtError;
use crate::replica::ReplicaId;
use crate::sorted_map::{
    lemma_pairs_finite, lemma_prefix_map_ends, lemma_prefix_map_step, prefix_map, strictly_sorted, Duplicate,
    SortedMap,
};
use crate::sorted_set::SortedSet;

verus! {

/// Abstract counter state: one component per replica.
pub type Counts = Map<Seq<char>, u128>;

/// The component of `k`, zero when absent.
pub open spec fn get0(m: Counts, k: Seq<char>) -> u128 {
    if m.contains_key(k) {
        m[k]
    } else {
        0
    }
}

/// Components present are positive and finitely many.
pub open spec fn counts_valid(m: Counts) -> bool {
    &&& m.dom().finite()
    &&& forall|k: Seq<char>| #[trigger] m.contains_key(k) ==> m[k] > 0
}

/// Per-replica maximum of two counter states.
pub open spec fn counts_merged(a: Counts, b: Counts) -> Counts {
    Map::new(
        |k: Seq<char>| a.contains_key(k) || b.contains_key(k),
        |k: Seq<char>|
            if get0(a, k) >= get0(b, k) {
                get0(a, k)
            } else {
                get0(b, k)
            },
    )
}

/// Sum of all components.
pub open spec fn counts_sum(m: Counts) -> int
    decreases m.dom().len(),
{
    if m.dom().finite() && m.dom().len() > 0 {
        let k = m.dom().choose();
        m[k] + counts_sum(m.remove(k))
    } else {
        0
    }
}

/// Components built from a list, skipping zeros; later entries win.
pub open spec fn counts_from_entries(s: Seq<(Seq<char>, u128)>) -> Counts
    decreases s.len(),
{
    if s.len() == 0 {
        Map::empty()
    } else if s.last().1 > 0 {
        counts_from_entries(s.drop_last()).insert(s.last().0, s.last().1)
    } else {
        counts_from_entries(s.drop_last())
    }
}

/// Collapsing `removed` into `into`.
pub open spec fn counts_pruned(m: Counts, removed: Seq<char>, into: Seq<char>) -> Counts {
    if m.contains_key(removed) {
        m.remove(removed).insert(into, (get0(m, into) + m[removed]) as u128)
    } else {
        m
    }
}

/// Collapsing `removed` into `into` overflows the survivor's component.
pub open spec fn counts_prune_overflows(m: Counts, removed: Seq<char>, into: Seq<char>) -> bool {
    m.contains_key(removed) && get0(m, into) + m[removed] > u128::MAX
}

pub proof fn lemma_counts_sum_remove(m: Counts, k: Seq<char>)
    requires
        m.dom().finite(),
        m.contains_key(k),
    ensures
        counts_sum(m) == m[k] + counts_sum(m.remove(k)),
    decreases m.dom().len(),
{
    let c = m.dom().choose();
    if c != k {
        let mc = m.remove(c);
        let mk = m.remove(k);
        lemma_counts_sum_remove(mc, k);
        lemma_counts_sum_remove(mk, c);
        assert(mc.remove(k) =~= mk.remove(c));
    }
}

pub proof fn lemma_counts_sum_insert(m: Counts, k: Seq<char>, v: u128)
    requires
        m.dom().finite(),
        !m.contains_key(k),
    ensures
        counts_sum(m.insert(k, v)) == counts_sum(m) + v,
{
    lemma_counts_sum_remove(m.insert(k, v), k);
    assert(m.insert(k, v).remove(k) =~= m);
}

/// A sub-map never sums to more than the whole.
pub proof fn lemma_counts_sum_submap(small: Counts, big: Counts)
    requires
        big.dom().finite(),
        small.submap_of(big),
    ensures
        counts_sum(small) <= counts_sum(big),
        counts_sum(small) >= 0,
    decreases big.dom().len(),
{
    if big.dom().len() == 0 {
        assert(small.dom().finite()) by {
            vstd::set_lib::lemma_len_subset(small.dom(), big.dom());
        }
        big.dom().lemma_len0_is_empty();
        assert(small.dom() =~= Set::<Seq<char>>::empty());
    } else {
        let k = big.dom().choose();
        lemma_counts_sum_remove(big, k);
        if small.contains_key(k) {
            lemma_counts_sum_submap(small.remove(k), big.remove(k));
            assert(small.dom().finite()) by {
                vstd::set_lib::lemma_len_subset(small.dom(), big.dom());
            }
            lemma_counts_sum_remove(small, k);
        } else {
            assert(small.submap_of(big.remove(k)));
            lemma_counts_sum_submap(small, big.remove(k));
        }
    }
}

/// The pending delta after adding `amount` to `replica`'s component of
/// `base`: unchanged for zero, else the new component recorded in it.
pub open spec fn incremented_delta(delta: Option<Counts>, base: Counts, replica: Seq<char>, amount: u128) -> Option<
    Counts,
> {
    if amount == 0 {
        delta
    } else {
        Some(
            match delta {
                Some(d) => d,
                None => Counts::empty(),
            }.insert(replica, (get0(base, replica) + amount) as u128),
        )
    }
}

#[derive(Debug, PartialEq, Eq)]
/// Increment-only counter CRDT merged by per-replica maximum.
///
/// The public value is the checked sum of all `u128` replica components.
pub struct GCounter {
    state: SortedMap<ReplicaId, u128>,
    delta: Option<Box<GCounter>>,
}

impl View for GCounter {
    type V = Counts;

    closed spec fn view(&self) -> Counts {
        self.state@
    }
}

impl GCounter {
    #[verifier::type_invariant]
    closed spec fn inv(&self) -> bool {
        &&& self.state.wf()
        &&& forall|k: Seq<char>| #[trigger] self.state@.contains_key(k) ==> self.state@[k] > 0
    }

    /// Components accumulated since the last delta reset.
    pub closed spec fn delta_view(&self) -> Option<Counts> {
        match self.delta {
            Some(d) => Some(d@),
            None => None,
        }
    }

    proof fn lemma_valid(&self)
        requires
            self.inv(),
        ensures
            counts_valid(self@),
    {
        self.state.lemma_wf();
    }

    /// Creates an empty zero-valued counter.
    pub fn new() -> (r: Self)
        ensures
            r@ == Counts::empty(),
            r.delta_view() is None,
    {
        GCounter { state: SortedMap::new(), delta: None }
    }

    /// Creates a counter from replica components, discarding zero entries.
    pub fn from_state(entries: Vec<(ReplicaId, u128)>) -> (r: Self)
        ensures
            r@ == counts_from_entries(entries@.map_values(|e: (ReplicaId, u128)| (e.0@, e.1))),
            r.delta_view() is None,
    {
        let ghost spec_entries = entries@.map_values(|e: (ReplicaId, u128)| (e.0@, e.1));
        let mut state: SortedMap<ReplicaId, u128> = SortedMap::new();
        let n = entries.len();
        let mut i: usize = 0;
        while i < n
            invariant
                n == entries@.len(),
                spec_entries == entries@.map_values(|e: (ReplicaId, u128)| (e.0@, e.1)),
                i <= n,
                state.wf(),
                state@ == counts_from_entries(spec_entries.take(i as int)),
                forall|k: Seq<char>| #[trigger] state@.contains_key(k) ==> state@[k] > 0,
            decreases n - i,
        {
            let (replica, value) = (&entries[i].0, entries[i].1);
            proof {
                assert(spec_entries.take(i + 1).drop_last() =~= spec_entries.take(i as int));
            }
            if value > 0 {
                state.insert(replica.duplicate(), value);
            }
            i = i + 1;
        }
        proof {
            assert(spec_entries.take(n as int) =~= spec_entries);
        }
        GCounter { state, delta: None }
    }

    /// Returns all non-zero replica components in deterministic order.
    pub fn state(&self) -> (r: &SortedMap<ReplicaId, u128>)
        ensures
            r.wf(),
            r@ == self@,
    {
        proof {
            use_type_invariant(self);
        }
        &self.state
    }

    /// Returns one replica component, or zero when absent.
    pub fn replica_value(&self, replica: &ReplicaId) -> (r: u128)
        ensures
            r == get0(self@, replica@),
    {
        proof {
            use_type_invariant(self);
        }
        match self.state.get(replica.as_str()) {
            Some(v) => *v,
            None => 0,
        }
    }

    /// Returns the checked sum of every replica component.
    pub fn value(&self) -> (r: Result<u128, CrdtError>)
        ensures
            r is Ok <==> counts_sum(self@) <= u128::MAX,
            r matches Ok(v) ==> v == counts_sum(self@),
            r matches Err(e) ==> e == CrdtError::CounterOverflow,
    {
        proof {
            use_type_invariant(self);
            self.state.lemma_wf();
            lemma_prefix_map_ends(self.state.key_seq(), self.state.value_seq());
        }
        let ghost ks = self.state.key_seq();
        let ghost vs = self.state.value_seq();
        let n = self.state.len();
        let mut sum: u128 = 0;
        let mut i: usize = 0;
        while i < n
            invariant
                self.state.wf(),
                ks == self.state.key_seq(),
                vs == self.state.value_seq(),
                strictly_sorted(ks),
                ks.len() == vs.len(),
                n == ks.len(),
                i <= n,
                sum == counts_sum(prefix_map(ks, vs, i as int)),
            decreases n - i,
        {
            proof {
                lemma_prefix_map_step(ks, vs, i as int);
                lemma_pairs_finite(ks.take(i as int), vs.take(i as int));
                lemma_pairs_finite(ks.take(i as int + 1), vs.take(i as int + 1));
                lemma_counts_sum_insert(prefix_map(ks, vs, i as int), ks[i as int], vs[i as int]);
            }
            let v = *self.state.value_at(i);
            match sum.checked_add(v) {
                Some(next) => {
                    sum = next;
                },
                None => {
                    proof {
                        lemma_prefix_map_ends(ks, vs);
                        lemma_pairs_finite(ks, vs);
                        lemma_prefix_submap(ks, vs, i as int + 1);
                        lemma_counts_sum_submap(prefix_map(ks, vs, i as int + 1), self@);
                    }
                    return Err(CrdtError::CounterOverflow);
                },
            }
            i = i + 1;
        }
        proof {
            lemma_prefix_map_ends(ks, vs);
        }
        Ok(sum)
    }

    /// Increases one replica component by `amount` and records its new absolute value as a delta.
    ///
    /// Zero is a no-op; overflow of the component is an error, never a wrap.
    pub fn increment(&self, replica: ReplicaId, amount: u128) -> (r: Result<Self, CrdtError>)
        ensures
            r is Err <==> amount > 0 && get0(self@, replica@) + amount > u128::MAX,
            r matches Err(e) ==> e == CrdtError::CounterOverflow,
            r matches Ok(c) ==> amount == 0 ==> c@ == self@,
            r matches Ok(c) ==> amount > 0 ==> c@ == self@.insert(
                replica@,
                (get0(self@, replica@) + amount) as u128,
            ),
            r matches Ok(c) ==> c.delta_view() == incremented_delta(self.delta_view(), self@, replica@, amount),
    {
        proof {
            use_type_invariant(self);
        }
        if amount == 0 {
            return Ok(self.duplicate());
        }
        let current = self.replica_value(&replica);
        let next_value = match current.checked_add(amount) {
            Some(v) => v,
            None => {
                return Err(CrdtError::CounterOverflow);
            },
        };
        let mut state = self.state.duplicate();
        state.insert(replica.duplicate(), next_value);
        let mut delta_state = match &self.delta {
            Some(d) => {
                proof {
                    use_type_invariant(&**d);
                }
                d.state.duplicate()
            },
            None => SortedMap::new(),
        };
        delta_state.insert(replica, next_value);
        Ok(GCounter { state, delta: Some(Box::new(GCounter { state: delta_state, delta: None })) })
    }

    /// Replicas with non-zero components, in deterministic order.
    pub fn modified_by_replicas(&self) -> (r: Vec<ReplicaId>)
        ensures
            r@.len() == self@.len(),
            forall|i: int| 0 <= i < r@.len() ==> self@.contains_key(#[trigger] r@[i]@),
            forall|i: int, j: int| 0 <= i < j < r@.len() ==> crate::order::key_lt(#[trigger] r@[i]@, #[trigger] r@[j]@),
    {
        proof {
            use_type_invariant(self);
            self.state.lemma_wf();
        }
        let r = self.state.keys();
        proof {
            assert forall|i: int| 0 <= i < r@.len() implies self@.contains_key(#[trigger] r@[i]@) by {
                assert(r@[i]@ == self.state.key_seq()[i]);
            }
            assert forall|i: int, j: int| 0 <= i < j < r@.len() implies crate::order::key_lt(#[trigger] r@[i]@, #[trigger] r@[j]@) by {
                assert(r@[i]@ == self.state.key_seq()[i]);
                assert(r@[j]@ == self.state.key_seq()[j]);
            }
        }
        r
    }

    /// Reports whether a departed replica still owns a component.
    pub fn need_pruning_from(&self, removed_replica: &ReplicaId) -> (r: bool)
        ensures
            r == self@.contains_key(removed_replica@),
    {
        proof {
            use_type_invariant(self);
        }
        self.state.contains_key(removed_replica.as_str())
    }

    /// Collapses a departed replica's component into `collapse_into`.
    pub fn prune(&self, removed_replica: &ReplicaId, collapse_into: ReplicaId) -> (r: Result<
        Self,
        CrdtError,
    >)
        ensures
            r is Err <==> counts_prune_overflows(self@, removed_replica@, collapse_into@),
            r matches Err(e) ==> e == CrdtError::CounterOverflow,
            r matches Ok(c) ==> c@ == counts_pruned(self@, removed_replica@, collapse_into@),
            r matches Ok(c) ==> self@.contains_key(removed_replica@) ==> c.delta_view() is None,
            r matches Ok(c) ==> !self@.contains_key(removed_replica@) ==> c.delta_view() == self.delta_view(),
    {
        proof {
            use_type_invariant(self);
        }
        let removed_value = match self.state.get(removed_replica.as_str()) {
            Some(v) => *v,
            None => {
                return Ok(self.duplicate());
            },
        };
        let current = self.replica_value(&collapse_into);
        let next_value = match current.checked_add(removed_value) {
            Some(v) => v,
            None => {
                return Err(CrdtError::CounterOverflow);
            },
        };
        let mut state = self.state.duplicate();
        state.remove(removed_replica.as_str());
        state.insert(collapse_into, next_value);
        Ok(GCounter { state, delta: None })
    }

    /// Removes a departed replica component after distributed pruning completes.
    pub fn pruning_cleanup(&self, removed_replica: &ReplicaId) -> (r: Self)
        ensures
            r@ == self@.remove(removed_replica@),
            r.delta_view() is None,
    {
        proof {
            use_type_invariant(self);
        }
        let mut state = self.state.duplicate();
        state.remove(removed_replica.as_str());
        GCounter { state, delta: None }
    }

    /// A copy with the same state and pending delta.
    pub fn duplicate(&self) -> (r: Self)
        ensures
            r@ == self@,
            r.delta_view() == self.delta_view(),
        decreases self,
    {
        proof {
            use_type_invariant(self);
        }
        let delta = match &self.delta {
            Some(d) => Some(Box::new(d.duplicate())),
            None => None,
        };
        GCounter { state: self.state.duplicate(), delta }
    }
}

proof fn lemma_prefix_submap(ks: Seq<Seq<char>>, vs: Seq<u128>, i: int)
    requires
        strictly_sorted(ks),
        ks.len() == vs.len(),
        0 <= i <= ks.len(),
    ensures
        prefix_map(ks, vs, i).submap_of(prefix_map(ks, vs, ks.len() as int)),
    decreases ks.len() - i,
{
    if i < ks.len() {
        lemma_prefix_submap(ks, vs, i + 1);
        lemma_prefix_map_step(ks, vs, i);
    }
}

impl Clone for GCounter {
    fn clone(&self) -> (r: GCounter)
        ensures
            r@ == self@,
            r.delta_view() == self.delta_view(),
    {
        self.duplicate()
    }
}

impl Duplicate for GCounter {
    fn duplicate(&self) -> (r: GCounter) {
        GCounter::duplicate(self)
    }
}

impl Mergeable for GCounter {
    fn clone_value(&self) -> (r: Self) {
        GCounter::duplicate(self)
    }

    open spec fn settled(&self) -> bool {
        self.delta_view() is None
    }

    open spec fn merged(a: Counts, b: Counts) -> Counts {
        counts_merged(a, b)
    }

    fn merge(&self, other: &Self) -> (r: Self) {
        proof {
            use_type_invariant(self);
            use_type_invariant(other);
            self.state.lemma_wf();
            lemma_prefix_map_ends(self.state.key_seq(), self.state.value_seq());
        }
        let ghost ks = self.state.key_seq();
        let ghost vs = self.state.value_seq();
        let mut state = other.state.duplicate();
        let n = self.state.len();
        let mut i: usize = 0;
        proof {
            assert forall|j: int| 0 <= j < vs.len() implies vs[j] > 0 by {
                assert(self@.contains_key(ks[j]));
            }
            assert(state@ =~= counts_merged(prefix_map(ks, vs, 0), other@));
        }
        while i < n
            invariant
                self.state.wf(),
                ks == self.state.key_seq(),
                vs == self.state.value_seq(),
                strictly_sorted(ks),
                ks.len() == vs.len(),
                n == ks.len(),
                i <= n,
                forall|j: int| 0 <= j < vs.len() ==> vs[j] > 0,
                forall|k: Seq<char>| #[trigger] other@.contains_key(k) ==> other@[k] > 0,
                state.wf(),
                state@ == counts_merged(prefix_map(ks, vs, i as int), other@),
            decreases n - i,
        {
            proof {
                lemma_prefix_map_step(ks, vs, i as int);
            }
            let replica = self.state.key_at(i);
            let this_value = *self.state.value_at(i);
            let that_value = match state.get(replica.as_str()) {
                Some(v) => *v,
                None => 0,
            };
            if this_value > that_value {
                state.insert(replica.duplicate(), this_value);
            }
            proof {
                let p0 = prefix_map(ks, vs, i as int);
                let p1 = prefix_map(ks, vs, i as int + 1);
                assert(state@ =~= counts_merged(p1, other@));
            }
            i = i + 1;
        }
        proof {
            lemma_prefix_map_ends(ks, vs);
            assert forall|k: Seq<char>| #[trigger] state@.contains_key(k) implies state@[k] > 0 by {
                if self@.contains_key(k) {
                    assert(self.state@[k] > 0);
                } else {
                    assert(other.state@[k] > 0);
                }
            }
        }
        GCounter { state, delta: None }
    }
}

impl ReplicatedData for GCounter {
    fn lemma_valid(&self) {
        proof {
            use_type_invariant(self);
            self.state.lemma_wf();
        }
    }

    open spec fn valid(v: Counts) -> bool {
        counts_valid(v)
    }

    open spec fn coherent(a: Counts, b: Counts) -> bool {
        true
    }


    proof fn lemma_merge_closed(a: Counts, b: Counts, c: Counts) {
        assert(counts_merged(a, b).dom() =~= a.dom().union(b.dom()));
    }

    proof fn lemma_coherent_symmetric(a: Counts, b: Counts) {
    }

    proof fn lemma_merge_idempotent(a: Counts) {
        assert(counts_merged(a, a) =~= a);
    }

    proof fn lemma_merge_commutative(a: Counts, b: Counts) {
        assert(counts_merged(a, b) =~= counts_merged(b, a));
    }

    proof fn lemma_merge_associative(a: Counts, b: Counts, c: Counts) {
        assert(counts_merged(counts_merged(a, b), c) =~= counts_merged(a, counts_merged(b, c)));
    }
}

impl DeltaReplicatedData for GCounter {
    type Delta = GCounter;

    open spec fn pending_delta(&self) -> Option<Counts> {
        self.delta_view()
    }

    open spec fn delta_merged(a: Counts, d: Counts) -> Counts {
        counts_merged(a, d)
    }

    fn delta(&self) -> (r: Option<GCounter>) {
        match &self.delta {
            Some(d) => Some(d.duplicate()),
            None => None,
        }
    }

    fn merge_delta(&self, delta: &GCounter) -> (r: GCounter) {
        self.merge(delta)
    }

    fn reset_delta(&self) -> (r: GCounter)
        ensures
            r.delta_view() is None,
    {
        proof {
            use_type_invariant(self);
        }
        GCounter { state: self.state.duplicate(), delta: None }
    }
}

impl ReplicatedDelta for GCounter {
    type Full = GCounter;

    open spec fn zero_state(d: Counts) -> Counts {
        Counts::empty()
    }

    fn zero(&self) -> (r: GCounter)
        ensures
            r@ == Counts::empty(),
    {
        GCounter::new()
    }
}

impl RemovedNodePruning for GCounter {
    open spec fn modified_by(v: Counts) -> Set<Seq<char>> {
        v.dom()
    }

    open spec fn prune_fails(v: Counts, removed: Seq<char>, into: Seq<char>) -> bool {
        counts_prune_overflows(v, removed, into)
    }

    open spec fn pruned(v: Counts, removed: Seq<char>, into: Seq<char>) -> Counts {
        counts_pruned(v, removed, into)
    }

    open spec fn cleaned(v: Counts, removed: Seq<char>) -> Counts {
        v.remove(removed)
    }

    fn modified_by_replica_ids(&self) -> (r: SortedSet<ReplicaId>) {
        proof {
            use_type_invariant(self);
        }
        SortedSet::keys_of(&self.state)
    }

    fn need_pruning_from(&self, removed_replica: &ReplicaId) -> (r: bool) {
        GCounter::need_pruning_from(self, removed_replica)
    }

    fn prune(&self, removed_replica: &ReplicaId, collapse_into: ReplicaId) -> (r: Result<
        GCounter,
        CrdtError,
    >) {
        GCounter::prune(self, removed_replica, collapse_into)
    }

    fn pruning_cleanup(&self, removed_replica: &ReplicaId) -> (r: GCounter) {
        GCounter::pruning_cleanup(self, removed_replica)
    }
}

/// Pruning moves the removed replica's count to the survivor without changing the total.
pub proof fn lemma_prune_preserves_sum(m: Counts, removed: Seq<char>, into: Seq<char>)
    requires
        counts_valid(m),
        removed != into,
        !counts_prune_overflows(m, removed, into),
    ensures
        counts_sum(counts_pruned(m, removed, into)) == counts_sum(m),
        !counts_pruned(m, removed, into).contains_key(removed),
{
    if m.contains_key(removed) {
        lemma_counts_sum_remove(m, removed);
        let m1 = m.remove(removed);
        if m1.contains_key(into) {
            lemma_counts_sum_remove(m1, into);
            let m2 = m1.remove(into);
            lemma_counts_sum_insert(m2, into, (get0(m, into) + m[removed]) as u128);
            assert(m1.insert(into, (get0(m, into) + m[removed]) as u128) =~= m2.insert(
                into,
                (get0(m, into) + m[removed]) as u128,
            ));
        } else {
            lemma_counts_sum_insert(m1, into, (get0(m, into) + m[removed]) as u128);
        }
    }
}


/// A replica holding the state an increment was made on converges to the
/// incremented state by merging the increment's accumulated delta alone.
pub proof fn lemma_increment_delta_converges(a: Counts, d: Counts, replica: Seq<char>, amount: u128)
    requires
        amount > 0,
        get0(a, replica) + amount <= u128::MAX,
        forall|k: Seq<char>| #[trigger] d.contains_key(k) ==> a.contains_key(k) && d[k] <= a[k],
    ensures
        counts_merged(a, d.insert(replica, (get0(a, replica) + amount) as u128)) == a.insert(
            replica,
            (get0(a, replica) + amount) as u128,
        ),
{
    let v = (get0(a, replica) + amount) as u128;
    assert(counts_merged(a, d.insert(replica, v)) =~= a.insert(replica, v));
}

/// Merging never loses a replica's count: every component of the merge is
/// the larger of the two, so a counter's value only grows through merges.
pub proof fn lemma_merge_inflates(a: Counts, b: Counts, replica: Seq<char>)
    ensures
        get0(counts_merged(a, b), replica) >= get0(a, replica),
        get0(counts_merged(a, b), replica) >= get0(b, replica),
        get0(counts_merged(a, b), replica) == get0(a, replica) || get0(counts_merged(a, b), replica)
            == get0(b, replica),
{
}
} // verus!
