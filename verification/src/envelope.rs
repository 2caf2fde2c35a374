//! Replicated data paired with its removed-replica pruning metadata.
use vstd::prelude::*;

use crate::data::{DeltaReplicatedData, Mergeable, RemovedNodePruning, ReplicatedData};
use crate::errors::CrdtError;
use crate::key::ReplicatorKey;
use crate::pruning::{
    ptable_merged, ptable_obsolete, pstate_owner, pstate_seen, PState, PTable, PruningPerformed,
    PruningState, PruningTable,
};
use crate::replica::ReplicaId;
use crate::sorted_map::{lemma_sorted_keys_of, sorted_keys, strictly_sorted, Duplicate};
use crate::sorted_set::SortedSet;

verus! {

/// Removed replicas whose pruning has been performed.
pub open spec fn performed_replicas(p: PTable) -> Set<Seq<char>> {
    Set::new(|k: Seq<char>| p.contains_key(k) && p[k] is Performed)
}

/// Cleans the given replicas out of `v`, in order, where `v` still holds them.
pub open spec fn cleaned_all<D: RemovedNodePruning>(v: D::V, removed: Seq<Seq<char>>) -> D::V
    decreases removed.len(),
{
    if removed.len() == 0 {
        v
    } else {
        let w = cleaned_all::<D>(v, removed.drop_last());
        if D::modified_by(w).contains(removed.last()) {
            D::cleaned(w, removed.last())
        } else {
            w
        }
    }
}

/// Data cleaned of every replica whose pruning the table records as performed.
pub open spec fn cleanup_performed_spec<D: RemovedNodePruning>(v: D::V, p: PTable) -> D::V {
    cleaned_all::<D>(v, sorted_keys(performed_replicas(p)))
}

/// Replicated data value paired with the pruning markers that travel with it.
#[derive(Debug, PartialEq, Eq)]
pub struct DataEnvelope<D> {
    data: D,
    pruning: PruningTable,
}

impl<D: View> View for DataEnvelope<D> {
    type V = (D::V, PTable);

    closed spec fn view(&self) -> (D::V, PTable) {
        (self.data@, self.pruning@)
    }
}

impl<D: ReplicatedData> DataEnvelope<D> {
    /// Wraps `data` with an empty pruning table.
    pub fn new(data: D) -> (r: Self)
        ensures
            r@ == (data@, PTable::empty()),
    {
        DataEnvelope { data, pruning: PruningTable::new() }
    }

    /// Wraps `data` with existing pruning markers.
    pub fn with_pruning(data: D, pruning: PruningTable) -> (r: Self)
        ensures
            r@ == (data@, pruning@),
    {
        DataEnvelope { data, pruning }
    }

    /// The replicated value.
    pub fn data(&self) -> (r: &D)
        ensures
            r@ == self@.0,
            *r == self.data_value(),
    {
        &self.data
    }

    /// The pruning markers.
    pub fn pruning(&self) -> (r: &PruningTable)
        ensures
            r@ == self@.1,
    {
        &self.pruning
    }

    /// Consumes the envelope and returns the value.
    pub fn into_data(self) -> (r: D)
        ensures
            r@ == self@.0,
            r == self.data_value(),
    {
        self.data
    }

    /// Consumes the envelope and returns value and markers.
    pub fn into_parts(self) -> (r: (D, PruningTable))
        ensures
            r.0@ == self@.0,
            r.1@ == self@.1,
    {
        (self.data, self.pruning)
    }

    /// The value held.
    pub closed spec fn data_value(&self) -> D {
        self.data
    }

    /// Merges values and pruning markers of both envelopes; the merged value
    /// carries no pending operations.
    pub fn merge(&self, other: &Self) -> (r: Self)
        ensures
            r@ == (D::merged(self@.0, other@.0), ptable_merged(self@.1, other@.1)),
            r.data_value().settled(),
    {
        DataEnvelope { data: self.data.merge(&other.data), pruning: self.pruning.merge(&other.pruning) }
    }

    /// Merges a bare value, keeping the markers; the merged value carries no
    /// pending operations.
    pub fn merge_data(&self, other: &D) -> (r: Self)
        ensures
            r@ == (D::merged(self@.0, other@), self@.1),
            r.data_value().settled(),
    {
        DataEnvelope { data: self.data.merge(other), pruning: self.pruning.duplicate() }
    }

    pub fn duplicate(&self) -> (r: Self)
        ensures
            r@ == self@,
            r.data_value().settled() == self.data_value().settled(),
    {
        DataEnvelope { data: self.data.clone_value(), pruning: self.pruning.duplicate() }
    }
}

impl<D: DeltaReplicatedData> DataEnvelope<D> {
    /// Applies a delta to the value, keeping the markers.
    pub fn merge_delta(&self, delta: &D::Delta) -> (r: Self)
        ensures
            r@ == (D::delta_merged(self@.0, delta@), self@.1),
    {
        DataEnvelope { data: self.data.merge_delta(delta), pruning: self.pruning.duplicate() }
    }
}

fn cleanup_performed<D: RemovedNodePruning>(data: &D, pruning: &PruningTable) -> (r: D)
    ensures
        r@ == cleanup_performed_spec::<D>(data@, pruning@),
{
    let states = pruning.states();
    proof {
        states.lemma_wf();
    }
    let ghost ks = states.key_seq();
    let ghost vs = states.value_seq();
    let ghost performed: Seq<Seq<char>> = Seq::empty();
    let mut current = data.duplicate();
    let n = states.len();
    let mut i: usize = 0;
    while i < n
        invariant
            states.wf(),
            states@ == pruning@,
            ks == states.key_seq(),
            vs == states.value_seq(),
            strictly_sorted(ks),
            ks.len() == vs.len(),
            n == ks.len(),
            i <= n,
            forall|j: int| 0 <= j < n ==> pruning@.contains_key(#[trigger] ks[j]) && pruning@[ks[j]] == vs[j],
            strictly_sorted(performed),
            performed.to_set() == Set::new(|k: Seq<char>| ks.take(i as int).contains(k) && pruning@[k] is Performed),
            forall|j: int| 0 <= j < performed.len() ==> exists|p: int| 0 <= p < i && #[trigger] performed[j] == ks[p],
            current@ == cleaned_all::<D>(data@, performed),
        decreases n - i,
    {
        let removed = states.key_at(i);
        let state = states.value_at(i);
        let ghost k = ks[i as int];
        let ghost old_performed = performed;
        proof {
            assert(ks.take(i as int + 1) =~= ks.take(i as int).push(k));
        }
        match state {
            PruningState::Performed(_) => {
                let need = current.need_pruning_from(removed);
                if need {
                    current = current.pruning_cleanup(removed);
                }
                proof {
                    performed = performed.push(k);
                    assert(performed.drop_last() =~= old_performed);
                    assert forall|a: int, b: int| 0 <= a < b < performed.len() implies crate::order::key_lt(#[trigger] performed[a], #[trigger] performed[b]) by {
                        if b == performed.len() - 1 {
                            let p = choose|p: int| 0 <= p < i && #[trigger] old_performed[a] == ks[p];
                            assert(crate::order::key_lt(ks[p], ks[i as int]));
                        } else {
                            assert(old_performed[a] == performed[a]);
                            assert(old_performed[b] == performed[b]);
                        }
                    }
                    assert forall|j: int| 0 <= j < performed.len() implies exists|p: int| 0 <= p < i + 1 && #[trigger] performed[j] == ks[p] by {
                        if j == performed.len() - 1 {
                            assert(performed[j] == ks[i as int]);
                        } else {
                            assert(old_performed[j] == performed[j]);
                        }
                    }
                    assert(performed.to_set() =~= Set::new(|x: Seq<char>| ks.take(i as int + 1).contains(x) && pruning@[x] is Performed)) by {
                        assert forall|x: Seq<char>| ks.take(i as int + 1).contains(x) == (ks.take(i as int).contains(x) || x == k) by {
                            if ks.take(i as int + 1).contains(x) {
                                let p = choose|p: int| 0 <= p < i + 1 && #[trigger] ks.take(i as int + 1)[p] == x;
                                if p < i {
                                    assert(ks.take(i as int)[p] == x);
                                }
                            }
                            if ks.take(i as int).contains(x) {
                                let p = choose|p: int| 0 <= p < i && #[trigger] ks.take(i as int)[p] == x;
                                assert(ks.take(i as int + 1)[p] == x);
                            }
                            if x == k {
                                assert(ks.take(i as int + 1)[i as int] == x);
                            }
                        }
                        assert forall|x: Seq<char>| performed.to_set().contains(x) == (old_performed.to_set().contains(x) || x == k) by {
                            if performed.to_set().contains(x) {
                                let p = choose|p: int| 0 <= p < performed.len() && performed[p] == x;
                                if p < old_performed.len() {
                                    assert(old_performed[p] == x);
                                }
                            }
                            if old_performed.to_set().contains(x) {
                                let p = choose|p: int| 0 <= p < old_performed.len() && old_performed[p] == x;
                                assert(performed[p] == x);
                            }
                            if x == k {
                                assert(performed[performed.len() - 1] == x);
                            }
                        }
                    }
                }
            },
            PruningState::Initialized(init) => {
                proof {
                    init.lemma_is_initialized();
                    assert(pruning@[k] == vs[i as int]);
                    assert(Set::new(|x: Seq<char>| ks.take(i as int + 1).contains(x) && pruning@[x] is Performed) =~= Set::new(|x: Seq<char>| ks.take(i as int).contains(x) && pruning@[x] is Performed)) by {
                        assert forall|x: Seq<char>| ks.take(i as int + 1).contains(x) && x != k implies ks.take(i as int).contains(x) by {
                            let p = choose|p: int| 0 <= p < i + 1 && #[trigger] ks.take(i as int + 1)[p] == x;
                            assert(ks.take(i as int)[p] == x);
                        }
                        assert forall|x: Seq<char>| ks.take(i as int).contains(x) implies ks.take(i as int + 1).contains(x) by {
                            let p = choose|p: int| 0 <= p < i && #[trigger] ks.take(i as int)[p] == x;
                            assert(ks.take(i as int + 1)[p] == x);
                        }
                    }
                }
            },
        }
        i = i + 1;
    }
    proof {
        assert(ks.take(n as int) =~= ks);
        assert(performed.to_set() =~= performed_replicas(pruning@)) by {
            assert forall|x: Seq<char>| ks.contains(x) <==> pruning@.contains_key(x) by {
                if pruning@.contains_key(x) {
                    assert(pruning@.dom() == ks.to_set());
                }
            }
        }
        lemma_sorted_keys_of(performed);
    }
    current
}

impl<D: RemovedNodePruning> DataEnvelope<D> {
    /// Replicas whose causal state the value holds.
    pub fn modified_by_replica_ids(&self) -> (r: SortedSet<ReplicaId>)
        ensures
            r.wf(),
            r@ == D::modified_by(self@.0),
    {
        self.data.modified_by_replica_ids()
    }

    /// Whether the value still holds state of `removed_replica`.
    pub fn need_pruning_from(&self, removed_replica: &ReplicaId) -> (r: bool)
        ensures
            r == D::modified_by(self@.0).contains(removed_replica@),
    {
        self.data.need_pruning_from(removed_replica)
    }

    /// Starts pruning `removed`, owned by `owner`.
    pub fn init_removed_node_pruning(&self, removed: ReplicaId, owner: ReplicaId) -> (r: Self)
        ensures
            r@ == (self@.0, self@.1.insert(removed@, PState::Initialized(owner@, Set::empty()))),
    {
        let mut pruning = self.pruning.duplicate();
        pruning.initialize(removed, owner);
        DataEnvelope { data: self.data.duplicate(), pruning }
    }

    /// Collapses `removed` into the marker's owner and records the marker as performed.
    ///
    /// Without an initialized marker for `removed` the envelope is returned unchanged.
    pub fn prune_removed_node(&self, removed: &ReplicaId, performed: PruningPerformed) -> (r: Result<
        Self,
        CrdtError,
    >)
        ensures
            !(self@.1.contains_key(removed@) && self@.1[removed@] is Initialized) ==> r is Ok
                && r.unwrap()@ == self@,
            self@.1.contains_key(removed@) && self@.1[removed@] is Initialized ==> {
                &&& r is Err == D::prune_fails(self@.0, removed@, pstate_owner(self@.1[removed@]))
                &&& r matches Ok(e) ==> e@ == (
                    D::pruned(self@.0, removed@, pstate_owner(self@.1[removed@])),
                    self@.1.insert(removed@, PState::Performed(performed.deadline())),
                )
            },
    {
        let owner = match self.pruning.get(removed) {
            Some(PruningState::Initialized(initialized)) => initialized.owner().duplicate(),
            _ => {
                return Ok(self.duplicate());
            },
        };
        let data = match self.data.prune(removed, owner) {
            Ok(d) => d,
            Err(e) => {
                return Err(e);
            },
        };
        let mut pruning = self.pruning.duplicate();
        pruning.mark_performed(removed.duplicate(), performed.obsolete_at_millis());
        Ok(DataEnvelope { data, pruning })
    }

    /// Drops metadata of an already pruned replica from the value.
    pub fn pruning_cleanup(&self, removed: &ReplicaId) -> (r: Self)
        ensures
            r@ == (D::cleaned(self@.0, removed@), self@.1),
    {
        DataEnvelope { data: self.data.pruning_cleanup(removed), pruning: self.pruning.duplicate() }
    }

    /// Records `seen_by` as having observed every initialized marker.
    pub fn add_pruning_seen(&self, seen_by: ReplicaId) -> (r: Self)
        ensures
            r@ == (
                self@.0,
                Map::new(
                    |k: Seq<char>| self@.1.contains_key(k),
                    |k: Seq<char>| pstate_seen(self@.1[k], seen_by@),
                ),
            ),
    {
        let mut pruning = self.pruning.duplicate();
        pruning.mark_all_seen_by(seen_by);
        DataEnvelope { data: self.data.duplicate(), pruning }
    }

    /// Removes performed markers obsolete at `now_millis`; the value is unchanged.
    pub fn remove_obsolete_pruning_performed(&self, now_millis: u64) -> (r: (Self, SortedSet<ReplicaId>))
        ensures
            r.0@ == (self@.0, self@.1.remove_keys(ptable_obsolete(self@.1, now_millis))),
            r.1.wf(),
            r.1@ == ptable_obsolete(self@.1, now_millis),
    {
        let mut pruning = self.pruning.duplicate();
        let removed = pruning.remove_obsolete_performed(now_millis);
        (DataEnvelope { data: self.data.duplicate(), pruning }, removed)
    }

    /// Merges both envelopes after cleaning every performed replica out of both values.
    pub fn merge_pruned(&self, other: &Self, now_millis: u64) -> (r: Self)
        ensures
            ({
                let p = ptable_merged(self@.1, other@.1).remove_keys(
                    ptable_obsolete(ptable_merged(self@.1, other@.1), now_millis),
                );
                r@ == (
                    D::merged(
                        cleanup_performed_spec::<D>(self@.0, p),
                        cleanup_performed_spec::<D>(other@.0, p),
                    ),
                    p,
                )
            }),
    {
        let pruning = self.pruning.merge_without_obsolete(&other.pruning, now_millis);
        let left = cleanup_performed(&self.data, &pruning);
        let right = cleanup_performed(&other.data, &pruning);
        DataEnvelope { data: left.merge(&right), pruning }
    }
}

/// Envelope merge is commutative, associative and idempotent whenever the
/// value's merge is, so replicas exchanging envelopes in any order agree.
pub proof fn lemma_envelope_merge_laws<D: ReplicatedData>(
    a: (D::V, PTable),
    b: (D::V, PTable),
    c: (D::V, PTable),
)
    requires
        D::valid(a.0),
        D::valid(b.0),
        D::valid(c.0),
        D::coherent(a.0, b.0),
        D::coherent(a.0, c.0),
        D::coherent(b.0, c.0),
    ensures
        (D::merged(a.0, b.0), ptable_merged(a.1, b.1)) == (D::merged(b.0, a.0), ptable_merged(b.1, a.1)),
        (D::merged(D::merged(a.0, b.0), c.0), ptable_merged(ptable_merged(a.1, b.1), c.1)) == (
            D::merged(a.0, D::merged(b.0, c.0)),
            ptable_merged(a.1, ptable_merged(b.1, c.1)),
        ),
        (D::merged(a.0, a.0), ptable_merged(a.1, a.1)) == a,
{
    D::lemma_merge_commutative(a.0, b.0);
    D::lemma_merge_associative(a.0, b.0, c.0);
    D::lemma_merge_idempotent(a.0);
    crate::pruning::lemma_ptable_merge_laws(a.1, b.1, c.1);
}

impl<D: ReplicatedData> Clone for DataEnvelope<D> {
    fn clone(&self) -> (r: Self)
        ensures
            r@ == self@,
    {
        self.duplicate()
    }
}

impl<D: ReplicatedData> Duplicate for DataEnvelope<D> {
    fn duplicate(&self) -> (r: Self) {
        DataEnvelope::duplicate(self)
    }
}

/// Local replicated state: envelopes stored by key.
///
/// Full-state writes and gossip are merged into such a store. A store may
/// name, as spec relations, what it holds and what each write does to it;
/// its methods are held to them. A store that names none keeps the
/// defaults, which constrain nothing.
pub trait EnvelopeStore<D: View>: Sized {
    /// Whether `present` tells if `store` holds a value under `key`.
    open spec fn holds_key(store: Self, key: Seq<char>, present: bool) -> bool {
        true
    }

    /// Whether `stored` is the envelope `store` holds under `key`, if any.
    open spec fn stored_as(store: Self, key: Seq<char>, stored: Option<(D::V, PTable)>) -> bool {
        true
    }

    /// Whether `after`, reporting `changed`, is what merging `envelope` under
    /// `key` into `before` gives (with pruning applied at the wall-clock
    /// time given, if any).
    open spec fn full_merged(
        before: Self,
        key: Seq<char>,
        envelope: (D::V, PTable),
        now_millis: Option<u64>,
        after: Self,
        changed: bool,
    ) -> bool {
        true
    }

    /// Whether a value is stored under `key`.
    fn contains_key(&self, key: &ReplicatorKey) -> (r: bool)
        ensures
            Self::holds_key(*self, key@, r),
    ;

    /// The envelope stored under `key`.
    fn envelope(&self, key: &ReplicatorKey) -> (r: Option<&DataEnvelope<D>>)
        ensures
            Self::stored_as(
                *self,
                key@,
                match r {
                    Some(e) => Some(e@),
                    None => None,
                },
            ),
    ;

    /// Merges `envelope` into the value stored under `key`; whether anything changed.
    fn write_full(&mut self, key: ReplicatorKey, envelope: DataEnvelope<D>) -> (r: bool)
        ensures
            Self::full_merged(*old(self), key@, envelope@, None, *final(self), r),
    ;

    /// Merges `envelope` under `key` with removed-replica pruning applied at
    /// wall-clock `now_millis`; whether anything changed.
    fn write_full_pruned(&mut self, key: ReplicatorKey, envelope: DataEnvelope<D>, now_millis: u64) -> (r: bool)
        ensures
            Self::full_merged(*old(self), key@, envelope@, Some(now_millis), *final(self), r),
    ;
}

} // verus!
