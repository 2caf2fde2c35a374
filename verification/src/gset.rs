//! Immutable grow-only set with full-state and same-type delta replication.
use vstd::prelude::*;

use crate::data::{DeltaReplicatedData, Mergeable, RemovedNodePruning, ReplicatedData, ReplicatedDelta};
use crate::errors::CrdtError;
use crate::replica::ReplicaId;
use crate::sorted_map::{Duplicate, Identifier};
use crate::sorted_set::SortedSet;

verus! {

#[derive(Debug, PartialEq, Eq)]
/// Grow-only set CRDT whose merge is set union.
///
/// Elements cannot be removed. Adds accumulated since the last delta reset are
/// represented by another `GSet<T>`.
pub struct GSet<T: Identifier> {
    elements: SortedSet<T>,
    delta: Option<Box<GSet<T>>>,
}

impl<T: Identifier> View for GSet<T> {
    type V = Set<Seq<char>>;

    closed spec fn view(&self) -> Set<Seq<char>> {
        self.elements@
    }
}

impl<T: Identifier> GSet<T> {
    #[verifier::type_invariant]
    closed spec fn inv(&self) -> bool {
        self.elements.wf()
    }

    /// Adds accumulated since the last delta reset.
    pub closed spec fn delta_view(&self) -> Option<Set<Seq<char>>> {
        match self.delta {
            Some(d) => Some(d@),
            None => None,
        }
    }

    /// Creates an empty set with no accumulated delta.
    pub fn new() -> (r: Self)
        ensures
            r@ == Set::<Seq<char>>::empty(),
            r.delta_view() is None,
    {
        GSet { elements: SortedSet::new(), delta: None }
    }

    /// Creates a deduplicated set with no accumulated delta.
    pub fn from_elements(elements: Vec<T>) -> (r: Self)
        ensures
            r@ == elements@.map_values(|e: T| e@).to_set(),
            r.delta_view() is None,
    {
        let ghost s = elements@.map_values(|e: T| e@);
        let mut set = SortedSet::new();
        let n = elements.len();
        let mut i: usize = 0;
        while i < n
            invariant
                n == elements@.len(),
                s == elements@.map_values(|e: T| e@),
                i <= n,
                set.wf(),
                set@ == s.take(i as int).to_set(),
            decreases n - i,
        {
            set.insert(elements[i].duplicate());
            proof {
                assert(s.take(i as int + 1) =~= s.take(i as int) + seq![s[i as int]]);
                Seq::<Seq<char>>::lemma_to_set_insert_commutes(s.take(i as int), s[i as int]);
            }
            i = i + 1;
        }
        proof {
            assert(s.take(n as int) =~= s);
            assert(s.take(0).to_set() =~= Set::<Seq<char>>::empty());
        }
        GSet { elements: set, delta: None }
    }

    /// Returns all elements in deterministic order.
    pub fn elements(&self) -> (r: &SortedSet<T>)
        ensures
            r.wf(),
            r@ == self@,
    {
        proof {
            use_type_invariant(self);
        }
        &self.elements
    }

    /// Reports whether `element` belongs to the set.
    pub fn contains(&self, element: &T) -> (r: bool)
        ensures
            r == self@.contains(element@),
    {
        proof {
            use_type_invariant(self);
        }
        self.elements.contains(element.as_key())
    }

    /// Reports whether the set contains no elements.
    pub fn is_empty(&self) -> (r: bool)
        ensures
            r == (self@ == Set::<Seq<char>>::empty()),
    {
        proof {
            use_type_invariant(self);
        }
        self.elements.is_empty()
    }

    /// Returns the number of distinct elements.
    pub fn len(&self) -> (r: usize)
        ensures
            r == self@.len(),
    {
        proof {
            use_type_invariant(self);
        }
        self.elements.len()
    }

    /// Returns a set containing `element` and records it in the pending delta.
    pub fn add(&self, element: T) -> (r: Self)
        ensures
            r@ == self@.insert(element@),
            r.delta_view() == Some(
                match self.delta_view() {
                    Some(d) => d,
                    None => Set::<Seq<char>>::empty(),
                }.insert(element@),
            ),
    {
        proof {
            use_type_invariant(self);
        }
        let mut elements = self.elements.duplicate();
        elements.insert(element.duplicate());
        let mut delta_elements = match &self.delta {
            Some(d) => {
                proof {
                    use_type_invariant(&**d);
                }
                d.elements.duplicate()
            },
            None => SortedSet::new(),
        };
        delta_elements.insert(element);
        GSet { elements, delta: Some(Box::new(GSet { elements: delta_elements, delta: None })) }
    }

    /// A copy with the same elements and pending delta.
    pub fn duplicate(&self) -> (r: Self)
        ensures
            r@ == self@,
            r.delta_view() == self.delta_view(),
        decreases self,
    {
        proof {
            use_type_invariant(self);
        }
        let delta = match &self.delta {
            Some(d) => Some(Box::new(d.duplicate())),
            None => None,
        };
        GSet { elements: self.elements.duplicate(), delta }
    }
}

impl<T: Identifier> Clone for GSet<T> {
    fn clone(&self) -> (r: Self)
        ensures
            r@ == self@,
            r.delta_view() == self.delta_view(),
    {
        self.duplicate()
    }
}

impl<T: Identifier> Duplicate for GSet<T> {
    fn duplicate(&self) -> (r: Self) {
        GSet::duplicate(self)
    }
}

impl<T: Identifier> Mergeable for GSet<T> {
    fn clone_value(&self) -> (r: Self) {
        GSet::duplicate(self)
    }

    open spec fn settled(&self) -> bool {
        self.delta_view() is None
    }

    open spec fn merged(a: Set<Seq<char>>, b: Set<Seq<char>>) -> Set<Seq<char>> {
        a.union(b)
    }

    fn merge(&self, other: &Self) -> (r: Self) {
        proof {
            use_type_invariant(self);
            use_type_invariant(other);
        }
        GSet { elements: self.elements.union(&other.elements), delta: None }
    }
}

impl<T: Identifier> ReplicatedData for GSet<T> {
    fn lemma_valid(&self) {
        proof {
            use_type_invariant(self);
            self.elements.lemma_wf();
        }
    }

    open spec fn valid(v: Set<Seq<char>>) -> bool {
        v.finite()
    }

    open spec fn coherent(a: Set<Seq<char>>, b: Set<Seq<char>>) -> bool {
        true
    }


    proof fn lemma_merge_closed(a: Set<Seq<char>>, b: Set<Seq<char>>, c: Set<Seq<char>>) {
    }

    proof fn lemma_coherent_symmetric(a: Set<Seq<char>>, b: Set<Seq<char>>) {
    }

    proof fn lemma_merge_idempotent(a: Set<Seq<char>>) {
        assert(a.union(a) =~= a);
    }

    proof fn lemma_merge_commutative(a: Set<Seq<char>>, b: Set<Seq<char>>) {
        assert(a.union(b) =~= b.union(a));
    }

    proof fn lemma_merge_associative(a: Set<Seq<char>>, b: Set<Seq<char>>, c: Set<Seq<char>>) {
        assert(a.union(b).union(c) =~= a.union(b.union(c)));
    }
}

impl<T: Identifier> DeltaReplicatedData for GSet<T> {
    type Delta = GSet<T>;

    open spec fn pending_delta(&self) -> Option<Set<Seq<char>>> {
        self.delta_view()
    }

    open spec fn delta_merged(a: Set<Seq<char>>, d: Set<Seq<char>>) -> Set<Seq<char>> {
        a.union(d)
    }

    fn delta(&self) -> (r: Option<GSet<T>>) {
        match &self.delta {
            Some(d) => Some(d.duplicate()),
            None => None,
        }
    }

    fn merge_delta(&self, delta: &GSet<T>) -> (r: GSet<T>) {
        self.merge(delta)
    }

    fn reset_delta(&self) -> (r: GSet<T>)
        ensures
            r.delta_view() is None,
    {
        proof {
            use_type_invariant(self);
        }
        GSet { elements: self.elements.duplicate(), delta: None }
    }
}

impl<T: Identifier> ReplicatedDelta for GSet<T> {
    type Full = GSet<T>;

    open spec fn zero_state(d: Set<Seq<char>>) -> Set<Seq<char>> {
        Set::empty()
    }

    fn zero(&self) -> (r: GSet<T>)
        ensures
            r@ == Set::<Seq<char>>::empty(),
    {
        GSet::new()
    }
}

impl<T: Identifier> RemovedNodePruning for GSet<T> {
    open spec fn modified_by(v: Set<Seq<char>>) -> Set<Seq<char>> {
        Set::empty()
    }

    open spec fn prune_fails(v: Set<Seq<char>>, removed: Seq<char>, into: Seq<char>) -> bool {
        false
    }

    open spec fn pruned(v: Set<Seq<char>>, removed: Seq<char>, into: Seq<char>) -> Set<Seq<char>> {
        v
    }

    open spec fn cleaned(v: Set<Seq<char>>, removed: Seq<char>) -> Set<Seq<char>> {
        v
    }

    fn modified_by_replica_ids(&self) -> (r: SortedSet<ReplicaId>) {
        SortedSet::new()
    }

    fn need_pruning_from(&self, removed_replica: &ReplicaId) -> (r: bool) {
        false
    }

    fn prune(&self, removed_replica: &ReplicaId, collapse_into: ReplicaId) -> (r: Result<
        GSet<T>,
        CrdtError,
    >) {
        Ok(self.duplicate())
    }

    fn pruning_cleanup(&self, removed_replica: &ReplicaId) -> (r: GSet<T>) {
        self.duplicate()
    }
}


/// A replica holding the set an element was added to converges to the grown
/// set by merging the addition's accumulated delta alone.
pub proof fn lemma_add_delta_converges(a: Set<Seq<char>>, d: Set<Seq<char>>, element: Seq<char>)
    requires
        d.subset_of(a),
    ensures
        a.union(d.insert(element)) == a.insert(element),
{
    assert(a.union(d.insert(element)) =~= a.insert(element));
}
} // verus!
