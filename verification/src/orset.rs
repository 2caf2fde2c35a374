//! Observed-remove set with per-element dots and a causal version vector.
use vstd::prelude::*;

use crate::data::{DeltaReplicatedData, Mergeable, RemovedNodePruning, ReplicatedData, ReplicatedDelta};
use crate::errors::CrdtError;
use crate::order::{key_lt, lemma_key_lt_facts, lemma_key_lt_transitive};
use crate::replica::ReplicaId;
use crate::sorted_map::{
    lemma_prefix_map_ends, lemma_prefix_map_step, prefix_map, strictly_sorted, Duplicate, Identifier,
    SortedMap,
};
use crate::sorted_set::SortedSet;
use crate::version_vector::{
    dot_merge, dots_merged, sat_inc, versions_dominate, versions_inc, versions_max, versions_one,
    versions_valid, vget, VersionVector, Versions,
};

verus! {

broadcast use lemma_key_lt_facts, lemma_key_lt_transitive;

/// Element dots by element.
pub type DotsByElement = Map<Seq<char>, Versions>;

/// Abstract observed-remove set: element dots and the causal context.
pub type OrView = (DotsByElement, Versions);

/// One delta operation on an observed-remove set.
pub enum OrOp {
    /// Merge of added elements with their dots and context.
    Add(OrView),
    /// Removal of an element observed under `seen`, with the remover's dot.
    Remove(Seq<char>, Versions, Versions),
}

/// Dot of replica `r` on element `e`, zero when absent.
pub open spec fn dot(v: OrView, e: Seq<char>, r: Seq<char>) -> u64 {
    if v.0.contains_key(e) {
        vget(v.0[e], r)
    } else {
        0
    }
}

/// Abstract states reachable by the set's operations.
pub open spec fn or_valid(v: OrView) -> bool {
    &&& versions_valid(v.1)
    &&& forall|e: Seq<char>| #[trigger]
        v.0.contains_key(e) ==> {
            &&& v.0[e] != Versions::empty()
            &&& versions_valid(v.0[e])
            &&& forall|r: Seq<char>| #[trigger]
                v.0[e].contains_key(r) ==> v.0[e][r] <= vget(v.1, r)
        }
}

/// Surviving dot of replica `r` on element `e` when `a` and `b` meet.
pub open spec fn merged_dot(a: OrView, b: OrView, e: Seq<char>, r: Seq<char>) -> u64 {
    dot_merge(dot(a, e, r), vget(a.1, r), dot(b, e, r), vget(b.1, r))
}

/// Surviving dots of element `e`.
pub open spec fn merged_dots(a: OrView, b: OrView, e: Seq<char>) -> Versions {
    Map::new(|r: Seq<char>| merged_dot(a, b, e, r) > 0, |r: Seq<char>| merged_dot(a, b, e, r))
}

/// Full-state merge: elements keep the dots that survive.
pub open spec fn or_merged(a: OrView, b: OrView) -> OrView {
    (
        Map::new(
            |e: Seq<char>| exists|r: Seq<char>| #[trigger] merged_dot(a, b, e, r) > 0,
            |e: Seq<char>| merged_dots(a, b, e),
        ),
        versions_max(a.1, b.1),
    )
}

/// Dots of element `e` after merging an add delta `a`.
pub open spec fn added_dots(v: OrView, a: OrView, e: Seq<char>) -> Versions {
    if v.0.contains_key(e) {
        dots_merged(v.0[e], v.1, a.0[e], a.1)
    } else {
        a.0[e]
    }
}

/// Merging an add delta touches only the delta's elements.
pub open spec fn or_apply_add(v: OrView, a: OrView) -> OrView {
    (
        Map::new(
            |e: Seq<char>|
                if a.0.contains_key(e) {
                    added_dots(v, a, e) != Versions::empty()
                } else {
                    v.0.contains_key(e)
                },
            |e: Seq<char>|
                if a.0.contains_key(e) {
                    added_dots(v, a, e)
                } else {
                    v.0[e]
                },
        ),
        versions_max(v.1, a.1),
    )
}

/// Merging a remove delta drops the element when every dot was observed.
pub open spec fn or_apply_remove(v: OrView, e: Seq<char>, seen: Versions, rdot: Versions) -> OrView {
    (
        if v.0.contains_key(e) && versions_dominate(seen, v.0[e]) {
            v.0.remove(e)
        } else {
            v.0
        },
        versions_max(v.1, rdot),
    )
}

pub open spec fn or_apply_op(v: OrView, op: OrOp) -> OrView {
    match op {
        OrOp::Add(a) => or_apply_add(v, a),
        OrOp::Remove(e, seen, rdot) => or_apply_remove(v, e, seen, rdot),
    }
}

/// Applies delta operations in order.
pub open spec fn or_apply_ops(v: OrView, ops: Seq<OrOp>) -> OrView
    decreases ops.len(),
{
    if ops.len() == 0 {
        v
    } else {
        or_apply_op(or_apply_ops(v, ops.drop_last()), ops.last())
    }
}

/// The state after adding `e` by `replica`.
pub open spec fn or_added(v: OrView, replica: Seq<char>, e: Seq<char>) -> OrView {
    (
        v.0.insert(e, map![replica => sat_inc(vget(v.1, replica))]),
        versions_inc(v.1, replica),
    )
}

/// Operations of a delta in application order.
pub open spec fn delta_ops<T: Identifier>(d: ORSetDelta<T>) -> Seq<OrOp>
    decreases d,
{
    match d {
        ORSetDelta::Add(s) => seq![OrOp::Add(s@)],
        ORSetDelta::Remove(r) => seq![OrOp::Remove(r@.0, r@.1, r@.2)],
        ORSetDelta::Group(ops) => delta_list_ops(ops@),
    }
}

/// Operations of a list of deltas in application order.
pub open spec fn delta_list_ops<T: Identifier>(s: Seq<ORSetDelta<T>>) -> Seq<OrOp>
    decreases s,
{
    if s.len() == 0 {
        Seq::empty()
    } else {
        delta_list_ops(s.drop_last()) + delta_ops(s.last())
    }
}

pub proof fn lemma_delta_list_ops_concat<T: Identifier>(a: Seq<ORSetDelta<T>>, b: Seq<ORSetDelta<T>>)
    ensures
        delta_list_ops(a + b) == delta_list_ops(a) + delta_list_ops(b),
    decreases b.len(),
{
    if b.len() == 0 {
        assert(a + b =~= a);
        assert(delta_list_ops(b) =~= Seq::<OrOp>::empty());
        assert(delta_list_ops(a) + delta_list_ops(b) =~= delta_list_ops(a));
    } else {
        lemma_delta_list_ops_concat(a, b.drop_last());
        assert((a + b).drop_last() =~= a + b.drop_last());
        assert((a + b).last() == b.last());
        assert(delta_list_ops(a) + delta_list_ops(b.drop_last()) + delta_ops(b.last()) =~= delta_list_ops(a) + (delta_list_ops(b.drop_last()) + delta_ops(b.last())));
    }
}

pub proof fn lemma_delta_list_ops_one<T: Identifier>(d: ORSetDelta<T>)
    ensures
        delta_list_ops(seq![d]) == delta_ops(d),
{
    assert(seq![d].drop_last() =~= Seq::<ORSetDelta<T>>::empty());
    assert(seq![d].last() == d);
    assert(delta_list_ops(Seq::<ORSetDelta<T>>::empty()) == Seq::<OrOp>::empty());
    assert(Seq::<OrOp>::empty() + delta_ops(d) =~= delta_ops(d));
}

pub proof fn lemma_apply_ops_concat(v: OrView, a: Seq<OrOp>, b: Seq<OrOp>)
    ensures
        or_apply_ops(v, a + b) == or_apply_ops(or_apply_ops(v, a), b),
    decreases b.len(),
{
    if b.len() == 0 {
        assert(a + b =~= a);
    } else {
        lemma_apply_ops_concat(v, a, b.drop_last());
        assert((a + b).drop_last() =~= a + b.drop_last());
    }
}

/// Element dots of `e` are absent exactly when no replica has a dot.
proof fn lemma_dot_of_merged(a: OrView, b: OrView, e: Seq<char>, r: Seq<char>)
    ensures
        dot(or_merged(a, b), e, r) == merged_dot(a, b, e, r),
{
    if !or_merged(a, b).0.contains_key(e) {
        assert(!(merged_dot(a, b, e, r) > 0));
    }
}

/// Per-replica facts of the keep-or-take rule on valid inputs.
proof fn lemma_dot_merge_facts(l: u64, lc: u64, rr: u64, rc: u64, m: u64, mc: u64)
    requires
        l <= lc,
        rr <= rc,
        m <= mc,
    ensures
        dot_merge(l, lc, rr, rc) == dot_merge(rr, rc, l, lc),
        dot_merge(l, lc, l, lc) == l,
        dot_merge(l, lc, rr, rc) <= if lc >= rc {
            lc
        } else {
            rc
        },
        dot_merge(
            dot_merge(l, lc, rr, rc),
            if lc >= rc {
                lc
            } else {
                rc
            },
            m,
            mc,
        ) == dot_merge(
            l,
            lc,
            dot_merge(rr, rc, m, mc),
            if rc >= mc {
                rc
            } else {
                mc
            },
        ),
{
}

/// Elements whose dots include a dot of `removed`.
pub open spec fn or_touched(v: OrView, removed: Seq<char>) -> Set<Seq<char>> {
    Set::new(|e: Seq<char>| v.0.contains_key(e) && v.0[e].contains_key(removed))
}

/// `x + n`, saturating at `u64::MAX`.
pub open spec fn sat_add(x: u64, n: nat) -> u64 {
    if x + n > u64::MAX {
        u64::MAX
    } else {
        (x + n) as u64
    }
}

/// Context after dropping `removed` and advancing `into`.
pub open spec fn or_base_context(v: OrView, removed: Seq<char>, into: Seq<char>) -> Versions {
    versions_inc(v.1.remove(removed), into)
}

/// Number of touched elements ordered before `e`.
pub open spec fn or_rank(v: OrView, removed: Seq<char>, e: Seq<char>) -> nat {
    or_touched(v, removed).filter(|t: Seq<char>| key_lt(t, e)).len()
}

/// Collapsing `removed` into `into`: every touched element is re-added by
/// `into` in ascending element order, each receiving the next version.
pub open spec fn or_pruned(v: OrView, removed: Seq<char>, into: Seq<char>) -> OrView {
    let b = vget(or_base_context(v, removed, into), into);
    (
        Map::new(
            |e: Seq<char>| v.0.contains_key(e),
            |e: Seq<char>|
                if or_touched(v, removed).contains(e) {
                    map![into => sat_add(b, or_rank(v, removed, e) + 1)]
                } else {
                    v.0[e]
                },
        ),
        or_base_context(v, removed, into).insert(
            into,
            sat_add(b, or_touched(v, removed).len()),
        ),
    )
}

/// Dropping the dots and context entry of an already pruned replica.
pub open spec fn or_cleaned(v: OrView, removed: Seq<char>) -> OrView {
    (
        Map::new(
            |e: Seq<char>| v.0.contains_key(e) && v.0[e].remove(removed) != Versions::empty(),
            |e: Seq<char>| v.0[e].remove(removed),
        ),
        v.1.remove(removed),
    )
}

/// Dots after the first pruning pass.
pub open spec fn or_base_dots(v: OrView, removed: Seq<char>, into: Seq<char>, e: Seq<char>) -> Versions {
    if v.0[e].contains_key(removed) {
        versions_inc(v.0[e].remove(removed), into)
    } else {
        v.0[e]
    }
}

/// In a strictly sorted sequence, exactly `j` members precede the `j`-th.
pub proof fn lemma_sorted_rank(q: Seq<Seq<char>>, j: int)
    requires
        strictly_sorted(q),
        0 <= j < q.len(),
    ensures
        q.to_set().filter(|t: Seq<char>| key_lt(t, q[j])).len() == j,
{
    let f = q.to_set().filter(|t: Seq<char>| key_lt(t, q[j]));
    assert forall|t: Seq<char>| f.contains(t) <==> q.take(j).to_set().contains(t) by {
        if f.contains(t) {
            let p = choose|p: int| 0 <= p < q.len() && q[p] == t;
            if p >= j {
                if p > j {
                    assert(key_lt(q[j], q[p]));
                }
            }
            assert(q.take(j)[p] == t);
        }
        if q.take(j).to_set().contains(t) {
            let p = choose|p: int| 0 <= p < j && q.take(j)[p] == t;
            assert(q[p] == t);
            assert(key_lt(q[p], q[j]));
        }
    }
    assert(f =~= q.take(j).to_set());
    assert(strictly_sorted(q.take(j)));
    crate::sorted_map::lemma_sorted_no_duplicates(q.take(j));
}

#[derive(Debug, PartialEq, Eq)]
/// Observed-remove set CRDT with add-wins concurrent semantics.
pub struct ORSet<T: Identifier> {
    elements: SortedMap<T, VersionVector>,
    version_vector: VersionVector,
    delta: Option<Box<ORSetDelta<T>>>,
}

#[derive(Debug, PartialEq, Eq)]
/// Delta of an observed-remove set: an add, a remove, or a sequence of both.
pub enum ORSetDelta<T: Identifier> {
    /// Added elements with their dots and causal context.
    Add(ORSet<T>),
    /// Removal of one observed element.
    Remove(ORSetRemoveDelta<T>),
    /// Deltas applied in order.
    Group(Vec<ORSetDelta<T>>),
}

#[derive(Debug, PartialEq, Eq)]
/// Removal of one element together with the context under which it was observed.
pub struct ORSetRemoveDelta<T: Identifier> {
    element: T,
    seen: VersionVector,
    remove_dot: VersionVector,
}

/// The dots of each element of a wire listing: the last listing of an
/// element with dots wins, and elements listed without dots are left out.
pub open spec fn wire_dots(es: Seq<(Seq<char>, Versions)>) -> DotsByElement
    decreases es.len(),
{
    if es.len() == 0 {
        DotsByElement::empty()
    } else {
        let rest = wire_dots(es.drop_last());
        if es.last().1 == Versions::empty() {
            rest
        } else {
            rest.insert(es.last().0, es.last().1)
        }
    }
}

/// A wire listing of elements with their dots, viewed.
pub open spec fn wire_listing<T: Identifier>(es: Seq<(T, VersionVector)>) -> Seq<(Seq<char>, Versions)> {
    es.map_values(|p: (T, VersionVector)| (p.0@, p.1@))
}

impl<T: Identifier> View for ORSet<T> {
    type V = OrView;

    closed spec fn view(&self) -> OrView {
        (self.elements@, self.version_vector@)
    }
}

impl<T: Identifier> View for ORSetRemoveDelta<T> {
    type V = (Seq<char>, Versions, Versions);

    closed spec fn view(&self) -> (Seq<char>, Versions, Versions) {
        (self.element@, self.seen@, self.remove_dot@)
    }
}

impl<T: Identifier> View for ORSetDelta<T> {
    type V = Seq<OrOp>;

    open spec fn view(&self) -> Seq<OrOp> {
        delta_ops(*self)
    }
}

impl<T: Identifier> ORSetRemoveDelta<T> {
    /// The removal of `element` observed under `seen`, with its own dot
    /// `remove_dot`.
    pub fn from_wire_state(element: T, seen: VersionVector, remove_dot: VersionVector) -> (r: Self)
        ensures
            r@ == (element@, seen@, remove_dot@),
    {
        ORSetRemoveDelta { element, seen, remove_dot }
    }

    /// The context under which the element was observed.
    pub fn seen(&self) -> (r: &VersionVector)
        ensures
            r@ == self@.1,
    {
        &self.seen
    }

    /// The dot of the removal itself.
    pub fn remove_dot(&self) -> (r: &VersionVector)
        ensures
            r@ == self@.2,
    {
        &self.remove_dot
    }

    /// The removed element.
    pub fn element(&self) -> (r: &T)
        ensures
            r@ == self@.0,
    {
        &self.element
    }

    pub fn duplicate(&self) -> (r: Self)
        ensures
            r@ == self@,
    {
        ORSetRemoveDelta {
            element: self.element.duplicate(),
            seen: self.seen.duplicate(),
            remove_dot: self.remove_dot.duplicate(),
        }
    }
}

/// The removed element when a delta is a single removal.
pub open spec fn single_removed<T: Identifier>(d: ORSetDelta<T>) -> Option<Seq<char>> {
    match d {
        ORSetDelta::Remove(r) => Some(r@.0),
        _ => None,
    }
}

impl<T: Identifier> ORSetDelta<T> {
    pub fn duplicate(&self) -> (r: Self)
        ensures
            r@ == self@,
            single_removed(r) == single_removed(*self),
        decreases self,
    {
        match self {
            ORSetDelta::Add(s) => ORSetDelta::Add(s.duplicate()),
            ORSetDelta::Remove(r) => ORSetDelta::Remove(r.duplicate()),
            ORSetDelta::Group(ops) => {
                let mut out: Vec<ORSetDelta<T>> = Vec::new();
                let n = ops.len();
                let mut i: usize = 0;
                #[verifier::loop_isolation(false)]
                while i < n
                    invariant
                        n == ops@.len(),
                        i <= n,
                        out@.len() == i,
                        forall|j: int| 0 <= j < i ==> (#[trigger] out@[j])@ == ops@[j]@,
                    decreases n - i,
                {
                    proof {
                        assert(decreases_to!(ops@ => ops@[i as int]));
                        assert(decreases_to!(*ops => ops@));
                        assert(decreases_to!(self => ops@[i as int]));
                    }
                    out.push(ops[i].duplicate());
                    i = i + 1;
                }
                proof {
                    lemma_list_ops_ext(out@, ops@);
                }
                ORSetDelta::Group(out)
            },
        }
    }
}

/// Lists whose members have equal operations have equal operations.
pub proof fn lemma_list_ops_ext<T: Identifier>(a: Seq<ORSetDelta<T>>, b: Seq<ORSetDelta<T>>)
    requires
        a.len() == b.len(),
        forall|j: int| 0 <= j < a.len() ==> (#[trigger] a[j])@ == b[j]@,
    ensures
        delta_list_ops(a) == delta_list_ops(b),
    decreases a.len(),
{
    if a.len() > 0 {
        lemma_list_ops_ext(a.drop_last(), b.drop_last());
        assert(a.last()@ == b.last()@);
    }
}

impl<T: Identifier> ORSet<T> {
    #[verifier::type_invariant]
    closed spec fn inv(&self) -> bool {
        &&& self.elements.wf()
        &&& or_valid(self@)
    }

    /// Pending delta operations since the last reset.
    pub closed spec fn delta_view(&self) -> Option<Seq<OrOp>> {
        match self.delta {
            Some(d) => Some(d@),
            None => None,
        }
    }

    /// The removed element when the pending delta is a single removal.
    pub closed spec fn delta_single_removed(&self) -> Option<Seq<char>> {
        match self.delta {
            Some(d) => single_removed(*d),
            None => None,
        }
    }

    /// Pending delta operations, none when absent.
    pub open spec fn pending_ops(&self) -> Seq<OrOp> {
        match self.delta_view() {
            Some(ops) => ops,
            None => Seq::empty(),
        }
    }

    /// Creates an empty set with no accumulated delta.
    pub fn new() -> (r: Self)
        ensures
            r@ == (DotsByElement::empty(), Versions::empty()),
            r.delta_view() is None,
    {
        ORSet { elements: SortedMap::new(), version_vector: VersionVector::new(), delta: None }
    }

    /// The set described by a wire listing of elements with their dots, and
    /// its causal context: the last listing of an element with dots wins,
    /// and elements listed without dots are left out. A listing with a dot
    /// newer than the context describes no set.
    pub fn from_wire_state(elements: Vec<(T, VersionVector)>, version_vector: VersionVector) -> (r: Option<
        Self,
    >)
        ensures
            r is Some <==> forall|e: Seq<char>| #[trigger]
                wire_dots(wire_listing(elements@)).contains_key(e) ==> versions_dominate(
                    version_vector@,
                    wire_dots(wire_listing(elements@))[e],
                ),
            r matches Some(s) ==> s@ == (wire_dots(wire_listing(elements@)), version_vector@)
                && s.delta_view() is None,
    {
        let ghost ev = wire_listing(elements@);
        let mut map: SortedMap<T, VersionVector> = SortedMap::new();
        let n = elements.len();
        let mut i: usize = 0;
        proof {
            assert(ev.take(0) =~= Seq::<(Seq<char>, Versions)>::empty());
        }
        while i < n
            invariant
                n == elements@.len(),
                ev == wire_listing(elements@),
                i <= n,
                map.wf(),
                map@ == wire_dots(ev.take(i as int)),
                forall|k: Seq<char>| #[trigger]
                    map@.contains_key(k) ==> map@[k] != Versions::empty() && versions_valid(map@[k]),
            decreases n - i,
        {
            let pair = &elements[i];
            pair.1.lemma_valid();
            proof {
                assert(ev.take(i + 1).drop_last() =~= ev.take(i as int));
                assert(ev.take(i + 1).last() == (pair.0@, pair.1@));
            }
            if !pair.1.is_empty() {
                map.insert(pair.0.duplicate(), pair.1.duplicate());
            }
            i = i + 1;
        }
        proof {
            assert(ev.take(n as int) =~= ev);
            map.lemma_wf();
        }
        let m = map.len();
        let mut j: usize = 0;
        while j < m
            invariant
                map.wf(),
                m == map.key_seq().len(),
                m == map.value_seq().len(),
                j <= m,
                ev == wire_listing(elements@),
                map@ == wire_dots(ev),
                forall|k: int| 0 <= k < j ==> versions_dominate(version_vector@, #[trigger] map.value_seq()[k]),
            decreases m - j,
        {
            if !version_vector.dominates(map.value_at(j)) {
                proof {
                    map.lemma_wf();
                    let e = map.key_seq()[j as int];
                    assert(map@.contains_key(e));
                    assert(!versions_dominate(version_vector@, map@[e]));
                }
                return None;
            }
            j = j + 1;
        }
        version_vector.lemma_valid();
        proof {
            map.lemma_wf();
            assert forall|e: Seq<char>| #[trigger] map@.contains_key(e) implies versions_dominate(
                version_vector@,
                map@[e],
            ) by {
                let k = choose|k: int| 0 <= k < m && map.key_seq()[k] == e;
                assert(map.key_seq().contains(e));
                assert(map@[map.key_seq()[k]] == map.value_seq()[k]);
            }
        }
        Some(ORSet { elements: map, version_vector, delta: None })
    }

    /// Returns all present elements in deterministic order.
    pub fn elements(&self) -> (r: SortedSet<T>)
        ensures
            r.wf(),
            r@ == self@.0.dom(),
    {
        proof {
            use_type_invariant(self);
        }
        SortedSet::keys_of(&self.elements)
    }

    /// Reports whether `element` is present.
    pub fn contains(&self, element: &T) -> (r: bool)
        ensures
            r == self@.0.contains_key(element@),
    {
        proof {
            use_type_invariant(self);
        }
        self.elements.contains_key(element.as_key())
    }

    /// Reports whether no element is present.
    pub fn is_empty(&self) -> (r: bool)
        ensures
            r == (self@.0 == DotsByElement::empty()),
    {
        proof {
            use_type_invariant(self);
        }
        self.elements.is_empty()
    }

    /// Returns the number of present elements.
    pub fn len(&self) -> (r: usize)
        ensures
            r == self@.0.len(),
    {
        proof {
            use_type_invariant(self);
        }
        self.elements.len()
    }

    /// Returns the dots recorded for `element`.
    pub fn dots_for(&self, element: &T) -> (r: Option<&SortedMap<ReplicaId, u64>>)
        ensures
            r is Some == self@.0.contains_key(element@),
            r matches Some(d) ==> d.wf() && d@ == self@.0[element@],
    {
        proof {
            use_type_invariant(self);
        }
        match self.elements.get(element.as_key()) {
            Some(dots) => Some(dots.entries()),
            None => None,
        }
    }

    /// The causal context.
    pub fn version_vector_entries(&self) -> (r: &SortedMap<ReplicaId, u64>)
        ensures
            r.wf(),
            r@ == self@.1,
    {
        self.version_vector.entries()
    }

    /// Adds `element` with a fresh dot of `replica` and records the add as a delta.
    pub fn add(&self, replica: ReplicaId, element: T) -> (r: Self)
        ensures
            r@ == or_added(self@, replica@, element@),
            r.delta_view() == Some(
                self.pending_ops().push(
                    OrOp::Add(
                        (
                            map![element@ => map![replica@ => sat_inc(vget(self@.1, replica@))]],
                            map![replica@ => sat_inc(vget(self@.1, replica@))],
                        ),
                    ),
                ),
            ),
    {
        proof {
            use_type_invariant(self);
        }
        let next_version_vector = self.version_vector.increment(&replica);
        let version = next_version_vector.version_at(&replica);
        let element_dot = VersionVector::one(replica.duplicate(), version);
        let mut elements = self.elements.duplicate();
        elements.insert(element.duplicate(), element_dot.duplicate());
        let mut add_elements = SortedMap::new();
        add_elements.insert(element, element_dot.duplicate());
        proof {
            assert(element_dot@ =~= map![replica@ => version]);
            assert(add_elements@ =~= map![element@ => map![replica@ => version]]);
            let av = (add_elements@, element_dot@);
            assert forall|e: Seq<char>| #[trigger] av.0.contains_key(e) implies {
                &&& av.0[e] != Versions::empty()
                &&& versions_valid(av.0[e])
                &&& forall|r: Seq<char>| #[trigger]
                    av.0[e].contains_key(r) ==> av.0[e][r] <= vget(av.1, r)
            } by {
                assert(av.0[e].contains_key(replica@));
            }
            let nv = (elements@, next_version_vector@);
            assert forall|e: Seq<char>| #[trigger] nv.0.contains_key(e) implies {
                &&& nv.0[e] != Versions::empty()
                &&& versions_valid(nv.0[e])
                &&& forall|r: Seq<char>| #[trigger]
                    nv.0[e].contains_key(r) ==> nv.0[e][r] <= vget(nv.1, r)
            } by {
                if e == element@ {
                    assert(nv.0[e].contains_key(replica@));
                } else {
                    assert(self@.0.contains_key(e));
                }
            }
        }
        let add = ORSet { elements: add_elements, version_vector: element_dot, delta: None };
        let add_delta = ORSetDelta::Add(add);
        proof {
            assert(add_delta@ =~= seq![OrOp::Add(add@)]);
        }
        let delta = merge_optional_delta(&self.delta, add_delta);
        let r = ORSet { elements, version_vector: next_version_vector, delta: Some(Box::new(delta)) };
        proof {
            assert(r@.0 =~= or_added(self@, replica@, element@).0);
        }
        r
    }

    /// Removes an observed element and records the removal as a delta.
    pub fn remove(&self, replica: ReplicaId, element: &T) -> (r: Self)
        ensures
            !self@.0.contains_key(element@) ==> r@ == self@ && r.delta_view() == self.delta_view(),
            self@.0.contains_key(element@) ==> r@ == (self@.0.remove(element@), self@.1)
                && r.delta_view() == Some(
                self.pending_ops().push(
                    OrOp::Remove(
                        element@,
                        self@.1,
                        versions_one(replica@, vget(self@.1, replica@)),
                    ),
                ),
            ),
            self@.0.contains_key(element@) && self.delta_view() is None ==> r.delta_single_removed()
                == Some(element@),
    {
        proof {
            use_type_invariant(self);
        }
        if !self.elements.contains_key(element.as_key()) {
            return self.duplicate();
        }
        let remove_delta = ORSetDelta::Remove(
            ORSetRemoveDelta {
                element: element.duplicate(),
                seen: self.version_vector.duplicate(),
                remove_dot: VersionVector::one(
                    replica.duplicate(),
                    self.version_vector.version_at(&replica),
                ),
            },
        );
        let mut elements = self.elements.duplicate();
        elements.remove(element.as_key());
        let delta = merge_optional_delta(&self.delta, remove_delta);
        ORSet { elements, version_vector: self.version_vector.duplicate(), delta: Some(Box::new(delta)) }
    }

    /// A copy with the same state and pending delta.
    pub fn duplicate(&self) -> (r: Self)
        ensures
            r@ == self@,
            r.delta_view() == self.delta_view(),
        decreases self,
    {
        proof {
            use_type_invariant(self);
        }
        let delta = match &self.delta {
            Some(d) => Some(Box::new(d.duplicate())),
            None => None,
        };
        ORSet {
            elements: self.elements.duplicate(),
            version_vector: self.version_vector.duplicate(),
            delta,
        }
    }

    /// The same state without a pending delta.
    pub fn reset(&self) -> (r: Self)
        ensures
            r@ == self@,
            r.delta_view() is None,
    {
        proof {
            use_type_invariant(self);
        }
        ORSet {
            elements: self.elements.duplicate(),
            version_vector: self.version_vector.duplicate(),
            delta: None,
        }
    }

    fn merge_add_delta(&self, add: &Self) -> (r: Self)
        ensures
            r@ == or_apply_add(self@, add@),
            r.delta_view() is None,
    {
        proof {
            use_type_invariant(self);
            use_type_invariant(add);
            add.elements.lemma_wf();
            lemma_prefix_map_ends(add.elements.key_seq(), add.elements.value_seq());
        }
        let ghost ks = add.elements.key_seq();
        let ghost vs = add.elements.value_seq();
        let mut elements = self.elements.duplicate();
        let n = add.elements.len();
        let mut i: usize = 0;
        proof {
            assert(elements@ =~= or_apply_add(self@, (prefix_map(ks, vs, 0), add@.1)).0);
        }
        while i < n
            invariant
                add.elements.wf(),
                self.elements.wf(),
                ks == add.elements.key_seq(),
                vs == add.elements.value_seq(),
                strictly_sorted(ks),
                ks.len() == vs.len(),
                n == ks.len(),
                i <= n,
                pairs_of(add@.0, ks, vs),
                elements.wf(),
                elements@ == or_apply_add(self@, (prefix_map(ks, vs, i as int), add@.1)).0,
            decreases n - i,
        {
            proof {
                lemma_prefix_map_step(ks, vs, i as int);
            }
            let element = add.elements.key_at(i);
            let add_dots = add.elements.value_at(i);
            let merged = match self.elements.get(element.as_key()) {
                Some(existing) => VersionVector::merge_dots(
                    existing,
                    add_dots,
                    &self.version_vector,
                    &add.version_vector,
                ),
                None => add_dots.duplicate(),
            };
            if merged.is_empty() {
                elements.remove(element.as_key());
            } else {
                elements.insert(element.duplicate(), merged);
            }
            proof {
                assert(elements@ =~= or_apply_add(
                    self@,
                    (prefix_map(ks, vs, i as int + 1), add@.1),
                ).0);
            }
            i = i + 1;
        }
        proof {
            lemma_prefix_map_ends(ks, vs);
            lemma_apply_add_valid(self@, add@);
        }
        ORSet {
            elements,
            version_vector: self.version_vector.merge(&add.version_vector),
            delta: None,
        }
    }

    fn merge_remove_delta(&self, remove: &ORSetRemoveDelta<T>) -> (r: Self)
        ensures
            r@ == or_apply_remove(self@, remove@.0, remove@.1, remove@.2),
            r.delta_view() is None,
    {
        proof {
            use_type_invariant(self);
        }
        let mut elements = self.elements.duplicate();
        let drop = match self.elements.get(remove.element.as_key()) {
            Some(dots) => remove.seen.dominates(dots),
            None => false,
        };
        if drop {
            elements.remove(remove.element.as_key());
        }
        remove.remove_dot.lemma_valid();
        proof {
            let nv = or_apply_remove(self@, remove@.0, remove@.1, remove@.2);
            assert forall|e: Seq<char>| #[trigger] nv.0.contains_key(e) implies {
                &&& nv.0[e] != Versions::empty()
                &&& versions_valid(nv.0[e])
                &&& forall|r: Seq<char>| #[trigger]
                    nv.0[e].contains_key(r) ==> nv.0[e][r] <= vget(nv.1, r)
            } by {
                assert(self@.0.contains_key(e));
            }
        }
        ORSet {
            elements,
            version_vector: self.version_vector.merge(&remove.remove_dot),
            delta: None,
        }
    }

    /// Applies a delta operation by operation.
    pub fn apply_delta(&self, delta: &ORSetDelta<T>) -> (r: Self)
        ensures
            r@ == or_apply_ops(self@, delta@),
        decreases delta,
    {
        match delta {
            ORSetDelta::Add(add) => {
                let r = self.merge_add_delta(add);
                proof {
                    let ops = seq![OrOp::Add(add@)];
                    assert(delta@ == ops);
                    assert(ops.drop_last() =~= Seq::<OrOp>::empty());
                    assert(ops.last() == OrOp::Add(add@));
                    assert(or_apply_ops(self@, Seq::<OrOp>::empty()) == self@);
                }
                r
            },
            ORSetDelta::Remove(remove) => {
                let r = self.merge_remove_delta(remove);
                proof {
                    let ops = seq![OrOp::Remove(remove@.0, remove@.1, remove@.2)];
                    assert(delta@ == ops);
                    assert(ops.drop_last() =~= Seq::<OrOp>::empty());
                    assert(ops.last() == OrOp::Remove(remove@.0, remove@.1, remove@.2));
                    assert(or_apply_ops(self@, Seq::<OrOp>::empty()) == self@);
                }
                r
            },
            ORSetDelta::Group(ops) => {
                let mut current = self.reset();
                let n = ops.len();
                let mut i: usize = 0;
                proof {
                    assert(ops@.take(0) =~= Seq::<ORSetDelta<T>>::empty());
                }
                #[verifier::loop_isolation(false)]
                while i < n
                    invariant
                        n == ops@.len(),
                        i <= n,
                        current@ == or_apply_ops(self@, delta_list_ops(ops@.take(i as int))),
                    decreases n - i,
                {
                    proof {
                        assert(decreases_to!(ops@ => ops@[i as int]));
                        assert(decreases_to!(*ops => ops@));
                        assert(decreases_to!(delta => ops@[i as int]));
                    }
                    let next = current.apply_delta(&ops[i]);
                    proof {
                        assert(ops@.take(i as int + 1) =~= ops@.take(i as int) + seq![ops@[i as int]]);
                        lemma_delta_list_ops_concat(ops@.take(i as int), seq![ops@[i as int]]);
                        lemma_delta_list_ops_one(ops@[i as int]);
                        lemma_apply_ops_concat(
                            self@,
                            delta_list_ops(ops@.take(i as int)),
                            delta_ops(ops@[i as int]),
                        );
                    }
                    current = next;
                    i = i + 1;
                }
                proof {
                    assert(ops@.take(n as int) =~= ops@);
                }
                current
            },
        }
    }
}

/// The sequences enumerate the map.
pub open spec fn pairs_of(m: DotsByElement, ks: Seq<Seq<char>>, vs: Seq<Versions>) -> bool {
    m == crate::sorted_map::pairs_to_map(ks, vs)
}

proof fn lemma_apply_add_valid(v: OrView, a: OrView)
    requires
        or_valid(v),
        or_valid(a),
    ensures
        or_valid(or_apply_add(v, a)),
{
    let nv = or_apply_add(v, a);
    assert forall|e: Seq<char>| #[trigger] nv.0.contains_key(e) implies {
        &&& nv.0[e] != Versions::empty()
        &&& versions_valid(nv.0[e])
        &&& forall|r: Seq<char>| #[trigger]
            nv.0[e].contains_key(r) ==> nv.0[e][r] <= vget(nv.1, r)
    } by {
        if a.0.contains_key(e) {
            if v.0.contains_key(e) {
                assert forall|r: Seq<char>| #[trigger] nv.0[e].contains_key(r) implies nv.0[e][r]
                    <= vget(nv.1, r) by {
                    if v.0[e].contains_key(r) {
                    }
                    if a.0[e].contains_key(r) {
                    }
                }
            }
        } else {
            assert(v.0.contains_key(e));
        }
    }
}

fn merge_optional_delta<T: Identifier>(existing: &Option<Box<ORSetDelta<T>>>, next: ORSetDelta<T>) -> (r:
    ORSetDelta<T>)
    ensures
        r@ == match existing {
            Some(d) => d@ + next@,
            None => next@,
        },
        existing is None ==> r == next,
{
    match existing {
        Some(d) => d.merge(&next),
        None => next,
    }
}

impl<T: Identifier> Mergeable for ORSetDelta<T> {
    fn clone_value(&self) -> (r: Self) {
        ORSetDelta::duplicate(self)
    }

    open spec fn settled(&self) -> bool {
        true
    }

    open spec fn merged(a: Seq<OrOp>, b: Seq<OrOp>) -> Seq<OrOp> {
        a + b
    }

    fn merge(&self, other: &Self) -> (r: Self) {
        let mut ops: Vec<ORSetDelta<T>> = match self {
            ORSetDelta::Group(left) => clone_deltas(left),
            _ => {
                let mut v = Vec::new();
                v.push(self.duplicate());
                v
            },
        };
        proof {
            if !(*self is Group) {
                lemma_delta_list_ops_one(ops@[0]);
                assert(ops@ =~= seq![ops@[0]]);
            }
            assert(delta_list_ops(ops@) == self@);
        }
        let ghost mid = ops@;
        let mut extra: Vec<ORSetDelta<T>> = match other {
            ORSetDelta::Group(right) => clone_deltas(right),
            _ => {
                let mut v = Vec::new();
                v.push(other.duplicate());
                v
            },
        };
        proof {
            if !(*other is Group) {
                lemma_delta_list_ops_one(extra@[0]);
                assert(extra@ =~= seq![extra@[0]]);
            }
            assert(delta_list_ops(extra@) == other@);
        }
        let ghost tail = extra@;
        ops.append(&mut extra);
        proof {
            assert(ops@ =~= mid + tail);
            lemma_delta_list_ops_concat(mid, tail);
        }
        let r = ORSetDelta::Group(ops);
        proof {
            assert(r@ == delta_list_ops(ops@));
            assert(r@ == self@ + other@);
            assert(r@ == <ORSetDelta<T> as Mergeable>::merged(self@, other@));
            assert(r.settled());
        }
        r
    }
}

fn clone_deltas<T: Identifier>(src: &Vec<ORSetDelta<T>>) -> (r: Vec<ORSetDelta<T>>)
    ensures
        r@.len() == src@.len(),
        forall|j: int| 0 <= j < src@.len() ==> (#[trigger] r@[j])@ == src@[j]@,
        delta_list_ops(r@) == delta_list_ops(src@),
{
    let mut out: Vec<ORSetDelta<T>> = Vec::new();
    let n = src.len();
    let mut i: usize = 0;
    while i < n
        invariant
            n == src@.len(),
            i <= n,
            out@.len() == i,
            forall|j: int| 0 <= j < i ==> (#[trigger] out@[j])@ == src@[j]@,
        decreases n - i,
    {
        out.push(src[i].duplicate());
        i = i + 1;
    }
    proof {
        lemma_list_ops_ext(out@, src@);
    }
    out
}

impl<T: Identifier> Duplicate for ORSetDelta<T> {
    fn duplicate(&self) -> (r: Self) {
        ORSetDelta::duplicate(self)
    }
}

impl<T: Identifier> Clone for ORSetDelta<T> {
    fn clone(&self) -> (r: Self)
        ensures
            r@ == self@,
    {
        self.duplicate()
    }
}

impl<T: Identifier> Clone for ORSet<T> {
    fn clone(&self) -> (r: Self)
        ensures
            r@ == self@,
    {
        self.duplicate()
    }
}

impl<T: Identifier> Duplicate for ORSet<T> {
    fn duplicate(&self) -> (r: Self) {
        ORSet::duplicate(self)
    }
}

impl<T: Identifier> Mergeable for ORSet<T> {
    fn clone_value(&self) -> (r: Self) {
        ORSet::duplicate(self)
    }

    open spec fn settled(&self) -> bool {
        self.delta_view() is None
    }

    open spec fn merged(a: OrView, b: OrView) -> OrView {
        or_merged(a, b)
    }

    fn merge(&self, other: &Self) -> (r: Self) {
        proof {
            use_type_invariant(self);
            use_type_invariant(other);
            self.elements.lemma_wf();
            other.elements.lemma_wf();
            lemma_prefix_map_ends(self.elements.key_seq(), self.elements.value_seq());
            lemma_prefix_map_ends(other.elements.key_seq(), other.elements.value_seq());
        }
        let ghost target = or_merged(self@, other@).0;
        let ghost aks = self.elements.key_seq();
        let ghost avs = self.elements.value_seq();
        let ghost bks = other.elements.key_seq();
        let ghost bvs = other.elements.value_seq();
        let empty = VersionVector::new();
        let mut elements: SortedMap<T, VersionVector> = SortedMap::new();
        let n = self.elements.len();
        let mut i: usize = 0;
        proof {
            assert(elements@ =~= target.restrict(prefix_map(aks, avs, 0).dom()));
        }
        while i < n
            invariant
                self.elements.wf(),
                other.elements.wf(),
                aks == self.elements.key_seq(),
                avs == self.elements.value_seq(),
                strictly_sorted(aks),
                aks.len() == avs.len(),
                n == aks.len(),
                i <= n,
                pairs_of(self@.0, aks, avs),
                target == or_merged(self@, other@).0,
                empty@ == Versions::empty(),
                elements.wf(),
                elements@ == target.restrict(prefix_map(aks, avs, i as int).dom()),
            decreases n - i,
        {
            proof {
                lemma_prefix_map_step(aks, avs, i as int);
            }
            let element = self.elements.key_at(i);
            let left = self.elements.value_at(i);
            let right = match other.elements.get(element.as_key()) {
                Some(d) => d,
                None => &empty,
            };
            let merged = VersionVector::merge_dots(
                left,
                right,
                &self.version_vector,
                &other.version_vector,
            );
            proof {
                lemma_merged_dots_agree(self@, other@, element@);
                assert(merged@ =~= merged_dots(self@, other@, element@));
            }
            if !merged.is_empty() {
                proof {
                    lemma_nonempty_witness(merged_dots(self@, other@, element@));
                }
                elements.insert(element.duplicate(), merged);
            } else {
                proof {
                    lemma_empty_no_witness(self@, other@, element@);
                }
            }
            proof {
                assert(elements@ =~= target.restrict(prefix_map(aks, avs, i as int + 1).dom()));
            }
            i = i + 1;
        }
        let m = other.elements.len();
        let mut j: usize = 0;
        proof {
            lemma_prefix_map_ends(aks, avs);
            assert(elements@ =~= target.restrict(
                self@.0.dom().union(prefix_map(bks, bvs, 0).dom()),
            ));
        }
        while j < m
            invariant
                other.elements.wf(),
                self.elements.wf(),
                bks == other.elements.key_seq(),
                bvs == other.elements.value_seq(),
                strictly_sorted(bks),
                bks.len() == bvs.len(),
                m == bks.len(),
                j <= m,
                pairs_of(other@.0, bks, bvs),
                target == or_merged(self@, other@).0,
                empty@ == Versions::empty(),
                elements.wf(),
                elements@ == target.restrict(
                    self@.0.dom().union(prefix_map(bks, bvs, j as int).dom()),
                ),
            decreases m - j,
        {
            proof {
                lemma_prefix_map_step(bks, bvs, j as int);
            }
            let element = other.elements.key_at(j);
            if !self.elements.contains_key(element.as_key()) {
                let right = other.elements.value_at(j);
                let merged = VersionVector::merge_dots(
                    &empty,
                    right,
                    &self.version_vector,
                    &other.version_vector,
                );
                proof {
                    lemma_merged_dots_agree(self@, other@, element@);
                    assert(merged@ =~= merged_dots(self@, other@, element@));
                }
                if !merged.is_empty() {
                    proof {
                        lemma_nonempty_witness(merged_dots(self@, other@, element@));
                    }
                    elements.insert(element.duplicate(), merged);
                } else {
                    proof {
                        lemma_empty_no_witness(self@, other@, element@);
                    }
                }
            }
            proof {
                assert(elements@ =~= target.restrict(
                    self@.0.dom().union(prefix_map(bks, bvs, j as int + 1).dom()),
                ));
            }
            j = j + 1;
        }
        proof {
            lemma_prefix_map_ends(bks, bvs);
            lemma_merged_domain(self@, other@);
            assert(elements@ =~= target);
            lemma_merged_valid(self@, other@);
        }
        ORSet {
            elements,
            version_vector: self.version_vector.merge(&other.version_vector),
            delta: None,
        }
    }
}

proof fn lemma_merged_dots_agree(a: OrView, b: OrView, e: Seq<char>)
    ensures
        dots_merged(
            if a.0.contains_key(e) {
                a.0[e]
            } else {
                Versions::empty()
            },
            a.1,
            if b.0.contains_key(e) {
                b.0[e]
            } else {
                Versions::empty()
            },
            b.1,
        ) == merged_dots(a, b, e),
{
    assert(dots_merged(
        if a.0.contains_key(e) {
            a.0[e]
        } else {
            Versions::empty()
        },
        a.1,
        if b.0.contains_key(e) {
            b.0[e]
        } else {
            Versions::empty()
        },
        b.1,
    ) =~= merged_dots(a, b, e));
}

proof fn lemma_nonempty_witness(m: Versions)
    requires
        m != Versions::empty(),
    ensures
        exists|r: Seq<char>| m.contains_key(r),
{
    if !(exists|r: Seq<char>| m.contains_key(r)) {
        assert(m =~= Versions::empty());
    }
}

proof fn lemma_empty_no_witness(a: OrView, b: OrView, e: Seq<char>)
    requires
        merged_dots(a, b, e) == Versions::empty(),
    ensures
        !or_merged(a, b).0.contains_key(e),
{
    if or_merged(a, b).0.contains_key(e) {
        let r = choose|r: Seq<char>| #[trigger] merged_dot(a, b, e, r) > 0;
        assert(merged_dots(a, b, e).contains_key(r));
    }
}

proof fn lemma_merged_domain(a: OrView, b: OrView)
    ensures
        or_merged(a, b).0.dom().subset_of(a.0.dom().union(b.0.dom())),
{
    assert forall|e: Seq<char>| or_merged(a, b).0.contains_key(e) implies a.0.contains_key(e)
        || b.0.contains_key(e) by {
        let r = choose|r: Seq<char>| #[trigger] merged_dot(a, b, e, r) > 0;
    }
}

proof fn lemma_merged_valid(a: OrView, b: OrView)
    requires
        or_valid(a),
        or_valid(b),
    ensures
        or_valid(or_merged(a, b)),
{
    let m = or_merged(a, b);
    assert forall|e: Seq<char>| #[trigger] m.0.contains_key(e) implies {
        &&& m.0[e] != Versions::empty()
        &&& versions_valid(m.0[e])
        &&& forall|r: Seq<char>| #[trigger] m.0[e].contains_key(r) ==> m.0[e][r] <= vget(m.1, r)
    } by {
        let r0 = choose|r: Seq<char>| #[trigger] merged_dot(a, b, e, r) > 0;
        assert(m.0[e].contains_key(r0));
        assert forall|r: Seq<char>| #[trigger] m.0[e].contains_key(r) implies m.0[e][r] <= vget(
            m.1,
            r,
        ) by {
            if a.0.contains_key(e) && a.0[e].contains_key(r) {
            }
            if b.0.contains_key(e) && b.0[e].contains_key(r) {
            }
        }
    }
}

/// Dots never exceed their context.
proof fn lemma_dot_bounded(v: OrView, e: Seq<char>, r: Seq<char>)
    requires
        or_valid(v),
    ensures
        dot(v, e, r) <= vget(v.1, r),
{
    if v.0.contains_key(e) && v.0[e].contains_key(r) {
    }
}

impl<T: Identifier> ReplicatedData for ORSet<T> {
    fn lemma_valid(&self) {
        proof {
            use_type_invariant(self);
        }
    }

    open spec fn valid(v: OrView) -> bool {
        or_valid(v)
    }

    open spec fn coherent(a: OrView, b: OrView) -> bool {
        true
    }

    proof fn lemma_merge_closed(a: OrView, b: OrView, c: OrView) {
        lemma_merged_valid(a, b);
    }

    proof fn lemma_coherent_symmetric(a: OrView, b: OrView) {
    }

    proof fn lemma_merge_idempotent(a: OrView) {
        let m = or_merged(a, a);
        assert forall|e: Seq<char>, r: Seq<char>| merged_dot(a, a, e, r) == dot(a, e, r) by {
            lemma_dot_bounded(a, e, r);
            lemma_dot_merge_facts(dot(a, e, r), vget(a.1, r), dot(a, e, r), vget(a.1, r), 0, 0);
        }
        assert forall|e: Seq<char>| #[trigger] m.0.contains_key(e) == a.0.contains_key(e) by {
            if a.0.contains_key(e) {
                lemma_nonempty_witness(a.0[e]);
                let r = choose|r: Seq<char>| a.0[e].contains_key(r);
                assert(merged_dot(a, a, e, r) > 0);
            }
            if m.0.contains_key(e) {
                let r = choose|r: Seq<char>| #[trigger] merged_dot(a, a, e, r) > 0;
            }
        }
        assert forall|e: Seq<char>| #[trigger] m.0.contains_key(e) implies m.0[e] == a.0[e] by {
            assert(m.0[e] =~= a.0[e]);
        }
        assert(m.0 =~= a.0);
        assert(m.1 =~= a.1);
    }

    proof fn lemma_merge_commutative(a: OrView, b: OrView) {
        let m = or_merged(a, b);
        let n = or_merged(b, a);
        assert forall|e: Seq<char>, r: Seq<char>| merged_dot(a, b, e, r) == merged_dot(b, a, e, r) by {
            lemma_dot_bounded(a, e, r);
            lemma_dot_bounded(b, e, r);
            lemma_dot_merge_facts(dot(a, e, r), vget(a.1, r), dot(b, e, r), vget(b.1, r), 0, 0);
        }
        assert forall|e: Seq<char>| #[trigger] m.0.contains_key(e) == n.0.contains_key(e) by {
            if m.0.contains_key(e) {
                let r = choose|r: Seq<char>| #[trigger] merged_dot(a, b, e, r) > 0;
                assert(merged_dot(b, a, e, r) > 0);
            }
            if n.0.contains_key(e) {
                let r = choose|r: Seq<char>| #[trigger] merged_dot(b, a, e, r) > 0;
                assert(merged_dot(a, b, e, r) > 0);
            }
        }
        assert forall|e: Seq<char>| #[trigger] m.0.contains_key(e) implies m.0[e] == n.0[e] by {
            assert(m.0[e] =~= n.0[e]);
        }
        assert(m.0 =~= n.0);
        assert(m.1 =~= n.1);
    }

    proof fn lemma_merge_associative(a: OrView, b: OrView, c: OrView) {
        let ab = or_merged(a, b);
        let bc = or_merged(b, c);
        let l = or_merged(ab, c);
        let rr = or_merged(a, bc);
        assert forall|e: Seq<char>, r: Seq<char>| merged_dot(ab, c, e, r) == merged_dot(a, bc, e, r) by {
            lemma_dot_bounded(a, e, r);
            lemma_dot_bounded(b, e, r);
            lemma_dot_bounded(c, e, r);
            lemma_dot_of_merged(a, b, e, r);
            lemma_dot_of_merged(b, c, e, r);
            lemma_dot_merge_facts(
                dot(a, e, r),
                vget(a.1, r),
                dot(b, e, r),
                vget(b.1, r),
                dot(c, e, r),
                vget(c.1, r),
            );
        }
        assert forall|e: Seq<char>| #[trigger] l.0.contains_key(e) == rr.0.contains_key(e) by {
            if l.0.contains_key(e) {
                let r = choose|r: Seq<char>| #[trigger] merged_dot(ab, c, e, r) > 0;
                assert(merged_dot(a, bc, e, r) > 0);
            }
            if rr.0.contains_key(e) {
                let r = choose|r: Seq<char>| #[trigger] merged_dot(a, bc, e, r) > 0;
                assert(merged_dot(ab, c, e, r) > 0);
            }
        }
        assert forall|e: Seq<char>| #[trigger] l.0.contains_key(e) implies l.0[e] == rr.0[e] by {
            assert(l.0[e] =~= rr.0[e]);
        }
        assert(l.0 =~= rr.0);
        assert(l.1 =~= rr.1);
    }
}

impl<T: Identifier> DeltaReplicatedData for ORSet<T> {
    type Delta = ORSetDelta<T>;

    open spec fn pending_delta(&self) -> Option<Seq<OrOp>> {
        self.delta_view()
    }

    open spec fn delta_merged(a: OrView, d: Seq<OrOp>) -> OrView {
        or_apply_ops(a, d)
    }

    fn delta(&self) -> (r: Option<ORSetDelta<T>>)
        ensures
            r matches Some(d) ==> single_removed(d) == self.delta_single_removed(),
    {
        match &self.delta {
            Some(d) => Some(d.duplicate()),
            None => None,
        }
    }

    fn merge_delta(&self, delta: &ORSetDelta<T>) -> (r: ORSet<T>) {
        self.apply_delta(delta)
    }

    fn reset_delta(&self) -> (r: ORSet<T>)
        ensures
            r.delta_view() is None,
    {
        self.reset()
    }
}

impl<T: Identifier> ReplicatedDelta for ORSetDelta<T> {
    type Full = ORSet<T>;

    open spec fn zero_state(d: Seq<OrOp>) -> OrView {
        (DotsByElement::empty(), Versions::empty())
    }

    fn zero(&self) -> (r: ORSet<T>)
        ensures
            r@ == (DotsByElement::empty(), Versions::empty()),
    {
        ORSet::new()
    }
}

impl<T: Identifier> ORSet<T> {
    /// Drops dots and context of an already pruned replica.
    pub fn cleanup_replica(&self, removed: &ReplicaId) -> (r: Self)
        ensures
            r@ == or_cleaned(self@, removed@),
            r.delta_view() is None,
    {
        proof {
            use_type_invariant(self);
            self.elements.lemma_wf();
            lemma_prefix_map_ends(self.elements.key_seq(), self.elements.value_seq());
        }
        let ghost ks = self.elements.key_seq();
        let ghost vs = self.elements.value_seq();
        let ghost target = or_cleaned(self@, removed@);
        let mut elements: SortedMap<T, VersionVector> = SortedMap::new();
        let n = self.elements.len();
        let mut i: usize = 0;
        proof {
            assert(elements@ =~= target.0.restrict(prefix_map(ks, vs, 0).dom()));
        }
        while i < n
            invariant
                self.elements.wf(),
                ks == self.elements.key_seq(),
                vs == self.elements.value_seq(),
                strictly_sorted(ks),
                ks.len() == vs.len(),
                n == ks.len(),
                i <= n,
                pairs_of(self@.0, ks, vs),
                target == or_cleaned(self@, removed@),
                elements.wf(),
                elements@ == target.0.restrict(prefix_map(ks, vs, i as int).dom()),
            decreases n - i,
        {
            proof {
                lemma_prefix_map_step(ks, vs, i as int);
            }
            let element = self.elements.key_at(i);
            let dots = self.elements.value_at(i);
            let cleaned = dots.pruning_cleanup(removed);
            if !cleaned.is_empty() {
                elements.insert(element.duplicate(), cleaned);
            }
            proof {
                assert(elements@ =~= target.0.restrict(prefix_map(ks, vs, i as int + 1).dom()));
            }
            i = i + 1;
        }
        proof {
            lemma_prefix_map_ends(ks, vs);
            assert(elements@ =~= target.0);
            let nv = target;
            assert forall|e: Seq<char>| #[trigger] nv.0.contains_key(e) implies {
                &&& nv.0[e] != Versions::empty()
                &&& versions_valid(nv.0[e])
                &&& forall|r: Seq<char>| #[trigger]
                    nv.0[e].contains_key(r) ==> nv.0[e][r] <= vget(nv.1, r)
            } by {
                assert(self@.0.contains_key(e));
            }
        }
        ORSet { elements, version_vector: self.version_vector.pruning_cleanup(removed), delta: None }
    }

    /// Collapses every dot of `removed` into `collapse_into`.
    pub fn prune_replica(&self, removed: &ReplicaId, collapse_into: &ReplicaId) -> (r: Self)
        ensures
            r@ == or_pruned(self@, removed@, collapse_into@),
    {
        proof {
            use_type_invariant(self);
            self.elements.lemma_wf();
            lemma_prefix_map_ends(self.elements.key_seq(), self.elements.value_seq());
        }
        let ghost v = self@;
        let ghost ks = self.elements.key_seq();
        let ghost vs = self.elements.value_seq();
        let ghost into = collapse_into@;
        let ghost rem = removed@;
        let mut pruned: SortedMap<T, VersionVector> = SortedMap::new();
        let mut touched: Vec<T> = Vec::new();
        let n = self.elements.len();
        let mut i: usize = 0;
        proof {
            assert(pruned@ =~= Map::new(
                |e: Seq<char>| prefix_map(ks, vs, 0).contains_key(e),
                |e: Seq<char>| or_base_dots(v, rem, into, e),
            ));
            assert(touched@.map_values(|t: T| t@).to_set() =~= or_touched(v, rem).filter(
                |e: Seq<char>| prefix_map(ks, vs, 0).contains_key(e),
            ));
        }
        while i < n
            invariant
                self.elements.wf(),
                v == self@,
                ks == self.elements.key_seq(),
                vs == self.elements.value_seq(),
                strictly_sorted(ks),
                ks.len() == vs.len(),
                n == ks.len(),
                i <= n,
                pairs_of(self@.0, ks, vs),
                into == collapse_into@,
                rem == removed@,
                pruned.wf(),
                pruned@ == Map::new(
                    |e: Seq<char>| prefix_map(ks, vs, i as int).contains_key(e),
                    |e: Seq<char>| or_base_dots(v, rem, into, e),
                ),
                strictly_sorted(touched@.map_values(|t: T| t@)),
                touched@.map_values(|t: T| t@).to_set() == or_touched(v, rem).filter(
                    |e: Seq<char>| prefix_map(ks, vs, i as int).contains_key(e),
                ),
                forall|j: int| 0 <= j < touched@.len() ==> exists|p: int| 0 <= p < i && #[trigger] touched@[j]@ == ks[p],
            decreases n - i,
        {
            proof {
                lemma_prefix_map_step(ks, vs, i as int);
                crate::sorted_map::lemma_sorted_lookup(ks, vs, i as int);
            }
            let element = self.elements.key_at(i);
            let dots = self.elements.value_at(i);
            let ghost old_touched = touched@.map_values(|t: T| t@);
            if dots.contains(removed) {
                pruned.insert(element.duplicate(), dots.prune(removed, collapse_into));
                touched.push(element.duplicate());
                proof {
                    let tv = touched@.map_values(|t: T| t@);
                    assert(tv =~= old_touched.push(ks[i as int]));
                    assert forall|a: int, b: int| 0 <= a < b < tv.len() implies key_lt(
                        #[trigger] tv[a],
                        #[trigger] tv[b],
                    ) by {
                        if b == tv.len() - 1 {
                            let p = choose|p: int| 0 <= p < i && #[trigger] touched@[a]@ == ks[p];
                            assert(key_lt(ks[p], ks[i as int]));
                        } else {
                            assert(old_touched[a] == tv[a]);
                            assert(old_touched[b] == tv[b]);
                        }
                    }
                    assert(tv.to_set() =~= or_touched(v, rem).filter(
                        |e: Seq<char>| prefix_map(ks, vs, i as int + 1).contains_key(e),
                    )) by {
                        assert forall|e: Seq<char>| tv.to_set().contains(e) implies old_touched.to_set().contains(e) || e == ks[i as int] by {
                            let p = choose|p: int| 0 <= p < tv.len() && tv[p] == e;
                            if p < old_touched.len() {
                                assert(old_touched[p] == e);
                            }
                        }
                        assert forall|e: Seq<char>| old_touched.to_set().contains(e) implies tv.to_set().contains(e) by {
                            let p = choose|p: int| 0 <= p < old_touched.len() && old_touched[p] == e;
                            assert(tv[p] == e);
                        }
                        assert(tv[tv.len() - 1] == ks[i as int]);
                    }
                    assert forall|j: int| 0 <= j < touched@.len() implies exists|p: int| 0 <= p < i + 1 && #[trigger] touched@[j]@ == ks[p] by {
                        if j == touched@.len() - 1 {
                            assert(touched@[j]@ == ks[i as int]);
                        } else {
                            assert(old_touched[j] == touched@[j]@);
                        }
                    }
                }
            } else {
                pruned.insert(element.duplicate(), dots.duplicate());
                proof {
                    let tv = touched@.map_values(|t: T| t@);
                    assert(tv =~= old_touched);
                    assert(tv.to_set() =~= or_touched(v, rem).filter(
                        |e: Seq<char>| prefix_map(ks, vs, i as int + 1).contains_key(e),
                    ));
                }
            }
            proof {
                assert(pruned@ =~= Map::new(
                    |e: Seq<char>| prefix_map(ks, vs, i as int + 1).contains_key(e),
                    |e: Seq<char>| or_base_dots(v, rem, into, e),
                ));
            }
            i = i + 1;
        }
        let base_context = self.version_vector.prune(removed, collapse_into);
        proof {
            lemma_prefix_map_ends(ks, vs);
            assert(or_touched(v, rem).filter(|e: Seq<char>| prefix_map(ks, vs, n as int).contains_key(e)) =~= or_touched(v, rem));
            let bv = (pruned@, base_context@);
            assert forall|e: Seq<char>| #[trigger] bv.0.contains_key(e) implies {
                &&& bv.0[e] != Versions::empty()
                &&& versions_valid(bv.0[e])
                &&& forall|r: Seq<char>| #[trigger]
                    bv.0[e].contains_key(r) ==> bv.0[e][r] <= vget(bv.1, r)
            } by {
                assert(v.0.contains_key(e));
                if v.0[e].contains_key(rem) {
                    assert(bv.0[e].contains_key(into));
                }
            }
        }
        let mut current = ORSet { elements: pruned, version_vector: base_context, delta: None };
        let ghost tq = touched@.map_values(|t: T| t@);
        let ghost b = vget(or_base_context(v, rem, into), into);
        let m = touched.len();
        let mut j: usize = 0;
        proof {
            crate::sorted_map::lemma_sorted_no_duplicates(tq);
            assert(current@.0 =~= Map::new(
                |e: Seq<char>| v.0.contains_key(e),
                |e: Seq<char>|
                    if or_touched(v, rem).contains(e) && tq.take(0).contains(e) {
                        map![into => sat_add(b, or_rank(v, rem, e) + 1)]
                    } else {
                        or_base_dots(v, rem, into, e)
                    },
            ));
            assert(current@.1 =~= or_base_context(v, rem, into).insert(into, sat_add(b, 0)));
        }
        while j < m
            invariant
                m == touched@.len(),
                tq == touched@.map_values(|t: T| t@),
                strictly_sorted(tq),
                tq.to_set() == or_touched(v, rem),
                tq.to_set().len() == tq.len(),
                into == collapse_into@,
                j <= m,
                b == vget(or_base_context(v, rem, into), into),
                current@.0 == Map::new(
                    |e: Seq<char>| v.0.contains_key(e),
                    |e: Seq<char>|
                        if or_touched(v, rem).contains(e) && tq.take(j as int).contains(e) {
                            map![into => sat_add(b, or_rank(v, rem, e) + 1)]
                        } else {
                            or_base_dots(v, rem, into, e)
                        },
                ),
                current@.1 == or_base_context(v, rem, into).insert(into, sat_add(b, j as nat)),
            decreases m - j,
        {
            let next = current.add(collapse_into.duplicate(), touched[j].duplicate());
            proof {
                let e = tq[j as int];
                lemma_sorted_rank(tq, j as int);
                assert(or_touched(v, rem).contains(e));
                assert(v.0.contains_key(e));
                assert(tq.take(j as int + 1) =~= tq.take(j as int).push(e));
                assert(or_touched(v, rem).filter(|t: Seq<char>| key_lt(t, e)) =~= tq.to_set().filter(
                    |t: Seq<char>| key_lt(t, tq[j as int]),
                ));
                assert(or_rank(v, rem, e) == j);
                assert(vget(current@.1, into) == sat_add(b, j as nat));
                assert(sat_inc(sat_add(b, j as nat)) == sat_add(b, j as nat + 1));
                assert(!tq.take(j as int).contains(e)) by {
                    if tq.take(j as int).contains(e) {
                        let p = choose|p: int| 0 <= p < j && #[trigger] tq.take(j as int)[p] == e;
                        assert(key_lt(tq[p], tq[j as int]));
                    }
                }
                assert forall|x: Seq<char>| #![auto] x != e ==> (tq.take(j as int + 1).contains(x) == tq.take(j as int).contains(x)) by {
                    if x != e && tq.take(j as int + 1).contains(x) {
                        let p = choose|p: int| 0 <= p < j + 1 && #[trigger] tq.take(j as int + 1)[p] == x;
                        assert(tq.take(j as int)[p] == x);
                    }
                    if tq.take(j as int).contains(x) {
                        let p = choose|p: int| 0 <= p < j && #[trigger] tq.take(j as int)[p] == x;
                        assert(tq.take(j as int + 1)[p] == x);
                    }
                }
                assert(tq.take(j as int + 1).contains(e)) by {
                    assert(tq.take(j as int + 1)[j as int] == e);
                }
                assert(next@.0 =~= Map::new(
                    |x: Seq<char>| v.0.contains_key(x),
                    |x: Seq<char>|
                        if or_touched(v, rem).contains(x) && tq.take(j as int + 1).contains(x) {
                            map![into => sat_add(b, or_rank(v, rem, x) + 1)]
                        } else {
                            or_base_dots(v, rem, into, x)
                        },
                ));
                assert(next@.1 =~= or_base_context(v, rem, into).insert(into, sat_add(b, j as nat + 1)));
            }
            current = next;
            j = j + 1;
        }
        proof {
            assert(tq.take(m as int) =~= tq);
            assert(current@.0 =~= or_pruned(v, rem, into).0);
        }
        current
    }
}

impl<T: Identifier> RemovedNodePruning for ORSet<T> {
    open spec fn modified_by(v: OrView) -> Set<Seq<char>> {
        v.1.dom()
    }

    open spec fn prune_fails(v: OrView, removed: Seq<char>, into: Seq<char>) -> bool {
        false
    }

    open spec fn pruned(v: OrView, removed: Seq<char>, into: Seq<char>) -> OrView {
        or_pruned(v, removed, into)
    }

    open spec fn cleaned(v: OrView, removed: Seq<char>) -> OrView {
        or_cleaned(v, removed)
    }

    fn modified_by_replica_ids(&self) -> (r: SortedSet<ReplicaId>) {
        self.version_vector.modified_by_replica_ids()
    }

    fn need_pruning_from(&self, removed_replica: &ReplicaId) -> (r: bool) {
        self.version_vector.contains(removed_replica)
    }

    fn prune(&self, removed_replica: &ReplicaId, collapse_into: ReplicaId) -> (r: Result<
        ORSet<T>,
        CrdtError,
    >) {
        Ok(self.prune_replica(removed_replica, &collapse_into))
    }

    fn pruning_cleanup(&self, removed_replica: &ReplicaId) -> (r: ORSet<T>) {
        self.cleanup_replica(removed_replica)
    }
}

} // verus!
