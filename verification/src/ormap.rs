//! Observed-remove map: an observed-remove key set with a replicated value per key.
//!
//! Keys follow observed-remove semantics; a merge keeps the value of every
//! surviving key, merging the two values where both sides hold one.
use vstd::prelude::*;

use crate::data::{DeltaReplicatedData, Mergeable, RemovedNodePruning, ReplicatedData, ReplicatedDelta};
use crate::errors::CrdtError;
use crate::key::ReplicatorKey;
use crate::orset::{
    or_added, or_apply_ops, or_merged, single_removed, DotsByElement, ORSet, ORSetDelta, OrOp, OrView,
};
use crate::replica::ReplicaId;
use crate::sorted_map::{
    lemma_prefix_map_ends, lemma_prefix_map_step, lemma_push_contains, lemma_sorted_pos, pos_of,
    prefix_map, strictly_sorted,
    Duplicate, Identifier, SortedMap,
};
use crate::sorted_set::SortedSet;
use crate::version_vector::{sat_inc, versions_one, vget, Versions};

verus! {

/// Abstract map: the key set and the value of each key.
pub type OrMapView<W> = (OrView, Map<Seq<char>, W>);

/// Per-key value deltas of an update.
pub struct ValueDeltas<K: Identifier, E: Duplicate> {
    map: SortedMap<K, E>,
}

impl<K: Identifier, E: Duplicate> View for ValueDeltas<K, E> {
    type V = Map<Seq<char>, E::V>;

    closed spec fn view(&self) -> Map<Seq<char>, E::V> {
        self.map@
    }
}

impl<K: Identifier, E: Duplicate> ValueDeltas<K, E> {
    #[verifier::type_invariant]
    spec fn inv(&self) -> bool {
        self.map.wf()
    }

    /// The deltas `map` holds, by key.
    pub fn from_entries(map: SortedMap<K, E>) -> (r: Self)
        requires
            map.wf(),
        ensures
            r@ == map@,
    {
        ValueDeltas { map }
    }

    /// The delta of one key.
    pub fn single(key: K, delta: E) -> (r: Self)
        ensures
            r@ == map![key@ => delta@],
    {
        let mut map = SortedMap::new();
        map.insert(key, delta);
        proof {
            assert(map@ =~= map![key@ => delta@]);
        }
        ValueDeltas { map }
    }

    /// Value deltas in ascending key order.
    pub fn entries(&self) -> (r: &SortedMap<K, E>)
        ensures
            r.wf(),
            r@ == self@,
    {
        proof {
            use_type_invariant(self);
        }
        &self.map
    }
}

impl<K: Identifier, E: Duplicate> Duplicate for ValueDeltas<K, E> {
    fn duplicate(&self) -> (r: Self) {
        proof {
            use_type_invariant(self);
        }
        ValueDeltas { map: self.map.duplicate() }
    }
}

/// One delta operation on an observed-remove map.
pub enum MapOp<W, E> {
    /// Key-set delta and the key's full new value.
    Put(Seq<OrOp>, Seq<char>, W),
    /// Key-set delta and value deltas by key.
    Update(Seq<OrOp>, Map<Seq<char>, E>),
    /// Key-set delta and, when it is a single removal, the removed key.
    Remove(Seq<OrOp>, Option<Seq<char>>),
}

/// Delta of an observed-remove map.
pub enum ORMapDelta<K: Identifier, V: DeltaReplicatedData> {
    /// A key written with its full value.
    Put { keys: ORSetDelta<K>, key: K, value: V },
    /// Keys whose values changed by a delta.
    Update { keys: ORSetDelta<K>, values: ValueDeltas<K, V::Delta> },
    /// A removed key.
    Remove { keys: ORSetDelta<K> },
    /// Deltas applied in order.
    Group(Vec<ORMapDelta<K, V>>),
}

/// Operations of a map delta in application order.
pub open spec fn map_delta_ops<K: Identifier, V: DeltaReplicatedData>(d: ORMapDelta<K, V>) -> Seq<
    MapOp<V::V, <V::Delta as View>::V>,
>
    decreases d,
{
    match d {
        ORMapDelta::Put { keys, key, value } => seq![MapOp::Put(keys@, key@, value@)],
        ORMapDelta::Update { keys, values } => seq![MapOp::Update(keys@, values@)],
        ORMapDelta::Remove { keys } => seq![MapOp::Remove(keys@, single_removed(keys))],
        ORMapDelta::Group(ops) => map_delta_list_ops(ops@),
    }
}

/// Operations of a list of map deltas in application order.
pub open spec fn map_delta_list_ops<K: Identifier, V: DeltaReplicatedData>(
    s: Seq<ORMapDelta<K, V>>,
) -> Seq<MapOp<V::V, <V::Delta as View>::V>>
    decreases s,
{
    if s.len() == 0 {
        Seq::empty()
    } else {
        map_delta_list_ops(s.drop_last()) + map_delta_ops(s.last())
    }
}

impl<K: Identifier, V: DeltaReplicatedData> View for ORMapDelta<K, V> {
    type V = Seq<MapOp<V::V, <V::Delta as View>::V>>;

    open spec fn view(&self) -> Seq<MapOp<V::V, <V::Delta as View>::V>> {
        map_delta_ops(*self)
    }
}

proof fn lemma_map_list_ops_concat<K: Identifier, V: DeltaReplicatedData>(
    a: Seq<ORMapDelta<K, V>>,
    b: Seq<ORMapDelta<K, V>>,
)
    ensures
        map_delta_list_ops(a + b) == map_delta_list_ops(a) + map_delta_list_ops(b),
    decreases b.len(),
{
    if b.len() == 0 {
        assert(a + b =~= a);
        assert(map_delta_list_ops(a) + map_delta_list_ops(b) =~= map_delta_list_ops(a));
    } else {
        lemma_map_list_ops_concat(a, b.drop_last());
        assert((a + b).drop_last() =~= a + b.drop_last());
        assert((a + b).last() == b.last());
        assert(map_delta_list_ops(a) + map_delta_list_ops(b.drop_last()) + map_delta_ops(b.last())
            =~= map_delta_list_ops(a) + (map_delta_list_ops(b.drop_last()) + map_delta_ops(
            b.last(),
        )));
    }
}

proof fn lemma_map_list_ops_one<K: Identifier, V: DeltaReplicatedData>(d: ORMapDelta<K, V>)
    ensures
        map_delta_list_ops(seq![d]) == map_delta_ops(d),
{
    assert(seq![d].drop_last() =~= Seq::<ORMapDelta<K, V>>::empty());
    assert(seq![d].last() == d);
    assert(map_delta_list_ops(Seq::<ORMapDelta<K, V>>::empty()) == Seq::<
        MapOp<V::V, <V::Delta as View>::V>,
    >::empty());
    assert(Seq::<MapOp<V::V, <V::Delta as View>::V>>::empty() + map_delta_ops(d) =~= map_delta_ops(
        d,
    ));
}

proof fn lemma_map_list_ops_ext<K: Identifier, V: DeltaReplicatedData>(
    a: Seq<ORMapDelta<K, V>>,
    b: Seq<ORMapDelta<K, V>>,
)
    requires
        a.len() == b.len(),
        forall|j: int| 0 <= j < a.len() ==> (#[trigger] a[j])@ == b[j]@,
    ensures
        map_delta_list_ops(a) == map_delta_list_ops(b),
    decreases a.len(),
{
    if a.len() > 0 {
        lemma_map_list_ops_ext(a.drop_last(), b.drop_last());
        assert(a.last()@ == b.last()@);
    }
}

impl<K: Identifier, V: DeltaReplicatedData> ORMapDelta<K, V> {
    /// A copy with the same operations.
    pub fn duplicate(&self) -> (r: Self)
        ensures
            r@ == self@,
        decreases self,
    {
        match self {
            ORMapDelta::Put { keys, key, value } => ORMapDelta::Put {
                keys: keys.duplicate(),
                key: key.duplicate(),
                value: value.duplicate(),
            },
            ORMapDelta::Update { keys, values } => ORMapDelta::Update {
                keys: keys.duplicate(),
                values: values.duplicate(),
            },
            ORMapDelta::Remove { keys } => ORMapDelta::Remove { keys: keys.duplicate() },
            ORMapDelta::Group(ops) => {
                let mut out: Vec<ORMapDelta<K, V>> = Vec::new();
                let n = ops.len();
                let mut i: usize = 0;
                #[verifier::loop_isolation(false)]
                while i < n
                    invariant
                        n == ops@.len(),
                        i <= n,
                        out@.len() == i,
                        forall|j: int| 0 <= j < i ==> (#[trigger] out@[j])@ == ops@[j]@,
                    decreases n - i,
                {
                    proof {
                        assert(decreases_to!(ops@ => ops@[i as int]));
                        assert(decreases_to!(*ops => ops@));
                        assert(decreases_to!(self => ops@[i as int]));
                    }
                    out.push(ops[i].duplicate());
                    i = i + 1;
                }
                proof {
                    lemma_map_list_ops_ext(out@, ops@);
                }
                ORMapDelta::Group(out)
            },
        }
    }
}

/// Left-to-right application of one map delta operation.
pub open spec fn map_apply_op<V: DeltaReplicatedData>(
    st: OrMapView<V::V>,
    op: MapOp<V::V, <V::Delta as View>::V>,
) -> OrMapView<V::V> {
    match op {
        MapOp::Put(kops, key, value) => (or_apply_ops(st.0, kops), st.1.insert(key, value)),
        MapOp::Update(kops, vds) => {
            let ks = or_apply_ops(st.0, kops);
            (
                ks,
                Map::new(
                    |k: Seq<char>|
                        st.1.contains_key(k) || (vds.contains_key(k) && ks.0.contains_key(k)),
                    |k: Seq<char>|
                        if vds.contains_key(k) && ks.0.contains_key(k) {
                            updated_value::<V>(st.1, k, vds[k])
                        } else {
                            st.1[k]
                        },
                ),
            )
        },
        MapOp::Remove(kops, removed) => (
            or_apply_ops(st.0, kops),
            match removed {
                Some(e) => st.1.remove(e),
                None => st.1,
            },
        ),
    }
}

/// Value of `k` after delta `d`: applied to the current value, or to the
/// empty state the delta starts from.
pub open spec fn updated_value<V: DeltaReplicatedData>(
    values: Map<Seq<char>, V::V>,
    k: Seq<char>,
    d: <V::Delta as View>::V,
) -> V::V {
    V::delta_merged(
        if values.contains_key(k) {
            values[k]
        } else {
            <V::Delta as ReplicatedDelta>::zero_state(d)
        },
        d,
    )
}

/// Applies map delta operations in order.
pub open spec fn map_apply_ops<V: DeltaReplicatedData>(
    st: OrMapView<V::V>,
    ops: Seq<MapOp<V::V, <V::Delta as View>::V>>,
) -> OrMapView<V::V>
    decreases ops.len(),
{
    if ops.len() == 0 {
        st
    } else {
        map_apply_op::<V>(map_apply_ops::<V>(st, ops.drop_last()), ops.last())
    }
}

proof fn lemma_map_apply_concat<V: DeltaReplicatedData>(
    st: OrMapView<V::V>,
    a: Seq<MapOp<V::V, <V::Delta as View>::V>>,
    b: Seq<MapOp<V::V, <V::Delta as View>::V>>,
)
    ensures
        map_apply_ops::<V>(st, a + b) == map_apply_ops::<V>(map_apply_ops::<V>(st, a), b),
    decreases b.len(),
{
    if b.len() == 0 {
        assert(a + b =~= a);
    } else {
        lemma_map_apply_concat::<V>(st, a, b.drop_last());
        assert((a + b).drop_last() =~= a + b.drop_last());
        assert((a + b).last() == b.last());
    }
}

/// Value of `k` when two maps meet: merged where both hold one.
pub open spec fn merged_value<V: Mergeable>(
    a: Map<Seq<char>, V::V>,
    b: Map<Seq<char>, V::V>,
    k: Seq<char>,
) -> V::V {
    if a.contains_key(k) && b.contains_key(k) {
        V::merged(a[k], b[k])
    } else if a.contains_key(k) {
        a[k]
    } else {
        b[k]
    }
}

/// Full-state merge: surviving keys keep their values, merged where both
/// sides hold one.
pub open spec fn ormap_merged<V: Mergeable>(a: OrMapView<V::V>, b: OrMapView<V::V>) -> OrMapView<
    V::V,
> {
    let keys = or_merged(a.0, b.0);
    (
        keys,
        Map::new(
            |k: Seq<char>| keys.0.contains_key(k) && (a.1.contains_key(k) || b.1.contains_key(k)),
            |k: Seq<char>| merged_value::<V>(a.1, b.1, k),
        ),
    )
}

/// Key-set delta of adding `e` by `replica` to key set `v`.
pub open spec fn key_add_op(v: OrView, replica: Seq<char>, e: Seq<char>) -> OrOp {
    OrOp::Add(
        (
            map![e => map![replica => sat_inc(vget(v.1, replica))]],
            map![replica => sat_inc(vget(v.1, replica))],
        ),
    )
}

/// Key-set delta of removing `e` by `replica` from key set `v`.
pub open spec fn key_remove_op(v: OrView, replica: Seq<char>, e: Seq<char>) -> OrOp {
    OrOp::Remove(e, v.1, versions_one(replica, vget(v.1, replica)))
}

impl<K: Identifier, V: DeltaReplicatedData> Mergeable for ORMapDelta<K, V> {
    fn clone_value(&self) -> (r: Self) {
        ORMapDelta::duplicate(self)
    }

    open spec fn settled(&self) -> bool {
        true
    }

    open spec fn merged(
        a: Seq<MapOp<V::V, <V::Delta as View>::V>>,
        b: Seq<MapOp<V::V, <V::Delta as View>::V>>,
    ) -> Seq<MapOp<V::V, <V::Delta as View>::V>> {
        a + b
    }

    fn merge(&self, other: &Self) -> (r: Self) {
        let mut ops: Vec<ORMapDelta<K, V>> = match self {
            ORMapDelta::Group(left) => clone_map_deltas(left),
            _ => {
                let mut v = Vec::new();
                v.push(self.duplicate());
                v
            },
        };
        proof {
            if !(*self is Group) {
                lemma_map_list_ops_one(ops@[0]);
                assert(ops@ =~= seq![ops@[0]]);
            }
            assert(map_delta_list_ops(ops@) == self@);
        }
        let ghost mid = ops@;
        let mut extra: Vec<ORMapDelta<K, V>> = match other {
            ORMapDelta::Group(right) => clone_map_deltas(right),
            _ => {
                let mut v = Vec::new();
                v.push(other.duplicate());
                v
            },
        };
        proof {
            if !(*other is Group) {
                lemma_map_list_ops_one(extra@[0]);
                assert(extra@ =~= seq![extra@[0]]);
            }
            assert(map_delta_list_ops(extra@) == other@);
        }
        let ghost tail = extra@;
        ops.append(&mut extra);
        proof {
            assert(ops@ =~= mid + tail);
            lemma_map_list_ops_concat(mid, tail);
        }
        ORMapDelta::Group(ops)
    }
}

fn clone_map_deltas<K: Identifier, V: DeltaReplicatedData>(src: &Vec<ORMapDelta<K, V>>) -> (r: Vec<
    ORMapDelta<K, V>,
>)
    ensures
        map_delta_list_ops(r@) == map_delta_list_ops(src@),
{
    let mut out: Vec<ORMapDelta<K, V>> = Vec::new();
    let n = src.len();
    let mut i: usize = 0;
    while i < n
        invariant
            n == src@.len(),
            i <= n,
            out@.len() == i,
            forall|j: int| 0 <= j < i ==> (#[trigger] out@[j])@ == src@[j]@,
        decreases n - i,
    {
        out.push(src[i].duplicate());
        i = i + 1;
    }
    proof {
        lemma_map_list_ops_ext(out@, src@);
    }
    out
}

impl<K: Identifier, V: DeltaReplicatedData> Duplicate for ORMapDelta<K, V> {
    fn duplicate(&self) -> (r: Self) {
        ORMapDelta::duplicate(self)
    }
}

impl<K: Identifier, V: DeltaReplicatedData> ReplicatedDelta for ORMapDelta<K, V> {
    type Full = ORMap<K, V>;

    open spec fn zero_state(d: Seq<MapOp<V::V, <V::Delta as View>::V>>) -> OrMapView<V::V> {
        ((DotsByElement::empty(), Versions::empty()), Map::empty())
    }

    fn zero(&self) -> (r: ORMap<K, V>) {
        ORMap::new()
    }
}

fn merge_optional_map_delta<K: Identifier, V: DeltaReplicatedData>(
    existing: &Option<Box<ORMapDelta<K, V>>>,
    next: ORMapDelta<K, V>,
) -> (r: ORMapDelta<K, V>)
    ensures
        r@ == match existing {
            Some(d) => d@ + next@,
            None => next@,
        },
{
    match existing {
        Some(d) => d.merge(&next),
        None => next,
    }
}

/// Observed-remove map from keys to replicated values.
pub struct ORMap<K: Identifier, V: DeltaReplicatedData> {
    keys: ORSet<K>,
    values: SortedMap<K, V>,
    delta: Option<Box<ORMapDelta<K, V>>>,
}

impl<K: Identifier, V: DeltaReplicatedData> View for ORMap<K, V> {
    type V = OrMapView<V::V>;

    closed spec fn view(&self) -> OrMapView<V::V> {
        (self.keys@, self.values@)
    }
}

impl<K: Identifier, V: DeltaReplicatedData> ORMap<K, V> {
    #[verifier::type_invariant]
    spec fn inv(&self) -> bool {
        self.values.wf()
    }

    /// Pending delta operations since the last reset.
    pub closed spec fn delta_view(&self) -> Option<Seq<MapOp<V::V, <V::Delta as View>::V>>> {
        match self.delta {
            Some(d) => Some(d@),
            None => None,
        }
    }

    /// Pending delta operations, none when absent.
    pub open spec fn pending_ops(&self) -> Seq<MapOp<V::V, <V::Delta as View>::V>> {
        match self.delta_view() {
            Some(ops) => ops,
            None => Seq::empty(),
        }
    }

    /// Creates an empty map with no accumulated delta.
    pub fn new() -> (r: Self)
        ensures
            r@ == ((DotsByElement::empty(), Versions::empty()), Map::<Seq<char>, V::V>::empty()),
            r.delta_view() is None,
    {
        ORMap { keys: ORSet::new(), values: SortedMap::new(), delta: None }
    }

    /// The map with key set `keys` and values `values`, as written on the wire.
    pub fn from_wire_state(keys: ORSet<K>, values: SortedMap<K, V>) -> (r: Self)
        requires
            values.wf(),
        ensures
            r@ == (keys@, values@),
            r.delta_view() is None,
    {
        ORMap { keys, values, delta: None }
    }

    /// The observed-remove set of keys.
    pub fn key_set(&self) -> (r: &ORSet<K>)
        ensures
            r@ == self@.0,
    {
        &self.keys
    }

    /// Present keys in ascending order.
    pub fn keys(&self) -> (r: SortedSet<K>)
        ensures
            r.wf(),
            r@ == self@.0.0.dom(),
    {
        self.keys.elements()
    }

    /// Values by key, in ascending key order.
    pub fn entries(&self) -> (r: &SortedMap<K, V>)
        ensures
            r.wf(),
            r@ == self@.1,
    {
        proof {
            use_type_invariant(self);
        }
        &self.values
    }

    /// The value stored for `key`.
    pub fn get(&self, key: &K) -> (r: Option<&V>)
        ensures
            r is Some == self@.1.contains_key(key@),
            r matches Some(v) ==> v@ == self@.1[key@],
    {
        proof {
            use_type_invariant(self);
        }
        self.values.get(key.as_key())
    }

    /// Whether a value is stored for `key`.
    pub fn contains_key(&self, key: &K) -> (r: bool)
        ensures
            r == self@.1.contains_key(key@),
    {
        proof {
            use_type_invariant(self);
        }
        self.values.contains_key(key.as_key())
    }

    /// Whether no value is stored.
    pub fn is_empty(&self) -> (r: bool)
        ensures
            r == (self@.1 == Map::<Seq<char>, V::V>::empty()),
    {
        proof {
            use_type_invariant(self);
        }
        self.values.is_empty()
    }

    /// Number of stored values.
    pub fn len(&self) -> (r: usize)
        ensures
            r == self@.1.len(),
    {
        proof {
            use_type_invariant(self);
        }
        self.values.len()
    }

    /// Writes `value` under `key`, adding the key with a fresh dot of `replica`.
    pub fn put(&self, replica: ReplicaId, key: K, value: V) -> (r: Self)
        ensures
            r@ == (or_added(self@.0, replica@, key@), self@.1.insert(key@, value@)),
            r.delta_view() == Some(
                self.pending_ops().push(
                    MapOp::Put(seq![key_add_op(self@.0, replica@, key@)], key@, value@),
                ),
            ),
    {
        proof {
            use_type_invariant(self);
        }
        let keys = self.keys.reset_delta().add(replica, key.duplicate());
        let key_delta = match keys.delta() {
            Some(d) => d,
            None => {
                proof {
                    assert(false);
                }
                ORSetDelta::Group(Vec::new())
            },
        };
        proof {
            assert(key_delta@ =~= seq![key_add_op(self@.0, replica@, key@)]);
        }
        let mut values = self.values.duplicate();
        values.insert(key.duplicate(), value.duplicate());
        let op = ORMapDelta::Put { keys: key_delta, key, value };
        let delta = merge_optional_map_delta(&self.delta, op);
        ORMap { keys, values, delta: Some(Box::new(delta)) }
    }

    /// Removes `key` and its value, recording the removal as a delta; a key
    /// without a value leaves the map unchanged.
    pub fn remove(&self, replica: ReplicaId, key: &K) -> (r: Self)
        requires
            self@.1.contains_key(key@) ==> self@.0.0.contains_key(key@),
        ensures
            !self@.1.contains_key(key@) ==> r@ == self@ && r.delta_view() == self.delta_view(),
            self@.1.contains_key(key@) ==> r@ == ((self@.0.0.remove(key@), self@.0.1), self@.1.remove(
                key@,
            )) && r.delta_view() == Some(
                self.pending_ops().push(
                    MapOp::Remove(seq![key_remove_op(self@.0, replica@, key@)], Some(key@)),
                ),
            ),
    {
        proof {
            use_type_invariant(self);
        }
        if !self.values.contains_key(key.as_key()) {
            return self.duplicate();
        }
        let keys = self.keys.reset_delta().remove(replica, key);
        let key_delta = match keys.delta() {
            Some(d) => d,
            None => {
                proof {
                    assert(false);
                }
                ORSetDelta::Group(Vec::new())
            },
        };
        proof {
            assert(key_delta@ =~= seq![key_remove_op(self@.0, replica@, key@)]);
        }
        let mut values = self.values.duplicate();
        values.remove(key.as_key());
        let op = ORMapDelta::Remove { keys: key_delta };
        let delta = merge_optional_map_delta(&self.delta, op);
        ORMap { keys, values, delta: Some(Box::new(delta)) }
    }

    /// A copy with the same state and pending delta.
    pub fn duplicate(&self) -> (r: Self)
        ensures
            r@ == self@,
            r.delta_view() == self.delta_view(),
    {
        proof {
            use_type_invariant(self);
        }
        let delta = match &self.delta {
            Some(d) => Some(Box::new(d.duplicate())),
            None => None,
        };
        ORMap { keys: self.keys.duplicate(), values: self.values.duplicate(), delta }
    }

    /// Operations accumulated since the last reset.
    pub fn delta(&self) -> (r: Option<ORMapDelta<K, V>>)
        ensures
            r is Some == self.delta_view() is Some,
            r matches Some(d) ==> Some(d@) == self.delta_view(),
    {
        match &self.delta {
            Some(d) => Some(d.duplicate()),
            None => None,
        }
    }

    /// The same state with the accumulated delta cleared.
    pub fn reset_delta(&self) -> (r: Self)
        ensures
            r@ == self@,
            r.delta_view() is None,
    {
        proof {
            use_type_invariant(self);
        }
        ORMap { keys: self.keys.reset_delta(), values: self.values.duplicate(), delta: None }
    }
}

/// Applies one map delta to a key set and its values.
fn apply_delta<K: Identifier, V: DeltaReplicatedData>(
    keys: &mut ORSet<K>,
    values: &mut SortedMap<K, V>,
    delta: &ORMapDelta<K, V>,
)
    requires
        old(values).wf(),
    ensures
        final(values).wf(),
        (final(keys)@, final(values)@) == map_apply_ops::<V>((old(keys)@, old(values)@), delta@),
    decreases delta,
{
    match delta {
        ORMapDelta::Put { keys: key_delta, key, value } => {
            *keys = keys.merge_delta(key_delta);
            values.insert(key.duplicate(), value.duplicate());
            proof {
                lemma_single_op::<V>((old(keys)@, old(values)@), delta@[0]);
            }
        },
        ORMapDelta::Update { keys: key_delta, values: value_deltas } => {
            *keys = keys.merge_delta(key_delta);
            let vds = value_deltas.entries();
            let ghost vks = vds.key_seq();
            let ghost v0 = values@;
            let ghost ks = keys@;
            proof {
                vds.lemma_wf();
            }
            let n = vds.len();
            let mut i: usize = 0;
            while i < n
                invariant
                    vds.wf(),
                    vks == vds.key_seq(),
                    n == vks.len(),
                    strictly_sorted(vks),
                    vds@.dom() == vks.to_set(),
                    ks == keys@,
                    values.wf(),
                    i <= n,
                    forall|k: Seq<char>|
                        #[trigger] values@.contains_key(k) <==> (v0.contains_key(k) || (
                        vks.take(i as int).contains(k) && ks.0.contains_key(k))),
                    forall|k: Seq<char>| #[trigger]
                        values@.contains_key(k) ==> values@[k] == if vks.take(i as int).contains(k)
                            && ks.0.contains_key(k) {
                            updated_value::<V>(v0, k, vds@[k])
                        } else {
                            v0[k]
                        },
                decreases n - i,
            {
                let key = vds.key_at(i);
                let value_delta = vds.value_at(i);
                let ghost kv = key@;
                proof {
                    lemma_sorted_pos(vks, i as int);
                    assert(vds@[kv] == value_delta@);
                    assert(!vks.take(i as int).contains(kv)) by {
                        if vks.take(i as int).contains(kv) {
                            let p = choose|p: int| 0 <= p < i && #[trigger] vks.take(i as int)[p] == kv;
                            assert(vks[p] == vks[i as int]);
                        }
                    }
                    assert(vks.take(i as int + 1) =~= vks.take(i as int).push(kv));
                    assert forall|k: Seq<char>| #![auto] vks.take(i as int + 1).contains(k) <==> (
                    vks.take(i as int).contains(k) || k == kv) by {
                        lemma_push_contains(vks.take(i as int), kv, k);
                    }
                }
                if keys.contains(key) {
                    let next = match values.get(key.as_key()) {
                        Some(current) => current.merge_delta(value_delta),
                        None => value_delta.zero().merge_delta(value_delta),
                    };
                    values.insert(key.duplicate(), next);
                }
                i = i + 1;
            }
            proof {
                assert(vks.take(n as int) =~= vks);
                let target = map_apply_ops::<V>((old(keys)@, old(values)@), delta@);
                lemma_single_op::<V>((old(keys)@, old(values)@), delta@[0]);
                assert(values@ =~= target.1);
            }
        },
        ORMapDelta::Remove { keys: key_delta } => {
            match key_delta {
                ORSetDelta::Remove(remove) => {
                    values.remove(remove.element().as_key());
                },
                _ => {},
            }
            *keys = keys.merge_delta(key_delta);
            proof {
                lemma_single_op::<V>((old(keys)@, old(values)@), delta@[0]);
            }
        },
        ORMapDelta::Group(ops) => {
            let n = ops.len();
            let mut i: usize = 0;
            proof {
                assert(ops@.take(0) =~= Seq::<ORMapDelta<K, V>>::empty());
            }
            #[verifier::loop_isolation(false)]
            while i < n
                invariant
                    n == ops@.len(),
                    i <= n,
                    values.wf(),
                    (keys@, values@) == map_apply_ops::<V>(
                        (old(keys)@, old(values)@),
                        map_delta_list_ops(ops@.take(i as int)),
                    ),
                decreases n - i,
            {
                proof {
                    assert(decreases_to!(ops@ => ops@[i as int]));
                    assert(decreases_to!(*ops => ops@));
                    assert(decreases_to!(delta => ops@[i as int]));
                    assert(ops@.take(i as int + 1) =~= ops@.take(i as int) + seq![ops@[i as int]]);
                    lemma_map_list_ops_concat(ops@.take(i as int), seq![ops@[i as int]]);
                    lemma_map_list_ops_one(ops@[i as int]);
                    lemma_map_apply_concat::<V>(
                        (old(keys)@, old(values)@),
                        map_delta_list_ops(ops@.take(i as int)),
                        map_delta_ops(ops@[i as int]),
                    );
                }
                apply_delta(keys, values, &ops[i]);
                i = i + 1;
            }
            proof {
                assert(ops@.take(n as int) =~= ops@);
            }
        },
    }
}

/// Applying a single operation.
proof fn lemma_single_op<V: DeltaReplicatedData>(
    st: OrMapView<V::V>,
    op: MapOp<V::V, <V::Delta as View>::V>,
)
    ensures
        map_apply_ops::<V>(st, seq![op]) == map_apply_op::<V>(st, op),
{
    assert(seq![op].drop_last() =~= Seq::<MapOp<V::V, <V::Delta as View>::V>>::empty());
    assert(seq![op].last() == op);
    assert(map_apply_ops::<V>(st, Seq::<MapOp<V::V, <V::Delta as View>::V>>::empty()) == st);
}

impl<K: Identifier, V: DeltaReplicatedData> ORMap<K, V> {
    /// Merges one received delta: the delta is applied to a copy of this
    /// map, and the copy is merged back.
    pub fn merge_delta(&self, delta: &ORMapDelta<K, V>) -> (r: Self)
        ensures
            r@ == ormap_merged::<V>(self@, map_apply_ops::<V>(self@, delta@)),
    {
        let dry = self.dry_merge_delta(delta);
        self.merge(&dry)
    }

    fn dry_merge_delta(&self, delta: &ORMapDelta<K, V>) -> (r: Self)
        ensures
            r@ == map_apply_ops::<V>(self@, delta@),
    {
        proof {
            use_type_invariant(self);
        }
        let mut keys = self.keys.duplicate();
        let mut values = self.values.duplicate();
        apply_delta(&mut keys, &mut values, delta);
        ORMap { keys, values, delta: None }
    }

    /// Writes under `key` the value `modify` makes of the current value, or
    /// of `initial` when there is none; records an update delta when the key
    /// had a value and the new value carries a delta, else a full write.
    pub fn updated<F: FnOnce(V) -> V>(&self, replica: ReplicaId, key: K, initial: V, modify: F) -> (r:
        Self)
        requires
            forall|v: V| modify.requires((v,)),
        ensures
            exists|o: V, n: V|
                {
                    &&& o@ == if self@.1.contains_key(key@) {
                        self@.1[key@]
                    } else {
                        initial@
                    }
                    &&& modify.ensures((o,), n)
                    &&& r@ == (or_added(self@.0, replica@, key@), self@.1.insert(key@, n@))
                    &&& r.delta_view() == Some(
                        self.pending_ops().push(
                            if self@.1.contains_key(key@) && n.pending_delta() is Some {
                                MapOp::Update(
                                    seq![key_add_op(self@.0, replica@, key@)],
                                    map![key@ => n.pending_delta().unwrap()],
                                )
                            } else {
                                MapOp::Put(seq![key_add_op(self@.0, replica@, key@)], key@, n@)
                            },
                        ),
                    )
                },
    {
        proof {
            use_type_invariant(self);
        }
        let had_value = self.values.contains_key(key.as_key());
        let old_value = match self.values.get(key.as_key()) {
            Some(v) => v.duplicate(),
            None => initial,
        };
        let start = old_value.reset_delta();
        let next_value = modify(start);
        let keys = self.keys.reset_delta().add(replica, key.duplicate());
        let key_delta = match keys.delta() {
            Some(d) => d,
            None => {
                proof {
                    assert(false);
                }
                ORSetDelta::Group(Vec::new())
            },
        };
        proof {
            assert(key_delta@ =~= seq![key_add_op(self@.0, replica@, key@)]);
        }
        let mut values = self.values.duplicate();
        values.insert(key.duplicate(), next_value.duplicate());
        let ghost nv = next_value;
        let op = match (had_value, next_value.delta()) {
            (true, Some(value_delta)) => ORMapDelta::Update {
                keys: key_delta,
                values: ValueDeltas::single(key, value_delta),
            },
            _ => ORMapDelta::Put { keys: key_delta, key, value: next_value },
        };
        let delta = merge_optional_map_delta(&self.delta, op);
        let r = ORMap { keys, values, delta: Some(Box::new(delta)) };
        proof {
            assert(r@ == (or_added(self@.0, replica@, key@), self@.1.insert(key@, nv@)));
        }
        r
    }
}

impl<K: Identifier, V: DeltaReplicatedData> Duplicate for ORMap<K, V> {
    fn duplicate(&self) -> (r: Self) {
        ORMap::duplicate(self)
    }
}

impl<K: Identifier, V: DeltaReplicatedData> Mergeable for ORMap<K, V> {
    fn clone_value(&self) -> (r: Self) {
        ORMap::duplicate(self)
    }

    open spec fn settled(&self) -> bool {
        self.delta_view() is None
    }

    open spec fn merged(a: OrMapView<V::V>, b: OrMapView<V::V>) -> OrMapView<V::V> {
        ormap_merged::<V>(a, b)
    }

    fn merge(&self, other: &Self) -> (r: Self) {
        proof {
            use_type_invariant(self);
            use_type_invariant(other);
        }
        let keys = self.keys.merge(&other.keys);
        let elems = keys.elements();
        let ghost ks = elems.key_seq();
        let ghost target = ormap_merged::<V>(self@, other@);
        proof {
            elems.lemma_wf();
        }
        let n = elems.len();
        let mut values: SortedMap<K, V> = SortedMap::new();
        let mut i: usize = 0;
        while i < n
            invariant
                elems.wf(),
                ks == elems.key_seq(),
                n == ks.len(),
                strictly_sorted(ks),
                elems@ == ks.to_set(),
                elems@ == target.0.0.dom(),
                target == ormap_merged::<V>(self@, other@),
                self.values.wf(),
                other.values.wf(),
                values.wf(),
                i <= n,
                forall|k: Seq<char>|
                    #[trigger] values@.contains_key(k) <==> (ks.take(i as int).contains(k) && (
                    self@.1.contains_key(k) || other@.1.contains_key(k))),
                forall|k: Seq<char>| #[trigger]
                    values@.contains_key(k) ==> values@[k] == merged_value::<V>(self@.1, other@.1, k),
            decreases n - i,
        {
            let key = elems.key_at(i);
            let ghost kv = key@;
            proof {
                assert(ks.take(i as int + 1) =~= ks.take(i as int).push(kv));
                assert forall|k: Seq<char>| #![auto] ks.take(i as int + 1).contains(k) <==> (ks.take(
                    i as int,
                ).contains(k) || k == kv) by {
                    lemma_push_contains(ks.take(i as int), kv, k);
                }
            }
            match (self.values.get(key.as_key()), other.values.get(key.as_key())) {
                (Some(left), Some(right)) => {
                    values.insert(key.duplicate(), left.merge(right));
                },
                (Some(left), None) => {
                    values.insert(key.duplicate(), left.duplicate());
                },
                (None, Some(right)) => {
                    values.insert(key.duplicate(), right.duplicate());
                },
                (None, None) => {},
            }
            i = i + 1;
        }
        proof {
            assert(ks.take(n as int) =~= ks);
            assert(values@ =~= target.1);
        }
        ORMap { keys, values, delta: None }
    }
}

impl<K: Identifier, V: DeltaReplicatedData> Default for ORMap<K, V> {
    fn default() -> (r: Self)
        ensures
            r@ == ((DotsByElement::empty(), Versions::empty()), Map::<Seq<char>, V::V>::empty()),
    {
        ORMap::new()
    }
}

/// Replicas whose causal state a map holds: those of its key set and of
/// every value.
pub open spec fn ormap_modified<K: Identifier, V: DeltaReplicatedData + RemovedNodePruning>(
    v: OrMapView<V::V>,
) -> Set<Seq<char>> {
    <ORSet<K> as RemovedNodePruning>::modified_by(v.0).union(
        Set::new(
            |r: Seq<char>|
                exists|k: Seq<char>| #[trigger]
                    v.1.contains_key(k) && V::modified_by(v.1[k]).contains(r),
        ),
    )
}

/// Pruning a value fails.
pub open spec fn value_prune_fails<V: RemovedNodePruning>(
    w: V::V,
    removed: Seq<char>,
    into: Seq<char>,
) -> bool {
    V::modified_by(w).contains(removed) && V::prune_fails(w, removed, into)
}

/// A value after pruning `removed` into `into`, when it holds state of `removed`.
pub open spec fn pruned_value<V: RemovedNodePruning>(w: V::V, removed: Seq<char>, into: Seq<char>) -> V::V {
    if V::modified_by(w).contains(removed) {
        V::pruned(w, removed, into)
    } else {
        w
    }
}

/// A value after dropping metadata of `removed`, when it holds state of it.
pub open spec fn cleaned_value<V: RemovedNodePruning>(w: V::V, removed: Seq<char>) -> V::V {
    if V::modified_by(w).contains(removed) {
        V::cleaned(w, removed)
    } else {
        w
    }
}

impl<K: Identifier, V: DeltaReplicatedData + RemovedNodePruning> ORMap<K, V> {
    /// Replica identities whose causal state the map holds.
    pub fn modified_by_replica_ids(&self) -> (r: SortedSet<ReplicaId>)
        ensures
            r.wf(),
            r@ == ormap_modified::<K, V>(self@),
    {
        proof {
            use_type_invariant(self);
            self.values.lemma_wf();
        }
        let mut all = self.keys.modified_by_replica_ids();
        let ghost ks = self.values.key_seq();
        let ghost vs = self.values.value_seq();
        let n = self.values.len();
        let mut i: usize = 0;
        while i < n
            invariant
                self.values.wf(),
                ks == self.values.key_seq(),
                vs == self.values.value_seq(),
                n == ks.len(),
                n == vs.len(),
                all.wf(),
                i <= n,
                all@ == <ORSet<K> as RemovedNodePruning>::modified_by(self@.0).union(
                    Set::new(
                        |r: Seq<char>|
                            exists|j: int| 0 <= j < i && #[trigger] V::modified_by(vs[j]).contains(r),
                    ),
                ),
            decreases n - i,
        {
            let part = self.values.value_at(i).modified_by_replica_ids();
            let ghost before = all@;
            all = all.union(&part);
            proof {
                assert(all@ =~= <ORSet<K> as RemovedNodePruning>::modified_by(self@.0).union(
                    Set::new(
                        |r: Seq<char>|
                            exists|j: int| 0 <= j < i + 1 && #[trigger] V::modified_by(vs[j]).contains(r),
                    ),
                )) by {
                    assert forall|r: Seq<char>| all@.contains(r) == <ORSet<K> as RemovedNodePruning>::modified_by(self@.0).union(
                        Set::new(
                            |r: Seq<char>|
                                exists|j: int| 0 <= j < i + 1 && #[trigger] V::modified_by(vs[j]).contains(r),
                        ),
                    ).contains(r) by {
                        if V::modified_by(vs[i as int]).contains(r) {
                            assert(0 <= i < i + 1 && V::modified_by(vs[i as int]).contains(r));
                        }
                        if exists|j: int| 0 <= j < i + 1 && #[trigger] V::modified_by(vs[j]).contains(r) {
                            let j = choose|j: int| 0 <= j < i + 1 && #[trigger] V::modified_by(vs[j]).contains(r);
                            if j < i {
                                assert(0 <= j < i && V::modified_by(vs[j]).contains(r));
                            }
                        }
                    }
                }
            }
            i = i + 1;
        }
        proof {
            assert(all@ =~= ormap_modified::<K, V>(self@)) by {
                assert forall|r: Seq<char>| all@.contains(r) == ormap_modified::<K, V>(self@).contains(r) by {
                    if exists|j: int| 0 <= j < n && #[trigger] V::modified_by(vs[j]).contains(r) {
                        let j = choose|j: int| 0 <= j < n && #[trigger] V::modified_by(vs[j]).contains(r);
                        assert(self@.1.contains_key(ks[j]) && self@.1[ks[j]] == vs[j]);
                    }
                    if exists|k: Seq<char>| #[trigger] self@.1.contains_key(k) && V::modified_by(self@.1[k]).contains(r) {
                        let k = choose|k: Seq<char>| #[trigger] self@.1.contains_key(k) && V::modified_by(self@.1[k]).contains(r);
                        assert(ks.to_set().contains(k));
                        let j = choose|j: int| 0 <= j < ks.len() && ks[j] == k;
                        lemma_sorted_pos(ks, j);
                        assert(self@.1[k] == vs[j]);
                        assert(0 <= j < n && V::modified_by(vs[j]).contains(r));
                    }
                }
            }
        }
        all
    }

    /// Whether the key set or any value holds state of `removed_replica`.
    pub fn need_pruning_from(&self, removed_replica: &ReplicaId) -> (r: bool)
        ensures
            r == ormap_modified::<K, V>(self@).contains(removed_replica@),
    {
        let ids = self.modified_by_replica_ids();
        ids.contains(removed_replica.as_str())
    }

    /// Collapses state of `removed_replica` into `collapse_into` in the key set
    /// and in every value holding some; fails when a value cannot be pruned.
    pub fn prune(&self, removed_replica: &ReplicaId, collapse_into: ReplicaId) -> (r: Result<
        Self,
        CrdtError,
    >)
        ensures
            r is Err <==> exists|k: Seq<char>| #[trigger]
                self@.1.contains_key(k) && value_prune_fails::<V>(
                    self@.1[k],
                    removed_replica@,
                    collapse_into@,
                ),
            r matches Ok(m) ==> m@ == (
                <ORSet<K> as RemovedNodePruning>::pruned(self@.0, removed_replica@, collapse_into@),
                self@.1.map_values(|w: V::V| pruned_value::<V>(w, removed_replica@, collapse_into@)),
            ),
    {
        proof {
            use_type_invariant(self);
            self.values.lemma_wf();
        }
        let keys = match self.keys.prune(removed_replica, collapse_into.duplicate()) {
            Ok(k) => k,
            Err(e) => {
                return Err(e);
            },
        };
        let ghost ks = self.values.key_seq();
        let ghost vs = self.values.value_seq();
        let ghost into = collapse_into@;
        let ghost rm = removed_replica@;
        let n = self.values.len();
        let mut values: SortedMap<K, V> = SortedMap::new();
        let mut i: usize = 0;
        proof {
            lemma_prefix_map_ends(ks, vs);
        }
        while i < n
            invariant
                self.values.wf(),
                ks == self.values.key_seq(),
                vs == self.values.value_seq(),
                n == ks.len(),
                n == vs.len(),
                strictly_sorted(ks),
                into == collapse_into@,
                rm == removed_replica@,
                values.wf(),
                i <= n,
                values@ == prefix_map(ks, vs, i as int).map_values(
                    |w: V::V| pruned_value::<V>(w, rm, into),
                ),
                forall|j: int| 0 <= j < i ==> !value_prune_fails::<V>(#[trigger] vs[j], rm, into),
            decreases n - i,
        {
            proof {
                lemma_prefix_map_step(ks, vs, i as int);
            }
            let value = self.values.value_at(i);
            let next = if value.need_pruning_from(removed_replica) {
                match value.prune(removed_replica, collapse_into.duplicate()) {
                    Ok(p) => p,
                    Err(e) => {
                        proof {
                            assert(self@.1.contains_key(ks[i as int]) && self@.1[ks[i as int]] == vs[i as int]);
                            assert(value_prune_fails::<V>(self@.1[ks[i as int]], rm, into));
                        }
                        return Err(e);
                    },
                }
            } else {
                value.duplicate()
            };
            values.insert(self.values.key_at(i).duplicate(), next);
            proof {
                assert(values@ =~= prefix_map(ks, vs, i as int + 1).map_values(
                    |w: V::V| pruned_value::<V>(w, rm, into),
                ));
            }
            i = i + 1;
        }
        proof {
            lemma_prefix_map_ends(ks, vs);
            assert forall|k: Seq<char>| #[trigger] self@.1.contains_key(k) implies !value_prune_fails::<V>(
                self@.1[k],
                rm,
                into,
            ) by {
                assert(ks.to_set().contains(k));
                let j = choose|j: int| 0 <= j < ks.len() && ks[j] == k;
                lemma_sorted_pos(ks, j);
            }
        }
        Ok(ORMap { keys, values, delta: None })
    }

    /// Drops metadata of an already pruned replica from the key set and from
    /// every value holding some.
    pub fn pruning_cleanup(&self, removed_replica: &ReplicaId) -> (r: Self)
        ensures
            r@ == (
                <ORSet<K> as RemovedNodePruning>::cleaned(self@.0, removed_replica@),
                self@.1.map_values(|w: V::V| cleaned_value::<V>(w, removed_replica@)),
            ),
    {
        proof {
            use_type_invariant(self);
            self.values.lemma_wf();
        }
        let keys = self.keys.pruning_cleanup(removed_replica);
        let ghost ks = self.values.key_seq();
        let ghost vs = self.values.value_seq();
        let ghost rm = removed_replica@;
        let n = self.values.len();
        let mut values: SortedMap<K, V> = SortedMap::new();
        let mut i: usize = 0;
        proof {
            lemma_prefix_map_ends(ks, vs);
        }
        while i < n
            invariant
                self.values.wf(),
                ks == self.values.key_seq(),
                vs == self.values.value_seq(),
                n == ks.len(),
                n == vs.len(),
                strictly_sorted(ks),
                rm == removed_replica@,
                values.wf(),
                i <= n,
                values@ == prefix_map(ks, vs, i as int).map_values(
                    |w: V::V| cleaned_value::<V>(w, rm),
                ),
            decreases n - i,
        {
            proof {
                lemma_prefix_map_step(ks, vs, i as int);
            }
            let value = self.values.value_at(i);
            let next = if value.need_pruning_from(removed_replica) {
                value.pruning_cleanup(removed_replica)
            } else {
                value.duplicate()
            };
            values.insert(self.values.key_at(i).duplicate(), next);
            proof {
                assert(values@ =~= prefix_map(ks, vs, i as int + 1).map_values(
                    |w: V::V| cleaned_value::<V>(w, rm),
                ));
            }
            i = i + 1;
        }
        proof {
            lemma_prefix_map_ends(ks, vs);
        }
        ORMap { keys, values, delta: None }
    }
}

/// Merging two maps in either order gives the same map.
pub proof fn lemma_ormap_merge_commutative<K: Identifier, V: DeltaReplicatedData>(
    a: OrMapView<V::V>,
    b: OrMapView<V::V>,
)
    requires
        <ORSet<K> as ReplicatedData>::valid(a.0),
        <ORSet<K> as ReplicatedData>::valid(b.0),
        forall|k: Seq<char>| #[trigger] a.1.contains_key(k) ==> V::valid(a.1[k]),
        forall|k: Seq<char>| #[trigger] b.1.contains_key(k) ==> V::valid(b.1[k]),
        forall|k: Seq<char>|
            a.1.contains_key(k) && b.1.contains_key(k) ==> V::coherent(#[trigger] a.1[k], #[trigger] b.1[k]),
    ensures
        ormap_merged::<V>(a, b) == ormap_merged::<V>(b, a),
{
    <ORSet<K> as ReplicatedData>::lemma_merge_commutative(a.0, b.0);
    assert forall|k: Seq<char>| a.1.contains_key(k) && b.1.contains_key(k) implies V::merged(
        a.1[k],
        b.1[k],
    ) == V::merged(b.1[k], a.1[k]) by {
        V::lemma_merge_commutative(a.1[k], b.1[k]);
    }
    assert(ormap_merged::<V>(a, b).1 =~= ormap_merged::<V>(b, a).1);
}

/// Merging a map with itself changes nothing, when every valued key is present.
pub proof fn lemma_ormap_merge_idempotent<K: Identifier, V: DeltaReplicatedData>(a: OrMapView<V::V>)
    requires
        <ORSet<K> as ReplicatedData>::valid(a.0),
        forall|k: Seq<char>| #[trigger] a.1.contains_key(k) ==> V::valid(a.1[k]),
        a.1.dom().subset_of(a.0.0.dom()),
    ensures
        ormap_merged::<V>(a, a) == a,
{
    <ORSet<K> as ReplicatedData>::lemma_merge_idempotent(a.0);
    assert forall|k: Seq<char>| a.1.contains_key(k) implies V::merged(a.1[k], a.1[k]) == a.1[k] by {
        V::lemma_merge_idempotent(a.1[k]);
    }
    assert(ormap_merged::<V>(a, a).1 =~= a.1);
}

} // verus!
