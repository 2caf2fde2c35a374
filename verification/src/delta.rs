//! Per-key delta sequencing and round-robin propagation selection.
//!
//! Every local update advances a monotonically increasing key version, even
//! when it has no directly propagatable delta. Unsent contiguous ranges are
//! merged per target replica, while payload-free ranges deliberately fall back
//! to eventual full-state gossip.
//!
//! The retained entries of a key always form the contiguous version range that
//! ends at its current version, so they are kept as a sequence whose last
//! element carries the current version.
use vstd::prelude::*;

use crate::data::Mergeable;
use crate::key::ReplicatorKey;
use crate::pruning::{PTable, PruningTable};
use crate::replica::{copy_ids, ids_view, lemma_ids_push, ReplicaId};
use crate::sorted_map::{
    lemma_pairs_map_values, lemma_prefix_map_ends, lemma_prefix_map_step, lemma_sorted_keys_of,
    lemma_push_contains, lemma_sorted_no_duplicates, lemma_sorted_pos, pos_of, prefix_map, sorted_keys, strictly_sorted,
    Duplicate, SortedMap,
};
use crate::sorted_set::SortedSet;

verus! {

pub const DEFAULT_GOSSIP_INTERVAL_DIVISOR: usize = 5;

pub const MIN_NODE_SLICE_SIZE: usize = 2;

pub const MAX_NODE_SLICE_SIZE: usize = 10;

/// Abstract value of an optional payload.
pub open spec fn opt_view<D: View>(o: Option<D>) -> Option<D::V> {
    match o {
        Some(d) => Some(d@),
        None => None,
    }
}

/// Abstract values of a sequence of optional payloads.
pub open spec fn deltas_view<D: View>(s: Seq<Option<D>>) -> Seq<Option<D::V>> {
    s.map_values(|o: Option<D>| opt_view(o))
}

/// A merged delta and the inclusive source-version range it represents.
#[derive(Debug, Clone, PartialEq, Eq)]
pub struct DeltaPropagationEntry<D> {
    delta: D,
    from_version: u64,
    to_version: u64,
}

impl<D: View> View for DeltaPropagationEntry<D> {
    type V = (D::V, u64, u64);

    closed spec fn view(&self) -> (D::V, u64, u64) {
        (self.delta@, self.from_version, self.to_version)
    }
}

impl<D: View> DeltaPropagationEntry<D> {
    /// Creates an entry for the inclusive range `from_version..=to_version`.
    pub fn new(delta: D, from_version: u64, to_version: u64) -> (r: Self)
        ensures
            r@ == (delta@, from_version, to_version),
    {
        DeltaPropagationEntry { delta, from_version, to_version }
    }

    /// Returns the merged delta payload.
    pub fn delta(&self) -> (r: &D)
        ensures
            r@ == self@.0,
    {
        &self.delta
    }

    /// Returns the first version represented by the payload.
    pub fn from_version(&self) -> (r: u64)
        ensures
            r == self@.1,
    {
        self.from_version
    }

    /// Returns the last version represented by the payload.
    pub fn to_version(&self) -> (r: u64)
        ensures
            r == self@.2,
    {
        self.to_version
    }
}

impl<D: Duplicate> Duplicate for DeltaPropagationEntry<D> {
    fn duplicate(&self) -> (r: Self) {
        DeltaPropagationEntry {
            delta: self.delta.duplicate(),
            from_version: self.from_version,
            to_version: self.to_version,
        }
    }
}

/// Delta ranges selected for one target replica during a propagation tick,
/// with the removed-replica pruning markers attached to their keys.
#[derive(Debug, PartialEq, Eq)]
pub struct DeltaPropagation<D: Duplicate> {
    entries: SortedMap<ReplicatorKey, DeltaPropagationEntry<D>>,
    pruning: SortedMap<ReplicatorKey, PruningTable>,
}

/// `t` is a pruning table that `resolver` may return for a key viewed as `k`.
pub open spec fn resolved_by<F: Fn(&ReplicatorKey) -> PruningTable>(resolver: F, k: Seq<char>, t: PTable) -> bool {
    exists|key: ReplicatorKey, p: PruningTable|
        #![trigger call_ensures(resolver, (&key,), p)]
        key@ == k && p@ == t && call_ensures(resolver, (&key,), p)
}

impl<D: Duplicate> View for DeltaPropagation<D> {
    type V = Map<Seq<char>, (D::V, u64, u64)>;

    closed spec fn view(&self) -> Map<Seq<char>, (D::V, u64, u64)> {
        self.entries@
    }
}

impl<D: Duplicate> DeltaPropagation<D> {
    #[verifier::type_invariant]
    spec fn inv(&self) -> bool {
        &&& self.entries.wf()
        &&& self.pruning.wf()
    }

    /// Pruning markers attached to keys.
    pub closed spec fn pruning_view(&self) -> Map<Seq<char>, PTable> {
        self.pruning@
    }

    /// The pruning markers attached to `key`, if any.
    pub fn pruning_for(&self, key: &ReplicatorKey) -> (r: Option<&PruningTable>)
        ensures
            match r {
                Some(t) => self.pruning_view().contains_key(key@) && t@ == self.pruning_view()[key@],
                None => !self.pruning_view().contains_key(key@),
            },
    {
        proof {
            use_type_invariant(self);
        }
        self.pruning.get(key.as_str())
    }

    /// Attaches to every key the pruning markers `resolver` gives for it, in
    /// ascending key order, replacing any attached before.
    pub fn attach_pruning<F: Fn(&ReplicatorKey) -> PruningTable>(&mut self, resolver: &F)
        requires
            forall|k: &ReplicatorKey| call_requires(*resolver, (k,)),
        ensures
            final(self)@ == old(self)@,
            final(self).pruning_view().dom() == old(self)@.dom(),
            forall|k: Seq<char>|
                #[trigger] old(self)@.contains_key(k) ==> resolved_by(*resolver, k, final(self).pruning_view()[k]),
    {
        proof {
            use_type_invariant(&*self);
            self.entries.lemma_wf();
        }
        let ghost ks = self.entries.key_seq();
        let n = self.entries.len();
        let mut pruning: SortedMap<ReplicatorKey, PruningTable> = SortedMap::new();
        let mut i: usize = 0;
        while i < n
            invariant
                self.entries.wf(),
                ks == self.entries.key_seq(),
                n == ks.len(),
                strictly_sorted(ks),
                self.entries@.dom() == ks.to_set(),
                i <= n,
                forall|k: &ReplicatorKey| call_requires(*resolver, (k,)),
                pruning.wf(),
                pruning@.dom() == ks.take(i as int).to_set(),
                forall|k: Seq<char>| #[trigger] pruning@.contains_key(k) ==> resolved_by(*resolver, k, pruning@[k]),
            decreases n - i,
        {
            let key = self.entries.key_at(i);
            let table = resolver(key);
            proof {
                assert(call_ensures(*resolver, (key,), table));
                assert(resolved_by(*resolver, key@, table@));
            }
            let ghost before = pruning@;
            pruning.insert(key.duplicate(), table);
            proof {
                assert(ks.take(i as int + 1) =~= ks.take(i as int).push(ks[i as int]));
                ks.take(i as int).lemma_push_to_set_commute(ks[i as int]);
                assert forall|k: Seq<char>| #[trigger] pruning@.contains_key(k) implies resolved_by(*resolver, k, pruning@[k]) by {
                    if k != key@ {
                        assert(before.contains_key(k));
                    }
                }
            }
            i = i + 1;
        }
        proof {
            assert(ks.take(n as int) =~= ks);
        }
        self.pruning = pruning;
    }

    /// Returns propagation entries in ascending key order.
    pub fn entries(&self) -> (r: &SortedMap<ReplicatorKey, DeltaPropagationEntry<D>>)
        ensures
            r.wf(),
            r@ == self@,
    {
        proof {
            use_type_invariant(self);
        }
        &self.entries
    }

    /// Reports whether this propagation contains no delta payloads.
    pub fn is_empty(&self) -> (r: bool)
        ensures
            r == (self@ == Map::<Seq<char>, (D::V, u64, u64)>::empty()),
    {
        proof {
            use_type_invariant(self);
        }
        self.entries.is_empty()
    }
}

impl<D: Duplicate> Clone for DeltaPropagation<D> {
    fn clone(&self) -> (r: Self)
        ensures
            r@ == self@,
    {
        self.duplicate()
    }
}

impl<D: Duplicate> Duplicate for DeltaPropagation<D> {
    fn duplicate(&self) -> (r: Self) {
        proof {
            use_type_invariant(self);
        }
        DeltaPropagation { entries: self.entries.duplicate(), pruning: self.pruning.duplicate() }
    }
}

/// Abstract per-key log: the current version, the retained payloads of the
/// versions that end at it, and the last version selected for each replica.
pub struct KeyLogView<V> {
    pub version: u64,
    pub deltas: Seq<Option<V>>,
    pub sent: Map<Seq<char>, u64>,
}

/// First version not retained in a key log: the retained payloads are those
/// of the versions after it.
pub open spec fn base_of<V>(kl: KeyLogView<V>) -> int {
    kl.version - kl.deltas.len()
}

/// Last version selected for `node`, zero when none was.
pub open spec fn sent_of<V>(kl: KeyLogView<V>, node: Seq<char>) -> u64 {
    if kl.sent.contains_key(node) {
        kl.sent[node]
    } else {
        0
    }
}

/// Retained payloads of the versions after `v`.
pub open spec fn unsent_after<V>(kl: KeyLogView<V>, v: int) -> Seq<Option<V>> {
    if v <= base_of(kl) {
        kl.deltas
    } else if v >= kl.version {
        Seq::empty()
    } else {
        kl.deltas.skip(v - base_of(kl))
    }
}

/// Left fold of a group with `merged`; no value when a payload is missing.
pub open spec fn merged_group<D: Mergeable>(s: Seq<Option<D::V>>) -> Option<D::V>
    decreases s.len(),
{
    if s.len() == 0 {
        None
    } else if s.len() == 1 {
        s[0]
    } else {
        match (merged_group::<D>(s.drop_last()), s.last()) {
            (Some(a), Some(b)) => Some(D::merged(a, b)),
            _ => None,
        }
    }
}

/// Payload sent for a group: none when it holds `max` versions or more.
pub open spec fn group_delta<D: Mergeable>(s: Seq<Option<D::V>>, max: usize) -> Option<D::V> {
    if s.len() >= max {
        None
    } else {
        merged_group::<D>(s)
    }
}

/// Number of replicas selected on one tick among `n` with `divisor`.
pub open spec fn slice_size(n: int, divisor: int) -> int {
    let d = if divisor < 1 {
        1
    } else {
        divisor
    };
    let target = n / d + 1;
    let low = if target < MIN_NODE_SLICE_SIZE {
        MIN_NODE_SLICE_SIZE as int
    } else {
        target
    };
    let cap = if n < MAX_NODE_SLICE_SIZE {
        n
    } else {
        MAX_NODE_SLICE_SIZE as int
    };
    if low < cap {
        low
    } else {
        cap
    }
}

/// The log after `sel` selection progress: each replica of `sel` with an
/// unsent range has now been sent up to the current version.
pub open spec fn advanced<V>(kl: KeyLogView<V>, sel: Seq<Seq<char>>) -> KeyLogView<V> {
    KeyLogView {
        sent: Map::new(
            |n: Seq<char>|
                kl.sent.contains_key(n) || (sel.contains(n) && unsent_after(kl, sent_of(kl, n) as int).len()
                    > 0),
            |n: Seq<char>|
                if sel.contains(n) && unsent_after(kl, sent_of(kl, n) as int).len() > 0 {
                    kl.version
                } else {
                    kl.sent[n]
                },
        ),
        ..kl
    }
}

/// Entry sent to `node` for a key: the merged unsent range, when it has a payload.
pub open spec fn entry_for<D: Mergeable>(kl: KeyLogView<D::V>, node: Seq<char>, max: usize) -> Option<
    (D::V, u64, u64),
> {
    let u = unsent_after(kl, sent_of(kl, node) as int);
    if u.len() == 0 {
        None
    } else {
        match group_delta::<D>(u, max) {
            Some(d) => Some((d, (kl.version - u.len() + 1) as u64, kl.version)),
            None => None,
        }
    }
}

/// Abstract state of a delta propagation log.
pub struct DeltaLogView<V> {
    pub nodes: Seq<Seq<char>>,
    pub keys: Map<Seq<char>, KeyLogView<V>>,
    pub counter: u64,
    pub propagation_count: u64,
    pub divisor: usize,
    pub max_delta_versions: usize,
}

/// Current version of `key`, zero when unknown.
pub open spec fn version_of<V>(v: DeltaLogView<V>, key: Seq<char>) -> u64 {
    if v.keys.contains_key(key) {
        v.keys[key].version
    } else {
        0
    }
}

/// Current version and retained payloads of one key.
struct KeyDeltas<D: Duplicate> {
    version: u64,
    deltas: Vec<Option<D>>,
}

impl<D: Duplicate> View for KeyDeltas<D> {
    type V = (u64, Seq<Option<D::V>>);

    closed spec fn view(&self) -> (u64, Seq<Option<D::V>>) {
        (self.version, deltas_view(self.deltas@))
    }
}

impl<D: Duplicate> KeyDeltas<D> {
    #[verifier::type_invariant]
    spec fn inv(&self) -> bool {
        self.deltas@.len() <= self.version
    }
}

proof fn lemma_deltas_push<D: View>(s: Seq<Option<D>>, x: Option<D>)
    ensures
        deltas_view(s.push(x)) == deltas_view(s).push(opt_view(x)),
{
    assert(deltas_view(s.push(x)) =~= deltas_view(s).push(opt_view(x)));
}

/// Copies the payloads of `src` from position `start` on.
fn copy_deltas_from<D: Duplicate>(src: &Vec<Option<D>>, start: usize) -> (r: Vec<Option<D>>)
    requires
        start <= src@.len(),
    ensures
        deltas_view(r@) == deltas_view(src@).skip(start as int),
        r@.len() == src@.len() - start,
{
    let mut out: Vec<Option<D>> = Vec::new();
    let n = src.len();
    let mut i: usize = start;
    while i < n
        invariant
            n == src@.len(),
            start <= i <= n,
            deltas_view(out@) == deltas_view(src@).skip(start as int).take(i - start),
            out@.len() == i - start,
        decreases n - i,
    {
        let item = match &src[i] {
            Some(d) => Some(d.duplicate()),
            None => None,
        };
        let ghost prev = out@;
        out.push(item);
        proof {
            lemma_deltas_push(prev, item);
            assert(deltas_view(src@).skip(start as int).take(i - start + 1) =~= deltas_view(
                src@,
            ).skip(start as int).take(i - start).push(opt_view(src@[i as int])));
        }
        i = i + 1;
    }
    proof {
        assert(deltas_view(src@).skip(start as int).take(n - start) =~= deltas_view(src@).skip(
            start as int,
        ));
    }
    out
}

impl<D: Duplicate> Duplicate for KeyDeltas<D> {
    fn duplicate(&self) -> (r: Self) {
        proof {
            use_type_invariant(self);
            assert(deltas_view(self.deltas@).skip(0) =~= deltas_view(self.deltas@));
        }
        let deltas = copy_deltas_from(&self.deltas, 0);
        KeyDeltas { version: self.version, deltas }
    }
}

/// Last version selected for each replica, for one key.
struct Progress {
    sent: SortedMap<ReplicaId, u64>,
}

impl View for Progress {
    type V = Map<Seq<char>, u64>;

    closed spec fn view(&self) -> Map<Seq<char>, u64> {
        self.sent@
    }
}

impl Progress {
    #[verifier::type_invariant]
    spec fn inv(&self) -> bool {
        self.sent.wf()
    }
}

impl Duplicate for Progress {
    fn duplicate(&self) -> (r: Self) {
        proof {
            use_type_invariant(self);
        }
        Progress { sent: self.sent.duplicate() }
    }
}

/// Per-key logs described by the retained payloads and the selection progress.
spec fn combined_keys<V>(
    d: Map<Seq<char>, (u64, Seq<Option<V>>)>,
    p: Map<Seq<char>, Map<Seq<char>, u64>>,
) -> Map<Seq<char>, KeyLogView<V>> {
    Map::new(
        |k: Seq<char>| d.contains_key(k),
        |k: Seq<char>|
            KeyLogView {
                version: d[k].0,
                deltas: d[k].1,
                sent: psent(p, k),
            },
    )
}

/// Progress recorded for key `k`, empty when none was.
pub open spec fn psent(p: Map<Seq<char>, Map<Seq<char>, u64>>, k: Seq<char>) -> Map<Seq<char>, u64> {
    if p.contains_key(k) {
        p[k]
    } else {
        Map::empty()
    }
}

/// Progress kept only for replicas in `live`.
fn retain_live(sent: &SortedMap<ReplicaId, u64>, live: &SortedSet<ReplicaId>) -> (r: SortedMap<
    ReplicaId,
    u64,
>)
    requires
        sent.wf(),
        live.wf(),
    ensures
        r.wf(),
        r@ == sent@.restrict(live@),
{
    let mut out: SortedMap<ReplicaId, u64> = SortedMap::new();
    let n = sent.len();
    let mut j: usize = 0;
    proof {
        sent.lemma_wf();
        lemma_prefix_map_ends(sent.key_seq(), sent.value_seq());
        assert(out@ =~= prefix_map(sent.key_seq(), sent.value_seq(), 0).restrict(live@));
    }
    while j < n
        invariant
            sent.wf(),
            live.wf(),
            out.wf(),
            n == sent.key_seq().len(),
            n == sent.value_seq().len(),
            strictly_sorted(sent.key_seq()),
            j <= n,
            out@ == prefix_map(sent.key_seq(), sent.value_seq(), j as int).restrict(live@),
        decreases n - j,
    {
        proof {
            lemma_prefix_map_step(sent.key_seq(), sent.value_seq(), j as int);
        }
        let node = sent.key_at(j);
        if live.contains(node.as_str()) {
            out.insert(node.duplicate(), *sent.value_at(j));
        }
        proof {
            assert(out@ =~= prefix_map(sent.key_seq(), sent.value_seq(), j as int + 1).restrict(
                live@,
            ));
        }
        j = j + 1;
    }
    proof {
        lemma_prefix_map_ends(sent.key_seq(), sent.value_seq());
    }
    out
}

/// Members of a replica list, as a set.
fn replica_set(nodes: &Vec<ReplicaId>) -> (r: SortedSet<ReplicaId>)
    ensures
        r.wf(),
        r@ == ids_view(nodes@).to_set(),
{
    let mut set: SortedSet<ReplicaId> = SortedSet::new();
    let n = nodes.len();
    let mut i: usize = 0;
    while i < n
        invariant
            n == nodes@.len(),
            i <= n,
            set.wf(),
            set@ == ids_view(nodes@).take(i as int).to_set(),
        decreases n - i,
    {
        set.insert(nodes[i].duplicate());
        proof {
            assert(ids_view(nodes@).take(i as int + 1) =~= ids_view(nodes@).take(i as int).push(
                nodes@[i as int]@,
            ));
            ids_view(nodes@).take(i as int).lemma_push_to_set_commute(nodes@[i as int]@);
        }
        i = i + 1;
    }
    proof {
        assert(ids_view(nodes@).take(n as int) =~= ids_view(nodes@));
    }
    set
}

/// Tracks versioned local deltas and per-replica propagation progress.
pub struct DeltaPropagationLog<D: Mergeable> {
    nodes: Vec<ReplicaId>,
    deltas: SortedMap<ReplicatorKey, KeyDeltas<D>>,
    progress: SortedMap<ReplicatorKey, Progress>,
    node_round_robin_counter: u64,
    propagation_count: u64,
    gossip_interval_divisor: usize,
    max_delta_versions: usize,
}

impl<D: Mergeable> View for DeltaPropagationLog<D> {
    type V = DeltaLogView<D::V>;

    closed spec fn view(&self) -> DeltaLogView<D::V> {
        DeltaLogView {
            nodes: ids_view(self.nodes@),
            keys: combined_keys(self.deltas@, self.progress@),
            counter: self.node_round_robin_counter,
            propagation_count: self.propagation_count,
            divisor: self.gossip_interval_divisor,
            max_delta_versions: self.max_delta_versions,
        }
    }
}

/// Entries selected for `node`, by key.
pub open spec fn node_entries<D: Mergeable>(v: DeltaLogView<D::V>, node: Seq<char>) -> Map<
    Seq<char>,
    (D::V, u64, u64),
> {
    Map::new(
        |k: Seq<char>|
            v.keys.contains_key(k) && entry_for::<D>(v.keys[k], node, v.max_delta_versions) is Some,
        |k: Seq<char>| entry_for::<D>(v.keys[k], node, v.max_delta_versions).unwrap(),
    )
}

/// Whether `node` has any entry to receive.
pub open spec fn node_has_entries<D: Mergeable>(v: DeltaLogView<D::V>, node: Seq<char>) -> bool {
    exists|k: Seq<char>|
        v.keys.contains_key(k) && #[trigger] entry_for::<D>(
            v.keys[k],
            node,
            v.max_delta_versions,
        ) is Some
}

/// Replicas selected on the next tick: all when few enough, else a slice
/// starting at the round-robin counter and wrapping around.
pub open spec fn selected<V>(v: DeltaLogView<V>) -> Seq<Seq<char>> {
    let n = v.nodes.len() as int;
    let size = slice_size(n, v.divisor as int);
    if n <= size {
        v.nodes
    } else {
        Seq::new(size as nat, |o: int| v.nodes[(v.counter as int % n + o) % n])
    }
}

/// Round-robin counter after a selection.
pub open spec fn counter_after<V>(v: DeltaLogView<V>) -> u64 {
    let n = v.nodes.len() as int;
    let size = slice_size(n, v.divisor as int);
    if n <= size {
        v.counter
    } else {
        (v.counter + size) as u64
    }
}

/// The log after one propagation collection.
pub open spec fn collected<V>(v: DeltaLogView<V>) -> DeltaLogView<V> {
    if v.nodes.len() == 0 {
        DeltaLogView { propagation_count: (v.propagation_count + 1) as u64, ..v }
    } else {
        DeltaLogView {
            keys: v.keys.map_values(|kl: KeyLogView<V>| advanced(kl, selected(v))),
            counter: counter_after(v),
            propagation_count: (v.propagation_count + 1) as u64,
            ..v
        }
    }
}

/// Propagations produced by one collection, by target replica.
pub open spec fn propagations<D: Mergeable>(v: DeltaLogView<D::V>) -> Map<
    Seq<char>,
    Map<Seq<char>, (D::V, u64, u64)>,
> {
    if v.nodes.len() == 0 {
        Map::empty()
    } else {
        Map::new(
            |n: Seq<char>| selected(v).contains(n) && node_has_entries::<D>(v, n),
            |n: Seq<char>| node_entries::<D>(v, n),
        )
    }
}

/// The log after `t` consecutive collections.
pub open spec fn collected_times<V>(v: DeltaLogView<V>, t: nat) -> DeltaLogView<V>
    decreases t,
{
    if t == 0 {
        v
    } else {
        collected(collected_times(v, (t - 1) as nat))
    }
}

/// Consecutive collections keep the targets and advance the round-robin
/// counter by one slice each, while it does not wrap.
proof fn lemma_collected_times_counter<V>(v: DeltaLogView<V>, t: nat)
    requires
        v.nodes.len() > slice_size(v.nodes.len() as int, v.divisor as int),
        v.counter + t * slice_size(v.nodes.len() as int, v.divisor as int) <= u64::MAX,
    ensures
        collected_times(v, t).nodes == v.nodes,
        collected_times(v, t).divisor == v.divisor,
        collected_times(v, t).counter == v.counter + t * slice_size(
            v.nodes.len() as int,
            v.divisor as int,
        ),
    decreases t,
{
    let size = slice_size(v.nodes.len() as int, v.divisor as int);
    if t > 0 {
        assert((t - 1) * size + size == t * size) by (nonlinear_arith);
        assert(0 <= (t - 1) * size) by (nonlinear_arith)
            requires
                t >= 1,
                size >= 0,
        ;
        lemma_collected_times_counter(v, (t - 1) as nat);
        let w = collected_times(v, (t - 1) as nat);
        assert(collected_times(v, t) == collected(w));
        assert(w.nodes.len() > size);
        assert(w.counter + size <= u64::MAX);
        assert(counter_after(w) == w.counter + size);
        assert(collected(w).counter == counter_after(w));
        assert(collected_times(v, t).counter == w.counter + size);
    } else {
        assert(t * size == 0) by (nonlinear_arith)
            requires
                t == 0,
        ;
    }
}

/// Slices of `size` consecutive positions starting at `c`, `c + size`, ...
/// reach position `j` of a ring of `n` within `n` steps.
proof fn lemma_ring_reach(c: int, n: int, size: int, j: int) -> (r: (int, int))
    requires
        0 <= c,
        1 <= size < n,
        0 <= j < n,
    ensures
        0 <= r.0 < n,
        0 <= r.1 < size,
        ((c + r.0 * size) % n + r.1) % n == j,
{
    let a = j - c % n + n;
    vstd::arithmetic::div_mod::lemma_mod_bound(c, n);
    let rr = a % n;
    vstd::arithmetic::div_mod::lemma_mod_bound(a, n);
    let t = rr / size;
    let o = rr % size;
    vstd::arithmetic::div_mod::lemma_fundamental_div_mod(rr, size);
    vstd::arithmetic::div_mod::lemma_mod_bound(rr, size);
    vstd::arithmetic::div_mod::lemma_div_pos_is_pos(rr, size);
    vstd::arithmetic::div_mod::lemma_div_is_ordered_by_denominator(rr, 1, size);
    assert(rr / 1 == rr);
    assert(t * size == size * t) by (nonlinear_arith);
    assert(c + t * size + o == c + rr);
    vstd::arithmetic::div_mod::lemma_small_mod(o as nat, n as nat);
    vstd::arithmetic::div_mod::lemma_add_mod_noop(c + t * size, o, n);
    vstd::arithmetic::div_mod::lemma_add_mod_noop_right(c, a, n);
    vstd::arithmetic::div_mod::lemma_fundamental_div_mod(c, n);
    assert(c + a == n * (c / n + 1) + j) by (nonlinear_arith)
        requires
            c == n * (c / n) + c % n,
            a == j - c % n + n,
    ;
    vstd::arithmetic::div_mod::lemma_mod_multiples_vanish(c / n + 1, j, n);
    vstd::arithmetic::div_mod::lemma_small_mod(j as nat, n as nat);
    (t, o)
}

/// Round-robin fairness: every target replica is selected by one of the
/// next `n` collections, `n` being the number of targets, as long as the
/// round-robin counter does not wrap.
pub proof fn lemma_selection_reaches_every_node<V>(v: DeltaLogView<V>, j: int)
    requires
        0 <= j < v.nodes.len(),
        v.counter + v.nodes.len() * MAX_NODE_SLICE_SIZE <= u64::MAX,
    ensures
        exists|t: nat| t < v.nodes.len() && #[trigger] selected(collected_times(v, t)).contains(v.nodes[j]),
{
    let n = v.nodes.len() as int;
    let size = slice_size(n, v.divisor as int);
    if n <= size {
        assert(collected_times(v, 0) == v);
        assert(selected(v)[j] == v.nodes[j]);
        assert(selected(collected_times(v, 0)).contains(v.nodes[j]));
    } else {
        assert(size >= 1);
        let (t, o) = lemma_ring_reach(v.counter as int, n, size, j);
        assert(t * size <= n * MAX_NODE_SLICE_SIZE) by (nonlinear_arith)
            requires
                0 <= t < n,
                0 <= size <= MAX_NODE_SLICE_SIZE,
        ;
        lemma_collected_times_counter(v, t as nat);
        let w = collected_times(v, t as nat);
        assert(selected(w)[o] == v.nodes[j]);
        assert(selected(w).contains(v.nodes[j]));
    }
}

/// Rotating an index within `n` positions wraps once at most.
proof fn lemma_rotate(s: int, o: int, n: int)
    requires
        0 <= s < n,
        0 <= o < n,
    ensures
        (s + o) % n == if s + o < n {
            s + o
        } else {
            s + o - n
        },
{
    if s + o < n {
        vstd::arithmetic::div_mod::lemma_small_mod((s + o) as nat, n as nat);
    } else {
        vstd::arithmetic::div_mod::lemma_fundamental_div_mod_converse(s + o, n, 1, s + o - n);
    }
}

/// A selection never names a replica twice.
proof fn lemma_selected_distinct<V>(v: DeltaLogView<V>)
    requires
        strictly_sorted(v.nodes),
    ensures
        selected(v).no_duplicates(),
        forall|i: int| 0 <= i < selected(v).len() ==> v.nodes.contains(#[trigger] selected(v)[i]),
{
    lemma_sorted_no_duplicates(v.nodes);
    let n = v.nodes.len() as int;
    let size = slice_size(n, v.divisor as int);
    if n > size {
        let s = v.counter as int % n;
        assert(0 <= s < n) by {
            vstd::arithmetic::div_mod::lemma_mod_bound(v.counter as int, n);
        }
        assert forall|a: int, b: int|
            0 <= a < selected(v).len() && 0 <= b < selected(v).len() && a != b implies selected(
            v,
        )[a] != selected(v)[b] by {
            lemma_rotate(s, a, n);
            lemma_rotate(s, b, n);
        }
        assert forall|i: int| 0 <= i < selected(v).len() implies v.nodes.contains(
            #[trigger] selected(v)[i],
        ) by {
            lemma_rotate(s, i, n);
        }
    }
}

/// Progress of a replica outside the selection is untouched.
proof fn lemma_advanced_outside<V>(kl: KeyLogView<V>, sel: Seq<Seq<char>>, x: Seq<char>)
    requires
        !sel.contains(x),
    ensures
        sent_of(advanced(kl, sel), x) == sent_of(kl, x),
{
}

/// Advancing one more replica updates only that replica's progress.
proof fn lemma_advanced_push<V>(kl: KeyLogView<V>, sel: Seq<Seq<char>>, x: Seq<char>)
    requires
        !sel.contains(x),
    ensures
        advanced(kl, sel.push(x)) == if unsent_after(kl, sent_of(kl, x) as int).len() > 0 {
            KeyLogView { sent: advanced(kl, sel).sent.insert(x, kl.version), ..advanced(kl, sel) }
        } else {
            advanced(kl, sel)
        },
{
    assert forall|n: Seq<char>| sel.push(x).contains(n) <==> (sel.contains(n) || n == x) by {
        if sel.push(x).contains(n) {
            let p = choose|p: int| 0 <= p < sel.push(x).len() && sel.push(x)[p] == n;
            if p < sel.len() {
                assert(sel[p] == n);
            }
        }
        if sel.contains(n) {
            let p = choose|p: int| 0 <= p < sel.len() && sel[p] == n;
            assert(sel.push(x)[p] == n);
        }
        if n == x {
            assert(sel.push(x)[sel.len() as int] == n);
        }
    }
    if unsent_after(kl, sent_of(kl, x) as int).len() > 0 {
        assert(advanced(kl, sel.push(x)).sent =~= advanced(kl, sel).sent.insert(x, kl.version));
    } else {
        assert(advanced(kl, sel.push(x)).sent =~= advanced(kl, sel).sent);
    }
}

/// Advancing no replica changes nothing.
proof fn lemma_advanced_none<V>(kl: KeyLogView<V>)
    ensures
        advanced(kl, Seq::empty()) == kl,
{
    assert(advanced(kl, Seq::empty()).sent =~= kl.sent);
}

/// Appending to a group extends its fold by one step.
proof fn lemma_merged_group_push<D: Mergeable>(s: Seq<Option<D::V>>, x: Option<D::V>)
    requires
        s.len() >= 1,
    ensures
        merged_group::<D>(s.push(x)) == match (merged_group::<D>(s), x) {
            (Some(a), Some(b)) => Some(D::merged(a, b)),
            _ => None,
        },
{
    assert(s.push(x).drop_last() =~= s);
}

/// A group whose prefix has no value has no value.
proof fn lemma_merged_group_none<D: Mergeable>(t: Seq<Option<D::V>>, m: int)
    requires
        1 <= m <= t.len(),
        merged_group::<D>(t.take(m)) is None,
    ensures
        merged_group::<D>(t) is None,
    decreases t.len() - m,
{
    if m == t.len() {
        assert(t.take(m) =~= t);
    } else {
        assert(t.take(m + 1) =~= t.take(m).push(t[m]));
        lemma_merged_group_push::<D>(t.take(m), t[m]);
        lemma_merged_group_none::<D>(t, m + 1);
    }
}

/// Number of replicas selected on one tick among `all_nodes_size`.
fn node_slice_size(all_nodes_size: usize, divisor: usize) -> (r: usize)
    ensures
        r == slice_size(all_nodes_size as int, divisor as int),
        r <= MAX_NODE_SLICE_SIZE,
        r <= all_nodes_size,
{
    let d = if divisor < 1 {
        1
    } else {
        divisor
    };
    let q = all_nodes_size / d;
    let low = if q >= MAX_NODE_SLICE_SIZE {
        MAX_NODE_SLICE_SIZE
    } else if q + 1 < MIN_NODE_SLICE_SIZE {
        MIN_NODE_SLICE_SIZE
    } else {
        q + 1
    };
    let cap = if all_nodes_size < MAX_NODE_SLICE_SIZE {
        all_nodes_size
    } else {
        MAX_NODE_SLICE_SIZE
    };
    if low < cap {
        low
    } else {
        cap
    }
}

/// Merges the payloads from position `start` on; none when the range holds
/// `max_delta_versions` versions or more, or any payload is missing.
fn merge_delta_group<D: Mergeable>(entries: &Vec<Option<D>>, start: usize, max_delta_versions: usize) -> (r:
    Option<D>)
    requires
        start < entries@.len(),
    ensures
        opt_view(r) == group_delta::<D>(deltas_view(entries@).skip(start as int), max_delta_versions),
{
    let ghost s = deltas_view(entries@).skip(start as int);
    let n = entries.len();
    if n - start >= max_delta_versions {
        return None;
    }
    let first = match &entries[start] {
        Some(d) => d.duplicate(),
        None => {
            proof {
                assert(s.take(1) =~= seq![s[0]]);
                lemma_merged_group_none::<D>(s, 1);
            }
            return None;
        },
    };
    let mut acc = first;
    proof {
        assert(s.take(1) =~= seq![s[0]]);
    }
    let mut i: usize = start + 1;
    while i < n
        invariant
            n == entries@.len(),
            start < i <= n,
            s == deltas_view(entries@).skip(start as int),
            n - start < max_delta_versions,
            Some(acc@) == merged_group::<D>(s.take(i - start)),
        decreases n - i,
    {
        proof {
            assert(s.take(i - start + 1) =~= s.take(i - start).push(s[i - start]));
            lemma_merged_group_push::<D>(s.take(i - start), s[i - start]);
        }
        match &entries[i] {
            Some(d) => {
                acc = acc.merge(d);
            },
            None => {
                proof {
                    lemma_merged_group_none::<D>(s, i - start + 1);
                }
                return None;
            },
        }
        i = i + 1;
    }
    proof {
        assert(s.take(n - start) =~= s);
    }
    Some(acc)
}

/// Smallest version recorded for `key` that every replica of `nodes` has been
/// sent, zero when a replica has none.
fn smallest_version_propagated_to_all(
    progress: &SortedMap<ReplicatorKey, Progress>,
    key: &str,
    nodes: &Vec<ReplicaId>,
) -> (r: u64)
    requires
        progress.wf(),
    ensures
        r == min_sent(psent(progress@, key@), ids_view(nodes@)),
{
    let ghost nv = ids_view(nodes@);
    let p = match progress.get(key) {
        Some(p) => p,
        None => {
            return 0;
        },
    };
    proof {
        use_type_invariant(p);
        p.sent.lemma_wf();
    }
    let sent = &p.sent;
    let ghost sm = sent@;
    if sent.is_empty() {
        return 0;
    }
    let count = nodes.len();
    let mut i: usize = 0;
    while i < count
        invariant
            count == nodes@.len(),
            i <= count,
            sent.wf(),
            sm == sent@,
            sm == psent(progress@, key@),
            nv == ids_view(nodes@),
            forall|j: int| 0 <= j < i ==> sm.contains_key(#[trigger] nv[j]),
        decreases count - i,
    {
        if !sent.contains_key(nodes[i].as_str()) {
            proof {
                assert(!sm.contains_key(nv[i as int]));
                assert(sm == psent(progress@, key@));
                assert(exists|q: int| 0 <= q < nv.len() && !sm.contains_key(#[trigger] nv[q]));
            }
            return 0;
        }
        i = i + 1;
    }
    let n = sent.len();
    let ghost ks = sent.key_seq();
    let ghost vs = sent.value_seq();
    let mut least = *sent.value_at(0);
    let mut pos: usize = 0;
    let mut j: usize = 1;
    while j < n
        invariant
            sent.wf(),
            sm == sent@,
            sm == psent(progress@, key@),
            nv == ids_view(nodes@),
            forall|q: int| 0 <= q < nv.len() ==> sm.contains_key(#[trigger] nv[q]),
            ks == sent.key_seq(),
            vs == sent.value_seq(),
            n == ks.len(),
            n == vs.len(),
            1 <= j <= n,
            pos < j,
            least == vs[pos as int],
            forall|q: int| 0 <= q < j ==> least <= #[trigger] vs[q],
        decreases n - j,
    {
        let v = *sent.value_at(j);
        if v < least {
            least = v;
            pos = j;
        }
        j = j + 1;
    }
    proof {
        assert(sm.contains_key(ks[pos as int]) && sm[ks[pos as int]] == least);
        assert(sm.contains_value(least));
        assert forall|x: Seq<char>| #[trigger] sm.contains_key(x) implies least <= sm[x] by {
            let q = pos_of(ks, x);
            assert(ks.contains(x));
            assert(0 <= q < ks.len());
            lemma_sorted_pos(ks, q);
            assert(sm[ks[q]] == vs[q]);
        }
        assert(!(sm == Map::<Seq<char>, u64>::empty())) by {
            assert(sm.contains_key(ks[pos as int]));
        }
        let c = choose|m: u64|
            sm.contains_value(m) && forall|x: Seq<char>| #[trigger] sm.contains_key(x) ==> m <= sm[x];
        assert(sm.contains_value(c) && forall|x: Seq<char>| #[trigger] sm.contains_key(x) ==> c <= sm[x]);
        let xc = choose|x: Seq<char>| sm.contains_key(x) && sm[x] == c;
        assert(least <= sm[xc]);
        assert(c <= sm[ks[pos as int]]);
    }
    least
}

/// Last version recorded in `progress` for `node` under `key`, zero when none.
fn progress_sent(progress: &SortedMap<ReplicatorKey, Progress>, key: &str, node: &str) -> (r: u64)
    requires
        progress.wf(),
    ensures
        r == (if psent(progress@, key@).contains_key(node@) {
            psent(progress@, key@)[node@]
        } else {
            0
        }),
{
    match progress.get(key) {
        Some(p) => {
            proof {
                use_type_invariant(p);
            }
            match p.sent.get(node) {
                Some(v) => *v,
                None => 0,
            }
        },
        None => 0,
    }
}

/// Smallest version selected for every replica of `nodes`; zero when some
/// replica has no progress or none is recorded.
pub open spec fn min_sent(sent: Map<Seq<char>, u64>, nodes: Seq<Seq<char>>) -> u64 {
    if sent == Map::<Seq<char>, u64>::empty() || exists|i: int|
        0 <= i < nodes.len() && !sent.contains_key(#[trigger] nodes[i]) {
        0
    } else {
        choose|m: u64|
            sent.contains_value(m) && forall|n: Seq<char>| #[trigger]
                sent.contains_key(n) ==> m <= sent[n]
    }
}

/// The log after dropping every version that each target replica has been sent.
pub open spec fn cleaned<V>(v: DeltaLogView<V>) -> DeltaLogView<V> {
    DeltaLogView {
        keys: v.keys.map_values(
            |kl: KeyLogView<V>|
                KeyLogView {
                    deltas: if v.nodes.len() == 0 {
                        Seq::empty()
                    } else {
                        unsent_after(kl, min_sent(kl.sent, v.nodes) as int)
                    },
                    ..kl
                },
        ),
        ..v
    }
}

/// Validity of an abstract log.
pub open spec fn log_valid<V>(v: DeltaLogView<V>) -> bool {
    &&& strictly_sorted(v.nodes)
    &&& v.divisor >= 1
    &&& v.max_delta_versions >= 1
    &&& forall|k: Seq<char>| #[trigger]
        v.keys.contains_key(k) ==> v.keys[k].deltas.len() <= v.keys[k].version
}

/// Sorts and deduplicates replica identities.
fn sorted_unique_nodes(nodes: Vec<ReplicaId>) -> (r: Vec<ReplicaId>)
    ensures
        ids_view(r@) == sorted_keys(ids_view(nodes@).to_set()),
        strictly_sorted(ids_view(r@)),
{
    let set = replica_set(&nodes);
    let r = set.to_vec();
    proof {
        set.lemma_wf();
        assert(ids_view(r@) =~= set.key_seq());
        lemma_sorted_keys_of(set.key_seq());
    }
    r
}

impl<D: Mergeable> DeltaPropagationLog<D> {
    #[verifier::type_invariant]
    spec fn inv(&self) -> bool {
        &&& self.deltas.wf()
        &&& self.progress.wf()
        &&& self.progress@.dom().subset_of(self.deltas@.dom())
        &&& strictly_sorted(ids_view(self.nodes@))
        &&& self.gossip_interval_divisor >= 1
        &&& self.max_delta_versions >= 1
        &&& forall|k: Seq<char>| #[trigger]
            self.deltas@.contains_key(k) ==> self.deltas@[k].1.len() <= self.deltas@[k].0
    }

    /// The abstract log is valid.
    proof fn lemma_valid(&self)
        requires
            self.inv(),
        ensures
            log_valid(self@),
    {
        assert forall|k: Seq<char>| #[trigger]
            self@.keys.contains_key(k) implies self@.keys[k].deltas.len() <= self@.keys[k].version by {
            assert(self.deltas@.contains_key(k));
        }
    }

    /// Creates a log targeting the sorted, deduplicated set of `nodes`.
    pub fn new(nodes: Vec<ReplicaId>) -> (r: Self)
        ensures
            r@ == (DeltaLogView::<D::V> {
                nodes: sorted_keys(ids_view(nodes@).to_set()),
                keys: Map::empty(),
                counter: 0,
                propagation_count: 0,
                divisor: DEFAULT_GOSSIP_INTERVAL_DIVISOR,
                max_delta_versions: usize::MAX,
            }),
    {
        let sorted = sorted_unique_nodes(nodes);
        let r = DeltaPropagationLog {
            nodes: sorted,
            deltas: SortedMap::new(),
            progress: SortedMap::new(),
            node_round_robin_counter: 0,
            propagation_count: 0,
            gossip_interval_divisor: DEFAULT_GOSSIP_INTERVAL_DIVISOR,
            max_delta_versions: usize::MAX,
        };
        proof {
            assert(r@.keys =~= Map::<Seq<char>, KeyLogView<D::V>>::empty());
        }
        r
    }

    /// Sets the divisor used to choose a peer slice on each tick, at least one.
    pub fn with_gossip_interval_divisor(self, divisor: usize) -> (r: Self)
        ensures
            r@ == (DeltaLogView {
                divisor: if divisor < 1 {
                    1
                } else {
                    divisor
                },
                ..self@
            }),
    {
        proof {
            use_type_invariant(&self);
        }
        let mut log = self;
        log.gossip_interval_divisor = if divisor < 1 {
            1
        } else {
            divisor
        };
        log
    }

    /// Sets the version count, at least one, at which a range loses its payload.
    pub fn with_max_delta_versions(self, max_delta_versions: usize) -> (r: Self)
        ensures
            r@ == (DeltaLogView {
                max_delta_versions: if max_delta_versions < 1 {
                    1
                } else {
                    max_delta_versions
                },
                ..self@
            }),
    {
        proof {
            use_type_invariant(&self);
        }
        let mut log = self;
        log.max_delta_versions = if max_delta_versions < 1 {
            1
        } else {
            max_delta_versions
        };
        log
    }

    /// Replaces target replicas with a sorted, deduplicated set; progress of
    /// replicas no longer present is discarded.
    pub fn set_nodes(&mut self, nodes: Vec<ReplicaId>)
        ensures
            final(self)@ == (DeltaLogView {
                nodes: sorted_keys(ids_view(nodes@).to_set()),
                keys: old(self)@.keys.map_values(
                    |kl: KeyLogView<D::V>|
                        KeyLogView { sent: kl.sent.restrict(ids_view(nodes@).to_set()), ..kl },
                ),
                ..old(self)@
            }),
    {
        proof {
            use_type_invariant(&*self);
        }
        let ghost old_view = self@;
        let ghost live_set = ids_view(nodes@).to_set();
        let live = replica_set(&nodes);
        let sorted = sorted_unique_nodes(nodes);
        let mut progress = SortedMap::new();
        std::mem::swap(&mut progress, &mut self.progress);
        let ghost ks = progress.key_seq();
        let ghost vs = progress.value_seq();
        let ghost old_p = progress@;
        let ghost g = |p: Map<Seq<char>, u64>| p.restrict(live_set);
        proof {
            progress.lemma_wf();
        }
        let n = progress.len();
        let mut i: usize = 0;
        while i < n
            invariant
                live.wf(),
                live@ == live_set,
                g == (|p: Map<Seq<char>, u64>| p.restrict(live_set)),
                progress.wf(),
                progress.key_seq() == ks,
                n == ks.len(),
                n == vs.len(),
                progress.value_seq().len() == n,
                i <= n,
                forall|j: int|
                    0 <= j < n ==> #[trigger] progress.value_seq()[j] == if j < i {
                        g(vs[j])
                    } else {
                        vs[j]
                    },
            decreases n - i,
        {
            let p = progress.value_at(i);
            proof {
                use_type_invariant(p);
            }
            let sent = retain_live(&p.sent, &live);
            let np = Progress { sent };
            progress.set_value_at(i, np);
            i = i + 1;
        }
        proof {
            lemma_pairs_map_values(ks, vs, progress.value_seq(), g);
        }
        self.nodes = sorted;
        self.progress = progress;
        proof {
            assert(self@.keys =~= old_view.keys.map_values(
                |kl: KeyLogView<D::V>| KeyLogView { sent: kl.sent.restrict(live_set), ..kl },
            )) by {
                assert forall|k: Seq<char>| #[trigger] self@.keys.contains_key(k) implies self@.keys[k]
                    == KeyLogView {
                    sent: old_view.keys[k].sent.restrict(live_set),
                    ..old_view.keys[k]
                } by {
                    if !old_p.contains_key(k) {
                        assert(Map::<Seq<char>, u64>::empty().restrict(live_set) =~= Map::empty());
                    }
                }
            }
        }
    }

    /// Target replicas in ascending identifier order.
    pub fn nodes(&self) -> (r: &[ReplicaId])
        ensures
            ids_view(r@) == self@.nodes,
    {
        self.nodes.as_slice()
    }

    /// The latest local version for `key`, or zero if it is unknown.
    pub fn current_version(&self, key: &ReplicatorKey) -> (r: u64)
        ensures
            r == version_of(self@, key@),
    {
        proof {
            use_type_invariant(self);
        }
        match self.deltas.get(key.as_str()) {
            Some(kd) => kd.version,
            None => 0,
        }
    }

    /// Number of propagation collections attempted.
    pub fn propagation_count(&self) -> (r: u64)
        ensures
            r == self@.propagation_count,
    {
        self.propagation_count
    }

    /// Whether `key` retains any version entries.
    pub fn has_delta_entries(&self, key: &ReplicatorKey) -> (r: bool)
        ensures
            r == (self@.keys.contains_key(key@) && self@.keys[key@].deltas.len() > 0),
    {
        proof {
            use_type_invariant(self);
        }
        match self.deltas.get(key.as_str()) {
            Some(kd) => kd.deltas.len() > 0,
            None => false,
        }
    }

    /// Advances `key` by one version and records its optional delta.
    ///
    /// `None` keeps the sequence but makes any unsent range holding it fall
    /// back to full-state gossip. Returns the assigned version.
    pub fn record_delta(&mut self, key: ReplicatorKey, delta: Option<D>) -> (r: u64)
        requires
            version_of(old(self)@, key@) < u64::MAX,
        ensures
            r == version_of(old(self)@, key@) + 1,
            final(self)@ == (DeltaLogView {
                keys: old(self)@.keys.insert(
                    key@,
                    KeyLogView {
                        version: r,
                        deltas: if old(self)@.keys.contains_key(key@) {
                            old(self)@.keys[key@].deltas
                        } else {
                            Seq::empty()
                        }.push(opt_view(delta)),
                        sent: if old(self)@.keys.contains_key(key@) {
                            old(self)@.keys[key@].sent
                        } else {
                            Map::empty()
                        },
                    },
                ),
                ..old(self)@
            }),
    {
        proof {
            use_type_invariant(&*self);
        }
        let ghost old_view = self@;
        let mut progress = SortedMap::new();
        std::mem::swap(&mut progress, &mut self.progress);
        let mut deltas = SortedMap::new();
        std::mem::swap(&mut deltas, &mut self.deltas);
        let ghost old_d = deltas@;
        let removed = deltas.remove(key.as_str());
        let (version, entries) = match removed {
            Some(kd) => {
                proof {
                    use_type_invariant(&kd);
                }
                let KeyDeltas { version, deltas: entries } = kd;
                (version + 1, entries)
            },
            None => (1, Vec::new()),
        };
        let ghost prev = entries@;
        assert(deltas_view(prev) =~= if old_d.contains_key(key@) {
            old_d[key@].1
        } else {
            Seq::empty()
        });
        assert(version == version_of(old_view, key@) + 1);
        let mut entries = entries;
        entries.push(delta);
        proof {
            lemma_deltas_push(prev, delta);
        }
        let kd = KeyDeltas { version, deltas: entries };
        deltas.insert(key, kd);
        proof {
            assert(deltas@ =~= old_d.insert(key@, kd@));
        }
        self.deltas = deltas;
        self.progress = progress;
        proof {
            assert(self@.keys =~= old_view.keys.insert(
                key@,
                KeyLogView {
                    version: version,
                    deltas: if old_view.keys.contains_key(key@) {
                        old_view.keys[key@].deltas
                    } else {
                        Seq::empty()
                    }.push(opt_view(delta)),
                    sent: if old_view.keys.contains_key(key@) {
                        old_view.keys[key@].sent
                    } else {
                        Map::empty()
                    },
                },
            ));
        }
        version
    }

    /// Forgets all versions, retained entries, and progress for `key`.
    pub fn delete_key(&mut self, key: &ReplicatorKey)
        ensures
            final(self)@ == (DeltaLogView { keys: old(self)@.keys.remove(key@), ..old(self)@ }),
    {
        proof {
            use_type_invariant(&*self);
        }
        let ghost old_view = self@;
        let mut deltas = SortedMap::new();
        let mut progress = SortedMap::new();
        std::mem::swap(&mut progress, &mut self.progress);
        std::mem::swap(&mut deltas, &mut self.deltas);
        deltas.remove(key.as_str());
        progress.remove(key.as_str());
        self.deltas = deltas;
        self.progress = progress;
        proof {
            assert(self@.keys =~= old_view.keys.remove(key@));
        }
    }

    /// Forgets propagation progress recorded for a removed replica.
    pub fn cleanup_removed_node(&mut self, node: &ReplicaId)
        ensures
            final(self)@ == (DeltaLogView {
                keys: old(self)@.keys.map_values(
                    |kl: KeyLogView<D::V>| KeyLogView { sent: kl.sent.remove(node@), ..kl },
                ),
                ..old(self)@
            }),
    {
        proof {
            use_type_invariant(&*self);
        }
        let ghost old_view = self@;
        let mut progress = SortedMap::new();
        std::mem::swap(&mut progress, &mut self.progress);
        let ghost ks = progress.key_seq();
        let ghost vs = progress.value_seq();
        let ghost old_p = progress@;
        let ghost g = |p: Map<Seq<char>, u64>| p.remove(node@);
        proof {
            progress.lemma_wf();
        }
        let n = progress.len();
        let mut i: usize = 0;
        while i < n
            invariant
                g == (|p: Map<Seq<char>, u64>| p.remove(node@)),
                progress.wf(),
                progress.key_seq() == ks,
                n == ks.len(),
                n == vs.len(),
                progress.value_seq().len() == n,
                i <= n,
                forall|j: int|
                    0 <= j < n ==> #[trigger] progress.value_seq()[j] == if j < i {
                        g(vs[j])
                    } else {
                        vs[j]
                    },
            decreases n - i,
        {
            let p = progress.value_at(i);
            proof {
                use_type_invariant(p);
            }
            let mut sent = p.sent.duplicate();
            sent.remove(node.as_str());
            let np = Progress { sent };
            progress.set_value_at(i, np);
            i = i + 1;
        }
        proof {
            lemma_pairs_map_values(ks, vs, progress.value_seq(), g);
        }
        self.progress = progress;
        proof {
            assert(self@.keys =~= old_view.keys.map_values(
                |kl: KeyLogView<D::V>| KeyLogView { sent: kl.sent.remove(node@), ..kl },
            )) by {
                assert forall|k: Seq<char>| #[trigger] self@.keys.contains_key(k) implies self@.keys[k]
                    == KeyLogView { sent: old_view.keys[k].sent.remove(node@), ..old_view.keys[k] } by {
                    if !old_p.contains_key(k) {
                        assert(Map::<Seq<char>, u64>::empty().remove(node@) =~= Map::empty());
                    }
                }
            }
        }
    }

    /// Selects the replicas of the next tick and advances the round-robin counter.
    fn selected_nodes(&mut self) -> (r: Vec<ReplicaId>)
        requires
            old(self)@.counter + MAX_NODE_SLICE_SIZE <= u64::MAX,
        ensures
            ids_view(r@) == selected(old(self)@),
            final(self)@ == (DeltaLogView { counter: counter_after(old(self)@), ..old(self)@ }),
    {
        proof {
            use_type_invariant(&*self);
        }
        let ghost v0 = self@;
        let n = self.nodes.len();
        let size = node_slice_size(n, self.gossip_interval_divisor);
        if n <= size {
            return copy_ids(&self.nodes);
        }
        let start = (self.node_round_robin_counter % (n as u64)) as usize;
        self.node_round_robin_counter = self.node_round_robin_counter + size as u64;
        let ghost sel = selected(v0);
        let mut out: Vec<ReplicaId> = Vec::new();
        let mut o: usize = 0;
        while o < size
            invariant
                n == self.nodes@.len(),
                n == v0.nodes.len(),
                v0.nodes == ids_view(self.nodes@),
                size == slice_size(n as int, v0.divisor as int),
                size < n,
                start == v0.counter as int % n as int,
                start < n,
                sel == selected(v0),
                sel.len() == size,
                o <= size,
                ids_view(out@) == sel.take(o as int),
            decreases size - o,
        {
            let idx = if o < n - start {
                start + o
            } else {
                o - (n - start)
            };
            proof {
                lemma_rotate(start as int, o as int, n as int);
            }
            let ghost prev = out@;
            let item = self.nodes[idx].duplicate();
            out.push(item);
            proof {
                lemma_ids_push(prev, item);
                assert(sel.take(o + 1) =~= sel.take(o as int).push(sel[o as int]));
            }
            o = o + 1;
        }
        proof {
            assert(sel.take(size as int) =~= sel);
        }
        out
    }

    /// Selects the next peer slice and advances its per-key sent versions.
    ///
    /// Unsent ranges are merged per key; a range with a missing payload, or
    /// with too many versions, is recorded as sent but carries no payload so
    /// that full-state gossip converges it. Nodes and keys come out in
    /// ascending order. The collection counter advances even when there are
    /// no nodes or payloads.
    #[verifier::loop_isolation(false)]
    pub fn collect_propagations(&mut self) -> (r: SortedMap<ReplicaId, DeltaPropagation<D>>)
        requires
            old(self)@.propagation_count < u64::MAX,
            old(self)@.counter + MAX_NODE_SLICE_SIZE <= u64::MAX,
        ensures
            r.wf(),
            r@ == propagations::<D>(old(self)@),
            final(self)@ == collected(old(self)@),
    {
        proof {
            use_type_invariant(&*self);
            self.lemma_valid();
        }
        let ghost v0 = self@;
        self.propagation_count = self.propagation_count + 1;
        let mut out: SortedMap<ReplicaId, DeltaPropagation<D>> = SortedMap::new();
        if self.nodes.len() == 0 {
            proof {
                assert(out@ =~= propagations::<D>(v0));
            }
            return out;
        }
        let targets = self.selected_nodes();
        let ghost sel = selected(v0);
        proof {
            use_type_invariant(&*self);
            lemma_selected_distinct(v0);
        }
        let mut progress = SortedMap::new();
        std::mem::swap(&mut progress, &mut self.progress);
        let ghost p0 = progress@;
        let ghost kseq = self.deltas.key_seq();
        let ghost d0 = self.deltas@;
        let ghost max = v0.max_delta_versions;
        proof {
            self.deltas.lemma_wf();
            assert forall|k: Seq<char>| #[trigger] d0.contains_key(k) implies psent(progress@, k)
                == advanced(v0.keys[k], sel.take(0)).sent by {
                assert(sel.take(0) =~= Seq::<Seq<char>>::empty());
                lemma_advanced_none(v0.keys[k]);
            }
            assert(out@ =~= Map::new(
                |n: Seq<char>| sel.take(0).contains(n) && node_has_entries::<D>(v0, n),
                |n: Seq<char>| node_entries::<D>(v0, n),
            ));
        }
        let nkeys = self.deltas.len();
        let m = targets.len();
        let mut j: usize = 0;
        while j < m
            invariant
                self.inv(),
                self.deltas@ == d0,
                self.deltas.key_seq() == kseq,
                self.max_delta_versions == max,
                ids_view(targets@) == sel,
                m == sel.len(),
                j <= m,
                progress.wf(),
                progress@.dom().subset_of(d0.dom()),
                forall|k: Seq<char>| #[trigger]
                    d0.contains_key(k) ==> psent(progress@, k) == advanced(
                        v0.keys[k],
                        sel.take(j as int),
                    ).sent,
                out.wf(),
                out@ == Map::new(
                    |n: Seq<char>| sel.take(j as int).contains(n) && node_has_entries::<D>(v0, n),
                    |n: Seq<char>| node_entries::<D>(v0, n),
                ),
            decreases m - j,
        {
            let node = &targets[j];
            let ghost nv = sel[j as int];
            proof {
                assert(node@ == nv);
                assert(!sel.take(j as int).contains(nv)) by {
                    if sel.take(j as int).contains(nv) {
                        let p = choose|p: int| 0 <= p < j && sel.take(j as int)[p] == nv;
                        assert(sel[p] == sel[j as int]);
                    }
                }
                assert(sel.take(j + 1) =~= sel.take(j as int).push(nv));
            }
            let mut entries: SortedMap<ReplicatorKey, DeltaPropagationEntry<D>> = SortedMap::new();
            let mut i: usize = 0;
            proof {
                assert(entries@ =~= Map::new(
                    |k: Seq<char>|
                        d0.contains_key(k) && pos_of(kseq, k) < 0 && entry_for::<D>(v0.keys[k], nv, max) is Some,
                    |k: Seq<char>| entry_for::<D>(v0.keys[k], nv, max).unwrap(),
                ));
            }
            while i < nkeys
                invariant
                    i <= nkeys,
                    progress.wf(),
                    progress@.dom().subset_of(d0.dom()),
                    forall|k: Seq<char>| #[trigger]
                        d0.contains_key(k) ==> psent(progress@, k) == if pos_of(kseq, k) < i {
                            advanced(v0.keys[k], sel.take(j + 1)).sent
                        } else {
                            advanced(v0.keys[k], sel.take(j as int)).sent
                        },
                    entries.wf(),
                    entries@ == Map::new(
                        |k: Seq<char>|
                            d0.contains_key(k) && pos_of(kseq, k) < i && entry_for::<D>(
                                v0.keys[k],
                                nv,
                                max,
                            ) is Some,
                        |k: Seq<char>| entry_for::<D>(v0.keys[k], nv, max).unwrap(),
                    ),
                decreases nkeys - i,
            {
                let key = self.deltas.key_at(i);
                let kd = self.deltas.value_at(i);
                let ghost k = kseq[i as int];
                let ghost kl = v0.keys[k];
                proof {
                    use_type_invariant(kd);
                    lemma_sorted_pos(kseq, i as int);
                    assert(d0.contains_key(k));
                    assert(kd@ == d0[k]);
                    lemma_advanced_outside(kl, sel.take(j as int), nv);
                    lemma_advanced_push(kl, sel.take(j as int), nv);
                }
                let sent = progress_sent(&progress, key.as_str(), node.as_str());
                assert(sent == sent_of(kl, nv));
                let len = kd.deltas.len();
                let version = kd.version;
                let base = version - len as u64;
                let start: usize = if sent <= base {
                    0
                } else if sent >= version {
                    len
                } else {
                    (sent - base) as usize
                };
                proof {
                    assert(deltas_view(kd.deltas@).skip(start as int) =~= unsent_after(kl, sent as int));
                }
                let ghost old_entries = entries@;
                let ghost old_progress = progress@;
                if start < len {
                    let merged = merge_delta_group(&kd.deltas, start, self.max_delta_versions);
                    let mut sent_map = match progress.get(key.as_str()) {
                        Some(p) => {
                            proof {
                                use_type_invariant(p);
                            }
                            p.sent.duplicate()
                        },
                        None => SortedMap::new(),
                    };
                    assert(sent_map@ == psent(progress@, k));
                    sent_map.insert(node.duplicate(), version);
                    progress.insert(key.duplicate(), Progress { sent: sent_map });
                    match merged {
                        Some(delta) => {
                            let from = version - (len - start) as u64 + 1;
                            let entry = DeltaPropagationEntry::new(delta, from, version);
                            entries.insert(key.duplicate(), entry);
                            proof {
                                assert(entry_for::<D>(kl, nv, max) == Some(entry@));
                                assert(entries@ =~= old_entries.insert(k, entry@));
                            }
                        },
                        None => {
                            proof {
                                assert(entry_for::<D>(kl, nv, max) is None);
                            }
                        },
                    }
                    proof {
                        assert(progress@ =~= old_progress.insert(k, psent(old_progress, k).insert(nv, version)));
                    }
                } else {
                    proof {
                        assert(entry_for::<D>(kl, nv, max) is None);
                    }
                }
                proof {
                    assert forall|k2: Seq<char>| #[trigger]
                        d0.contains_key(k2) implies psent(progress@, k2) == if pos_of(kseq, k2) < i + 1 {
                        advanced(v0.keys[k2], sel.take(j + 1)).sent
                    } else {
                        advanced(v0.keys[k2], sel.take(j as int)).sent
                    } by {
                        if k2 != k {
                            assert(pos_of(kseq, k2) != i);
                        }
                    }
                    assert(entries@ =~= Map::new(
                        |k2: Seq<char>|
                            d0.contains_key(k2) && pos_of(kseq, k2) < i + 1 && entry_for::<D>(
                                v0.keys[k2],
                                nv,
                                max,
                            ) is Some,
                        |k2: Seq<char>| entry_for::<D>(v0.keys[k2], nv, max).unwrap(),
                    )) by {
                        assert forall|k2: Seq<char>| #[trigger] d0.contains_key(k2) && k2 != k implies pos_of(kseq, k2) != i by {}
                    }
                }
                i = i + 1;
            }
            proof {
                assert forall|k: Seq<char>| #[trigger] d0.contains_key(k) implies pos_of(kseq, k) < nkeys by {
                    assert(kseq.contains(k));
                }
                assert(entries@ =~= node_entries::<D>(v0, nv));
            }
            let ghost old_out = out@;
            if !entries.is_empty() {
                proof {
                    assert(node_has_entries::<D>(v0, nv)) by {
                        if !node_has_entries::<D>(v0, nv) {
                            assert(entries@ =~= Map::empty());
                        }
                    }
                }
                out.insert(node.duplicate(), DeltaPropagation { entries, pruning: SortedMap::new() });
            } else {
                proof {
                    if node_has_entries::<D>(v0, nv) {
                        let k = choose|k: Seq<char>|
                            v0.keys.contains_key(k) && #[trigger] entry_for::<D>(
                                v0.keys[k],
                                nv,
                                max,
                            ) is Some;
                        assert(node_entries::<D>(v0, nv).contains_key(k));
                    }
                }
            }
            proof {
                assert forall|n: Seq<char>| #![auto] sel.take(j + 1).contains(n) <==> (sel.take(j as int).contains(n) || n == nv) by {
                    lemma_push_contains(sel.take(j as int), nv, n);
                }
                assert(out@ =~= Map::new(
                    |n: Seq<char>| sel.take(j + 1).contains(n) && node_has_entries::<D>(v0, n),
                    |n: Seq<char>| node_entries::<D>(v0, n),
                ));
            }
            j = j + 1;
        }
        proof {
            assert(sel.take(m as int) =~= sel);
        }
        self.progress = progress;
        proof {
            assert(self@.keys =~= v0.keys.map_values(|kl: KeyLogView<D::V>| advanced(kl, sel)));
            assert(out@ =~= propagations::<D>(v0));
        }
        out
    }

    /// Removes versions already selected for every current target replica.
    ///
    /// With no target replicas, all retained entries are cleared. Per-key
    /// version counters remain, so later updates keep their sequence.
    #[verifier::loop_isolation(false)]
    pub fn cleanup_delta_entries(&mut self)
        ensures
            final(self)@ == cleaned(old(self)@),
            propagations::<D>(final(self)@) == propagations::<D>(old(self)@),
    {
        proof {
            use_type_invariant(&*self);
            self.lemma_valid();
            lemma_cleanup_keeps_propagations::<D>(self@);
        }
        let ghost v0 = self@;
        let mut progress = SortedMap::new();
        std::mem::swap(&mut progress, &mut self.progress);
        let mut deltas = SortedMap::new();
        std::mem::swap(&mut deltas, &mut self.deltas);
        let ghost kseq = deltas.key_seq();
        let ghost d0 = deltas@;
        let ghost p0 = progress@;
        proof {
            deltas.lemma_wf();
        }
        let n = deltas.len();
        let no_nodes = self.nodes.len() == 0;
        let mut i: usize = 0;
        while i < n
            invariant
                deltas.wf(),
                deltas.key_seq() == kseq,
                i <= n,
                deltas@.dom() == d0.dom(),
                forall|k: Seq<char>| #[trigger]
                    deltas@.contains_key(k) ==> deltas@[k].1.len() <= deltas@[k].0,
                forall|k: Seq<char>| #[trigger]
                    d0.contains_key(k) ==> deltas@[k] == if pos_of(kseq, k) < i {
                        (d0[k].0, cleaned(v0).keys[k].deltas)
                    } else {
                        d0[k]
                    },
            decreases n - i,
        {
            let ghost k = kseq[i as int];
            proof {
                lemma_sorted_pos(kseq, i as int);
                assert(d0.contains_key(k));
            }
            let kd = deltas.value_at(i);
            proof {
                use_type_invariant(kd);
                assert(kd@ == d0[k]);
            }
            let len = kd.deltas.len();
            let version = kd.version;
            let start: usize = if no_nodes {
                len
            } else {
                let least = smallest_version_propagated_to_all(
                    &progress,
                    deltas.key_at(i).as_str(),
                    &self.nodes,
                );
                let base = version - len as u64;
                if least <= base {
                    0
                } else if least >= version {
                    len
                } else {
                    (least - base) as usize
                }
            };
            let kept = copy_deltas_from(&kd.deltas, start);
            proof {
                assert(deltas_view(kept@) =~= cleaned(v0).keys[k].deltas);
            }
            let nkd = KeyDeltas { version, deltas: kept };
            deltas.set_value_at(i, nkd);
            proof {
                assert forall|k2: Seq<char>| #[trigger] d0.contains_key(k2) && k2 != k implies pos_of(
                    kseq,
                    k2,
                ) != i by {}
            }
            i = i + 1;
        }
        proof {
            assert forall|k: Seq<char>| #[trigger] d0.contains_key(k) implies pos_of(kseq, k) < n by {
                assert(kseq.contains(k));
            }
        }
        self.deltas = deltas;
        self.progress = progress;
        proof {
            assert(self@.keys =~= cleaned(v0).keys);
        }
    }
}

impl<D: Mergeable> Default for DeltaPropagationLog<D> {
    fn default() -> (r: Self)
        ensures
            r@ == (DeltaLogView::<D::V> {
                nodes: Seq::empty(),
                keys: Map::empty(),
                counter: 0,
                propagation_count: 0,
                divisor: DEFAULT_GOSSIP_INTERVAL_DIVISOR,
                max_delta_versions: usize::MAX,
            }),
    {
        let none: Vec<ReplicaId> = Vec::new();
        proof {
            let e = Seq::<Seq<char>>::empty();
            assert(ids_view(none@) =~= e);
            assert(e.to_set() =~= ids_view(none@).to_set());
            lemma_sorted_keys_of(e);
        }
        Self::new(none)
    }
}


/// After a collection, every selected replica has been sent every retained
/// version of every key: nothing is pending for it, and a collection right
/// after would select no entry of that key for it.
pub proof fn lemma_collect_leaves_nothing_pending<D: Mergeable>(
    v: DeltaLogView<D::V>,
    k: Seq<char>,
    node: Seq<char>,
)
    requires
        v.nodes.len() > 0,
        selected(v).contains(node),
        v.keys.contains_key(k),
    ensures
        collected(v).keys.contains_key(k),
        unsent_after(collected(v).keys[k], sent_of(collected(v).keys[k], node) as int).len() == 0,
        entry_for::<D>(collected(v).keys[k], node, v.max_delta_versions) is None,
{
    let kl = v.keys[k];
    let kl2 = advanced(kl, selected(v));
    assert(collected(v).keys[k] == kl2);
    if unsent_after(kl, sent_of(kl, node) as int).len() > 0 {
        assert(kl2.sent.contains_key(node));
        assert(sent_of(kl2, node) == kl.version);
    } else if kl.sent.contains_key(node) {
        assert(kl2.sent[node] == kl.sent[node]);
    } else {
        assert(!kl2.sent.contains_key(node));
    }
}

/// A non-empty set of `u64` values has a least element.
proof fn lemma_min_value_exists(sent: Map<Seq<char>, u64>, x: u64)
    requires
        sent.contains_value(x),
    ensures
        exists|m: u64|
            sent.contains_value(m) && forall|n: Seq<char>| #[trigger]
                sent.contains_key(n) ==> m <= sent[n],
    decreases x,
{
    if exists|n: Seq<char>| sent.contains_key(n) && sent[n] < x {
        let n = choose|n: Seq<char>| sent.contains_key(n) && sent[n] < x;
        assert(sent.contains_value(sent[n]));
        lemma_min_value_exists(sent, sent[n]);
    } else {
        assert(forall|n: Seq<char>| #[trigger] sent.contains_key(n) ==> x <= sent[n]);
    }
}

/// The cleanup bound never exceeds a target replica's progress.
proof fn lemma_min_sent_below(sent: Map<Seq<char>, u64>, nodes: Seq<Seq<char>>, n: Seq<char>)
    requires
        nodes.contains(n),
    ensures
        min_sent(sent, nodes) <= (if sent.contains_key(n) {
            sent[n]
        } else {
            0
        }),
{
    if sent == Map::<Seq<char>, u64>::empty() || exists|i: int|
        0 <= i < nodes.len() && !sent.contains_key(#[trigger] nodes[i]) {
    } else {
        let i = choose|i: int| 0 <= i < nodes.len() && nodes[i] == n;
        assert(sent.contains_key(nodes[i]));
        assert(sent.contains_value(sent[n]));
        lemma_min_value_exists(sent, sent[n]);
    }
}

/// Dropping the versions before `m` keeps every range pending after `s >= m`.
proof fn lemma_trimmed_unsent<V>(kl: KeyLogView<V>, m: int, s: int)
    requires
        0 <= m <= s,
        kl.deltas.len() <= kl.version,
    ensures
        unsent_after(KeyLogView { deltas: unsent_after(kl, m), ..kl }, s) == unsent_after(kl, s),
{
    let t = KeyLogView { deltas: unsent_after(kl, m), ..kl };
    if m <= base_of(kl) {
        assert(t == kl);
    } else if m >= kl.version {
        assert(base_of(t) == kl.version);
    } else {
        assert(base_of(t) == m);
        if s < kl.version {
            assert(kl.deltas.skip(m - base_of(kl)).skip(s - m) =~= kl.deltas.skip(s - base_of(kl)));
        }
    }
}

/// A selected replica is one of the targets.
proof fn lemma_selected_is_target<V>(v: DeltaLogView<V>, n: Seq<char>)
    requires
        selected(v).contains(n),
    ensures
        v.nodes.contains(n),
{
    let len = v.nodes.len() as int;
    let size = slice_size(len, v.divisor as int);
    if len > size {
        let i = choose|i: int| 0 <= i < selected(v).len() && selected(v)[i] == n;
        let s = v.counter as int % len;
        assert(0 <= s < len) by {
            vstd::arithmetic::div_mod::lemma_mod_bound(v.counter as int, len);
        }
        lemma_rotate(s, i, len);
        assert(v.nodes[(s + i) % len] == n);
    }
}

/// Dropping the versions that every target replica has been sent changes
/// no later propagation: each target keeps its pending range of every key.
pub proof fn lemma_cleanup_keeps_propagations<D: Mergeable>(v: DeltaLogView<D::V>)
    requires
        log_valid(v),
    ensures
        propagations::<D>(cleaned(v)) == propagations::<D>(v),
{
    let c = cleaned(v);
    if v.nodes.len() > 0 {
        assert(selected(c) == selected(v));
        assert forall|n: Seq<char>, k: Seq<char>|
            #![trigger entry_for::<D>(c.keys[k], n, v.max_delta_versions)]
            #![trigger entry_for::<D>(v.keys[k], n, v.max_delta_versions)]
            selected(v).contains(n) && v.keys.contains_key(k) implies entry_for::<D>(
            c.keys[k],
            n,
            v.max_delta_versions,
        ) == entry_for::<D>(v.keys[k], n, v.max_delta_versions) by {
            let kl = v.keys[k];
            lemma_selected_is_target(v, n);
            lemma_min_sent_below(kl.sent, v.nodes, n);
            lemma_trimmed_unsent(kl, min_sent(kl.sent, v.nodes) as int, sent_of(kl, n) as int);
            assert(c.keys[k] == KeyLogView { deltas: unsent_after(kl, min_sent(kl.sent, v.nodes) as int), ..kl });
        }
        assert forall|n: Seq<char>| selected(v).contains(n) implies node_entries::<D>(c, n)
            =~= node_entries::<D>(v, n) && (node_has_entries::<D>(c, n) == node_has_entries::<D>(v, n)) by {
            if node_has_entries::<D>(v, n) {
                let k = choose|k: Seq<char>|
                    v.keys.contains_key(k) && #[trigger] entry_for::<D>(v.keys[k], n, v.max_delta_versions) is Some;
                assert(c.keys.contains_key(k));
                assert(entry_for::<D>(c.keys[k], n, c.max_delta_versions) is Some);
            }
            if node_has_entries::<D>(c, n) {
                let k = choose|k: Seq<char>|
                    c.keys.contains_key(k) && #[trigger] entry_for::<D>(c.keys[k], n, c.max_delta_versions) is Some;
                assert(v.keys.contains_key(k));
                assert(entry_for::<D>(v.keys[k], n, v.max_delta_versions) is Some);
            }
        }
        assert(propagations::<D>(c) =~= propagations::<D>(v));
    } else {
        assert(propagations::<D>(c) =~= propagations::<D>(v));
    }
}

} // verus!
