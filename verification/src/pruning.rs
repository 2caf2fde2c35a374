//! Removed-replica pruning metadata, dissemination tracking, and tick reports.
//!
//! Pruning waits on an all-reachable clock, disseminates an initialized marker,
//! transfers removed-replica state once every live peer has seen it, and retains
//! a performed marker long enough to suppress late data before expiry.
use vstd::prelude::*;

use crate::key::ReplicatorKey;
use crate::order::{key_lt, lemma_key_lt_facts, lemma_key_lt_transitive};
use crate::replica::ReplicaId;
use crate::sorted_map::{
    lemma_prefix_map_ends, lemma_prefix_map_step, prefix_map, strictly_sorted, Duplicate,
    SortedMap,
};
use crate::sorted_set::SortedSet;

verus! {

broadcast use lemma_key_lt_facts, lemma_key_lt_transitive;

/// Abstract pruning marker.
pub enum PState {
    /// Owner and the peers that observed the marker.
    Initialized(Seq<char>, Set<Seq<char>>),
    /// Inclusive obsolete deadline in Unix-epoch milliseconds.
    Performed(u64),
}

/// Abstract pruning table: markers by removed replica.
pub type PTable = Map<Seq<char>, PState>;

/// Deterministic merge of two markers.
pub open spec fn pstate_merged(a: PState, b: PState) -> PState {
    match (a, b) {
        (PState::Performed(x), PState::Performed(y)) => if x >= y {
            a
        } else {
            b
        },
        (PState::Performed(_), _) => a,
        (_, PState::Performed(_)) => b,
        (PState::Initialized(o1, s1), PState::Initialized(o2, s2)) => if o1 == o2 {
            PState::Initialized(o1, s1.union(s2))
        } else if key_lt(o1, o2) {
            a
        } else {
            b
        },
    }
}

/// Owner of an initialized marker.
pub open spec fn pstate_owner(a: PState) -> Seq<char> {
    match a {
        PState::Initialized(o, _) => o,
        PState::Performed(_) => Seq::empty(),
    }
}

/// Peers that observed an initialized marker.
pub open spec fn pstate_seen_by(a: PState) -> Set<Seq<char>> {
    match a {
        PState::Initialized(_, s) => s,
        PState::Performed(_) => Set::empty(),
    }
}

/// Marker after `node` observed it.
pub open spec fn pstate_seen(a: PState, node: Seq<char>) -> PState {
    match a {
        PState::Initialized(o, s) => if node == o {
            a
        } else {
            PState::Initialized(o, s.insert(node))
        },
        PState::Performed(_) => a,
    }
}

/// Performed marker whose deadline has passed.
pub open spec fn pstate_obsolete(a: PState, now: u64) -> bool {
    match a {
        PState::Performed(t) => t <= now,
        _ => false,
    }
}

/// Merge of two tables, entry by entry.
pub open spec fn ptable_merged(a: PTable, b: PTable) -> PTable {
    Map::new(
        |k: Seq<char>| a.contains_key(k) || b.contains_key(k),
        |k: Seq<char>|
            if a.contains_key(k) && b.contains_key(k) {
                pstate_merged(a[k], b[k])
            } else if a.contains_key(k) {
                a[k]
            } else {
                b[k]
            },
    )
}

/// Removed replicas whose performed markers are obsolete at `now`.
pub open spec fn ptable_obsolete(a: PTable, now: u64) -> Set<Seq<char>> {
    Set::new(|k: Seq<char>| a.contains_key(k) && pstate_obsolete(a[k], now))
}

/// Initialized entries owned by `owner` that every live replica has seen.
pub open spec fn ptable_ready(a: PTable, owner: Seq<char>, live: Set<Seq<char>>) -> Set<Seq<char>> {
    Set::new(
        |k: Seq<char>|
            a.contains_key(k) && match a[k] {
                PState::Initialized(o, s) => o == owner && forall|r: Seq<char>|
                    #[trigger] live.contains(r) ==> r == o || s.contains(r),
                PState::Performed(_) => false,
            },
    )
}

/// A replica performs only the pruning it owns: every removed replica
/// that `owner` may perform has an initialized marker owned by `owner` and
/// seen by every other live replica, and every such marker may be
/// performed; two different owners never both perform the same marker.
pub proof fn lemma_ready_markers_are_owned(
    t: PTable,
    owner: Seq<char>,
    other: Seq<char>,
    live: Set<Seq<char>>,
    removed: Seq<char>,
)
    ensures
        ptable_ready(t, owner, live).contains(removed) ==> {
            &&& t.contains_key(removed)
            &&& t[removed] is Initialized
            &&& t[removed]->Initialized_0 == owner
            &&& forall|r: Seq<char>|
                live.contains(r) && r != owner ==> #[trigger] t[removed]->Initialized_1.contains(r)
        },
        (t.contains_key(removed) && t[removed] is Initialized && t[removed]->Initialized_0 == owner
            && forall|r: Seq<char>|
            live.contains(r) && r != owner ==> #[trigger] t[removed]->Initialized_1.contains(r))
            ==> ptable_ready(t, owner, live).contains(removed),
        owner != other ==> !(ptable_ready(t, owner, live).contains(removed) && ptable_ready(
            t,
            other,
            live,
        ).contains(removed)),
{
    if ptable_ready(t, owner, live).contains(removed) {
        assert forall|r: Seq<char>|
            live.contains(r) && r != owner implies #[trigger] t[removed]->Initialized_1.contains(r) by {
            assert(live.contains(r));
        }
    }
    if t.contains_key(removed) && t[removed] is Initialized && t[removed]->Initialized_0 == owner
        && forall|r: Seq<char>|
        live.contains(r) && r != owner ==> #[trigger] t[removed]->Initialized_1.contains(r) {
        assert forall|r: Seq<char>| #[trigger] live.contains(r) implies r == owner
            || t[removed]->Initialized_1.contains(r) by {
            if r != owner {
                assert(t[removed]->Initialized_1.contains(r));
            }
        }
    }
}

/// Marker merge is commutative.
pub proof fn lemma_pstate_merge_commutative(a: PState, b: PState)
    ensures
        pstate_merged(a, b) == pstate_merged(b, a),
{
    match (a, b) {
        (PState::Initialized(o1, s1), PState::Initialized(o2, s2)) => {
            if o1 == o2 {
                assert(s1.union(s2) =~= s2.union(s1));
            } else {
                assert(key_lt(o1, o2) || key_lt(o2, o1));
            }
        },
        _ => {},
    }
}

/// Marker merge is associative.
pub proof fn lemma_pstate_merge_associative(a: PState, b: PState, c: PState)
    ensures
        pstate_merged(pstate_merged(a, b), c) == pstate_merged(a, pstate_merged(b, c)),
{
    match (a, b, c) {
        (PState::Initialized(o1, s1), PState::Initialized(o2, s2), PState::Initialized(o3, s3)) => {
            assert(s1.union(s2).union(s3) =~= s1.union(s2.union(s3)));
            if o1 != o2 {
                assert(key_lt(o1, o2) || key_lt(o2, o1));
            }
            if o2 != o3 {
                assert(key_lt(o2, o3) || key_lt(o3, o2));
            }
            if o1 != o3 {
                assert(key_lt(o1, o3) || key_lt(o3, o1));
            }
        },
        _ => {},
    }
}

/// Marker merge is idempotent.
pub proof fn lemma_pstate_merge_idempotent(a: PState)
    ensures
        pstate_merged(a, a) == a,
{
    match a {
        PState::Initialized(o, s) => {
            assert(s.union(s) =~= s);
        },
        _ => {},
    }
}

/// Table merge is commutative, associative and idempotent, so replicas that
/// exchange pruning tables in any order and grouping agree.
pub proof fn lemma_ptable_merge_laws(a: PTable, b: PTable, c: PTable)
    ensures
        ptable_merged(a, b) == ptable_merged(b, a),
        ptable_merged(ptable_merged(a, b), c) == ptable_merged(a, ptable_merged(b, c)),
        ptable_merged(a, a) == a,
{
    assert forall|k: Seq<char>| #![auto] a.contains_key(k) && b.contains_key(k) implies pstate_merged(
        a[k],
        b[k],
    ) == pstate_merged(b[k], a[k]) by {
        lemma_pstate_merge_commutative(a[k], b[k]);
    }
    assert(ptable_merged(a, b) =~= ptable_merged(b, a));
    assert forall|k: Seq<char>| #![auto] a.contains_key(k) && b.contains_key(k) && c.contains_key(k) implies pstate_merged(
        pstate_merged(a[k], b[k]),
        c[k],
    ) == pstate_merged(a[k], pstate_merged(b[k], c[k])) by {
        lemma_pstate_merge_associative(a[k], b[k], c[k]);
    }
    assert(ptable_merged(ptable_merged(a, b), c) =~= ptable_merged(a, ptable_merged(b, c)));
    assert forall|k: Seq<char>| #![auto] a.contains_key(k) implies pstate_merged(a[k], a[k]) == a[k] by {
        lemma_pstate_merge_idempotent(a[k]);
    }
    assert(ptable_merged(a, a) =~= a);
}

/// Completed-pruning marker retained until an inclusive wall-clock deadline.
#[derive(Debug, Clone, Copy, PartialEq, Eq)]
pub struct PruningPerformed {
    obsolete_at_millis: u64,
}

impl PruningPerformed {
    /// Creates a performed marker with an inclusive obsolete deadline.
    pub fn new(obsolete_at_millis: u64) -> (r: Self)
        ensures
            r.deadline() == obsolete_at_millis,
    {
        PruningPerformed { obsolete_at_millis }
    }

    /// The inclusive deadline.
    pub closed spec fn deadline(self) -> u64 {
        self.obsolete_at_millis
    }

    /// Returns the inclusive obsolete deadline in Unix-epoch milliseconds.
    pub fn obsolete_at_millis(self) -> (r: u64)
        ensures
            r == self.deadline(),
    {
        self.obsolete_at_millis
    }

    /// Reports whether the marker is obsolete at `now_millis`.
    pub fn is_obsolete(self, now_millis: u64) -> (r: bool)
        ensures
            r == (self.deadline() <= now_millis),
    {
        self.obsolete_at_millis <= now_millis
    }
}

/// Initialized pruning ownership and the live peers that have observed it.
#[derive(Debug, PartialEq, Eq)]
pub struct PruningInitialized {
    owner: ReplicaId,
    seen: SortedSet<ReplicaId>,
}

impl View for PruningInitialized {
    type V = PState;

    closed spec fn view(&self) -> PState {
        PState::Initialized(self.owner@, self.seen@)
    }
}

impl PruningInitialized {
    #[verifier::type_invariant]
    closed spec fn inv(&self) -> bool {
        &&& self.seen.wf()
        &&& !self.seen@.contains(self.owner@)
    }

    /// An initialized marker's abstract state is always initialized.
    pub proof fn lemma_is_initialized(&self)
        ensures
            self@ is Initialized,
    {
    }

    /// Creates initialized state with an empty seen set.
    pub fn new(owner: ReplicaId) -> (r: Self)
        ensures
            r@ == PState::Initialized(owner@, Set::empty()),
    {
        PruningInitialized { owner, seen: SortedSet::new() }
    }

    /// Returns the replica responsible for performing pruning.
    pub fn owner(&self) -> (r: &ReplicaId)
        ensures
            self@ matches PState::Initialized(o, _) && r@ == o,
    {
        &self.owner
    }

    /// Returns observed peers in deterministic replica order.
    pub fn seen(&self) -> (r: &SortedSet<ReplicaId>)
        ensures
            r.wf(),
            self@ matches PState::Initialized(_, s) && r@ == s,
    {
        proof {
            use_type_invariant(self);
        }
        &self.seen
    }

    /// Records `node` as having observed initialization; the owner and duplicates are ignored.
    pub fn add_seen(&self, node: ReplicaId) -> (r: Self)
        ensures
            r@ == pstate_seen(self@, node@),
    {
        proof {
            use_type_invariant(self);
        }
        if node == self.owner || self.seen.contains(node.as_str()) {
            proof {
                if self.seen@.contains(node@) {
                    assert(self.seen@.insert(node@) =~= self.seen@);
                }
            }
            return self.duplicate();
        }
        let mut seen = self.seen.duplicate();
        seen.insert(node);
        PruningInitialized { owner: self.owner.duplicate(), seen }
    }

    /// Reports whether every supplied live replica has observed initialization.
    pub fn is_seen_by_all(&self, live_replicas: &[ReplicaId]) -> (r: bool)
        ensures
            r == forall|i: int|
                0 <= i < live_replicas@.len() ==> #[trigger] live_replicas@[i]@ == pstate_owner(
                    self@,
                ) || pstate_seen_by(self@).contains(live_replicas@[i]@),
    {
        proof {
            use_type_invariant(self);
        }
        let n = live_replicas.len();
        let mut i: usize = 0;
        while i < n
            invariant
                self.seen.wf(),
                n == live_replicas@.len(),
                i <= n,
                forall|j: int|
                    0 <= j < i ==> #[trigger] live_replicas@[j]@ == self.owner@
                        || self.seen@.contains(live_replicas@[j]@),
            decreases n - i,
        {
            let replica = &live_replicas[i];
            if !(*replica == self.owner || self.seen.contains(replica.as_str())) {
                return false;
            }
            i = i + 1;
        }
        true
    }

    fn merge(&self, other: &Self) -> (r: Self)
        ensures
            r@ == pstate_merged(self@, other@),
    {
        proof {
            use_type_invariant(self);
            use_type_invariant(other);
        }
        if self.owner == other.owner {
            let seen = self.seen.union(&other.seen);
            return PruningInitialized { owner: self.owner.duplicate(), seen };
        }
        match crate::order::compare_str(self.owner.as_str(), other.owner.as_str()) {
            crate::order::KeyOrder::Less => self.duplicate(),
            _ => other.duplicate(),
        }
    }

    fn same_as(&self, other: &Self) -> (r: bool)
        ensures
            r == (self@ == other@),
    {
        proof {
            use_type_invariant(self);
            use_type_invariant(other);
        }
        self.owner == other.owner && self.seen.same_members(&other.seen)
    }

    pub fn duplicate(&self) -> (r: Self)
        ensures
            r@ == self@,
    {
        proof {
            use_type_invariant(self);
        }
        PruningInitialized { owner: self.owner.duplicate(), seen: self.seen.duplicate() }
    }
}

/// Disseminated lifecycle state for pruning one removed replica.
#[derive(Debug, PartialEq, Eq)]
pub enum PruningState {
    /// Pruning has an owner and is collecting acknowledgements from live peers.
    Initialized(PruningInitialized),
    /// Pruning completed and its late-data suppression marker is retained.
    Performed(PruningPerformed),
}

impl View for PruningState {
    type V = PState;

    open spec fn view(&self) -> PState {
        match self {
            PruningState::Initialized(i) => i@,
            PruningState::Performed(p) => PState::Performed(p.deadline()),
        }
    }
}

impl PruningState {
    /// Creates initialized pruning state owned by `owner`.
    pub fn initialized(owner: ReplicaId) -> (r: Self)
        ensures
            r@ == PState::Initialized(owner@, Set::empty()),
    {
        PruningState::Initialized(PruningInitialized::new(owner))
    }

    /// Creates performed pruning state with an inclusive obsolete deadline.
    pub fn performed(obsolete_at_millis: u64) -> (r: Self)
        ensures
            r@ == PState::Performed(obsolete_at_millis),
    {
        PruningState::Performed(PruningPerformed::new(obsolete_at_millis))
    }

    /// Records that `node` has observed initialized state.
    pub fn add_seen(&self, node: ReplicaId) -> (r: Self)
        ensures
            r@ == pstate_seen(self@, node@),
    {
        match self {
            PruningState::Initialized(i) => PruningState::Initialized(i.add_seen(node)),
            PruningState::Performed(p) => PruningState::Performed(*p),
        }
    }

    /// Merges pruning states deterministically.
    ///
    /// Performed state dominates initialized state and the later deadline wins.
    /// Equal owners union their seen sets; conflicting owners select the smaller.
    pub fn merge(&self, other: &Self) -> (r: Self)
        ensures
            r@ == pstate_merged(self@, other@),
    {
        match (self, other) {
            (PruningState::Performed(left), PruningState::Performed(right)) => {
                if left.obsolete_at_millis >= right.obsolete_at_millis {
                    PruningState::Performed(*left)
                } else {
                    PruningState::Performed(*right)
                }
            },
            (PruningState::Performed(left), _) => PruningState::Performed(*left),
            (_, PruningState::Performed(right)) => PruningState::Performed(*right),
            (PruningState::Initialized(left), PruningState::Initialized(right)) => {
                PruningState::Initialized(left.merge(right))
            },
        }
    }

    /// Reports whether performed state is obsolete at `now_millis`.
    pub fn is_obsolete(&self, now_millis: u64) -> (r: bool)
        ensures
            r == pstate_obsolete(self@, now_millis),
    {
        match self {
            PruningState::Performed(p) => p.is_obsolete(now_millis),
            PruningState::Initialized(_) => false,
        }
    }

    /// Whether both states are the same marker.
    pub fn same_as(&self, other: &Self) -> (r: bool)
        ensures
            r == (self@ == other@),
    {
        match (self, other) {
            (PruningState::Performed(a), PruningState::Performed(b)) => a.obsolete_at_millis
                == b.obsolete_at_millis,
            (PruningState::Initialized(a), PruningState::Initialized(b)) => a.same_as(b),
            _ => false,
        }
    }

    pub fn duplicate(&self) -> (r: Self)
        ensures
            r@ == self@,
    {
        match self {
            PruningState::Initialized(i) => PruningState::Initialized(i.duplicate()),
            PruningState::Performed(p) => PruningState::Performed(*p),
        }
    }
}

impl Clone for PruningState {
    fn clone(&self) -> (r: Self)
        ensures
            r@ == self@,
    {
        self.duplicate()
    }
}

impl Duplicate for PruningState {
    fn duplicate(&self) -> (r: Self) {
        PruningState::duplicate(self)
    }
}

/// Deterministically ordered pruning state indexed by removed replica.
#[derive(Debug, PartialEq, Eq)]
pub struct PruningTable {
    states: SortedMap<ReplicaId, PruningState>,
}

impl View for PruningTable {
    type V = PTable;

    closed spec fn view(&self) -> PTable {
        self.states@
    }
}

impl PruningTable {
    #[verifier::type_invariant]
    closed spec fn inv(&self) -> bool {
        self.states.wf()
    }

    /// Creates an empty pruning table.
    pub fn new() -> (r: Self)
        ensures
            r@ == PTable::empty(),
    {
        PruningTable { states: SortedMap::new() }
    }

    /// Returns the number of removed-replica markers.
    pub fn len(&self) -> (r: usize)
        ensures
            r == self@.len(),
    {
        proof {
            use_type_invariant(self);
        }
        self.states.len()
    }

    /// Reports whether the table contains no markers.
    pub fn is_empty(&self) -> (r: bool)
        ensures
            r == (self@ == PTable::empty()),
    {
        proof {
            use_type_invariant(self);
        }
        self.states.is_empty()
    }

    /// Returns all markers in deterministic removed-replica order.
    pub fn states(&self) -> (r: &SortedMap<ReplicaId, PruningState>)
        ensures
            r.wf(),
            r@ == self@,
    {
        proof {
            use_type_invariant(self);
        }
        &self.states
    }

    /// Returns the marker for `removed`.
    pub fn get(&self, removed: &ReplicaId) -> (r: Option<&PruningState>)
        ensures
            r is Some == self@.contains_key(removed@),
            r matches Some(s) ==> s@ == self@[removed@],
    {
        proof {
            use_type_invariant(self);
        }
        self.states.get(removed.as_str())
    }

    fn set_state(&mut self, removed: ReplicaId, next: PruningState) -> (r: bool)
        ensures
            final(self)@ == old(self)@.insert(removed@, next@),
            r == !(old(self)@.contains_key(removed@) && old(self)@[removed@] == next@),
    {
        proof {
            use_type_invariant(&*self);
        }
        let changed = match self.states.get(removed.as_str()) {
            Some(current) => !current.same_as(&next),
            None => true,
        };
        let mut states = SortedMap::new();
        std::mem::swap(&mut states, &mut self.states);
        states.insert(removed, next);
        self.states = states;
        changed
    }

    /// Replaces `removed`'s marker with freshly initialized state; returns whether the table changed.
    pub fn initialize(&mut self, removed: ReplicaId, owner: ReplicaId) -> (r: bool)
        ensures
            final(self)@ == old(self)@.insert(removed@, PState::Initialized(owner@, Set::empty())),
            r == !(old(self)@.contains_key(removed@) && old(self)@[removed@] == PState::Initialized(
                owner@,
                Set::empty(),
            )),
    {
        let next = PruningState::initialized(owner);
        self.set_state(removed, next)
    }

    /// Marks one removed-replica entry as observed by `seen_by`.
    ///
    /// Returns `false` when the entry is absent or unchanged.
    pub fn mark_seen(&mut self, removed: &ReplicaId, seen_by: ReplicaId) -> (r: bool)
        ensures
            !old(self)@.contains_key(removed@) ==> final(self)@ == old(self)@ && !r,
            old(self)@.contains_key(removed@) ==> final(self)@ == old(self)@.insert(
                removed@,
                pstate_seen(old(self)@[removed@], seen_by@),
            ) && r == (old(self)@[removed@] != pstate_seen(old(self)@[removed@], seen_by@)),
    {
        proof {
            use_type_invariant(&*self);
        }
        let next = match self.states.get(removed.as_str()) {
            Some(current) => current.add_seen(seen_by),
            None => {
                return false;
            },
        };
        self.set_state(removed.duplicate(), next)
    }

    /// Marks every initialized entry as observed by `seen_by`; returns whether any marker changed.
    pub fn mark_all_seen_by(&mut self, seen_by: ReplicaId) -> (r: bool)
        ensures
            final(self)@ == Map::new(
                |k: Seq<char>| old(self)@.contains_key(k),
                |k: Seq<char>| pstate_seen(old(self)@[k], seen_by@),
            ),
            r == exists|k: Seq<char>| #[trigger]
                old(self)@.contains_key(k) && old(self)@[k] != pstate_seen(old(self)@[k], seen_by@),
    {
        proof {
            use_type_invariant(&*self);
        }
        let ghost start = self@;
        let removed_nodes = self.states.keys();
        let ghost ks = self.states.key_seq();
        proof {
            self.states.lemma_wf();
        }
        let mut changed = false;
        let n = removed_nodes.len();
        let mut i: usize = 0;
        proof {
            assert(self@ =~= Map::new(
                |k: Seq<char>| start.contains_key(k),
                |k: Seq<char>| if ks.take(0).contains(k) { pstate_seen(start[k], seen_by@) } else { start[k] },
            ));
        }
        while i < n
            invariant
                n == removed_nodes@.len(),
                n == ks.len(),
                strictly_sorted(ks),
                forall|j: int| 0 <= j < n ==> (#[trigger] removed_nodes@[j])@ == ks[j],
                start.dom() == ks.to_set(),
                i <= n,
                self@ == Map::new(
                    |k: Seq<char>| start.contains_key(k),
                    |k: Seq<char>| if ks.take(i as int).contains(k) { pstate_seen(start[k], seen_by@) } else { start[k] },
                ),
                changed == exists|k: Seq<char>| #[trigger]
                    ks.take(i as int).contains(k) && start[k] != pstate_seen(start[k], seen_by@),
            decreases n - i,
        {
            let ghost k = ks[i as int];
            proof {
                assert(start.contains_key(k));
                assert(!ks.take(i as int).contains(k)) by {
                    if ks.take(i as int).contains(k) {
                        let p = choose|p: int| 0 <= p < i && #[trigger] ks.take(i as int)[p] == k;
                        assert(key_lt(ks[p], ks[i as int]));
                    }
                }
                assert(ks.take(i as int + 1) =~= ks.take(i as int).push(k));
            }
            let step = self.mark_seen(&removed_nodes[i], seen_by.duplicate());
            changed = changed || step;
            proof {
                assert forall|x: Seq<char>| #![auto] x != k ==> (ks.take(i as int + 1).contains(x) == ks.take(i as int).contains(x)) by {
                    if x != k && ks.take(i as int + 1).contains(x) {
                        let p = choose|p: int| 0 <= p < i + 1 && #[trigger] ks.take(i as int + 1)[p] == x;
                        assert(ks.take(i as int)[p] == x);
                    }
                    if ks.take(i as int).contains(x) {
                        let p = choose|p: int| 0 <= p < i && #[trigger] ks.take(i as int)[p] == x;
                        assert(ks.take(i as int + 1)[p] == x);
                    }
                }
                assert(ks.take(i as int + 1)[i as int] == k);
                assert(self@ =~= Map::new(
                    |x: Seq<char>| start.contains_key(x),
                    |x: Seq<char>| if ks.take(i as int + 1).contains(x) { pstate_seen(start[x], seen_by@) } else { start[x] },
                ));
                if step {
                    assert(ks.take(i as int + 1).contains(k));
                }
                if changed && !step {
                    let w = choose|x: Seq<char>| #[trigger]
                        ks.take(i as int).contains(x) && start[x] != pstate_seen(start[x], seen_by@);
                    assert(ks.take(i as int + 1).contains(w));
                }
                if !changed {
                    assert forall|x: Seq<char>| #[trigger] ks.take(i as int + 1).contains(x) implies start[x] == pstate_seen(start[x], seen_by@) by {
                        if x != k {
                            assert(ks.take(i as int).contains(x));
                        }
                    }
                }
            }
            i = i + 1;
        }
        proof {
            assert(ks.take(n as int) =~= ks);
            assert(self@ =~= Map::new(
                |k: Seq<char>| start.contains_key(k),
                |k: Seq<char>| pstate_seen(start[k], seen_by@),
            ));
        }
        changed
    }

    /// Initialized entries owned by `owner` and seen by every live replica.
    pub fn ready_to_perform(&self, owner: &ReplicaId, live_replicas: &[ReplicaId]) -> (r: SortedSet<
        ReplicaId,
    >)
        ensures
            r.wf(),
            r@ == ptable_ready(self@, owner@, live_replicas@.map_values(|x: ReplicaId| x@).to_set()),
    {
        proof {
            use_type_invariant(self);
            self.states.lemma_wf();
            lemma_prefix_map_ends(self.states.key_seq(), self.states.value_seq());
        }
        let ghost lv = live_replicas@.map_values(|x: ReplicaId| x@);
        let ghost live = lv.to_set();
        let ghost ks = self.states.key_seq();
        let ghost vs = self.states.value_seq();
        let ghost target = ptable_ready(self@, owner@, live);
        let mut ready = SortedSet::new();
        let n = self.states.len();
        let mut i: usize = 0;
        proof {
            assert(ready@ =~= target.intersect(prefix_map(ks, vs, 0).dom()));
        }
        while i < n
            invariant
                self.states.wf(),
                ks == self.states.key_seq(),
                vs == self.states.value_seq(),
                strictly_sorted(ks),
                ks.len() == vs.len(),
                n == ks.len(),
                i <= n,
                self@ == crate::sorted_map::pairs_to_map(ks, vs),
                lv == live_replicas@.map_values(|x: ReplicaId| x@),
                live == lv.to_set(),
                target == ptable_ready(self@, owner@, live),
                ready.wf(),
                ready@ == target.intersect(prefix_map(ks, vs, i as int).dom()),
            decreases n - i,
        {
            proof {
                lemma_prefix_map_step(ks, vs, i as int);
                crate::sorted_map::lemma_sorted_lookup(ks, vs, i as int);
            }
            let removed = self.states.key_at(i);
            let state = self.states.value_at(i);
            let is_ready = match state {
                PruningState::Initialized(initialized) => {
                    let seen_all = initialized.is_seen_by_all(live_replicas);
                    proof {
                        let k = ks[i as int];
                        if let PState::Initialized(o, s) = self@[k] {
                            if seen_all {
                                assert forall|r: Seq<char>| #[trigger] live.contains(r) implies r == o || s.contains(r) by {
                                    let p = choose|p: int| 0 <= p < lv.len() && #[trigger] lv[p] == r;
                                    assert(live_replicas@[p]@ == r);
                                }
                            } else {
                                let p = choose|p: int| 0 <= p < live_replicas@.len() && !(#[trigger] live_replicas@[p]@ == o || s.contains(live_replicas@[p]@));
                                assert(live.contains(lv[p]));
                            }
                        }
                    }
                    *initialized.owner() == *owner && seen_all
                },
                PruningState::Performed(_) => false,
            };
            if is_ready {
                ready.insert(removed.duplicate());
            }
            proof {
                assert(ready@ =~= target.intersect(prefix_map(ks, vs, i as int + 1).dom()));
            }
            i = i + 1;
        }
        proof {
            lemma_prefix_map_ends(ks, vs);
            assert(ready@ =~= target);
        }
        ready
    }

    /// Replaces `removed`'s marker with performed state; returns whether the table changed.
    pub fn mark_performed(&mut self, removed: ReplicaId, obsolete_at_millis: u64) -> (r: bool)
        ensures
            final(self)@ == old(self)@.insert(removed@, PState::Performed(obsolete_at_millis)),
            r == !(old(self)@.contains_key(removed@) && old(self)@[removed@] == PState::Performed(
                obsolete_at_millis,
            )),
    {
        self.set_state(removed, PruningState::performed(obsolete_at_millis))
    }

    /// Removes performed markers obsolete at or before `now_millis`; returns the removed replicas.
    pub fn remove_obsolete_performed(&mut self, now_millis: u64) -> (r: SortedSet<ReplicaId>)
        ensures
            r.wf(),
            r@ == ptable_obsolete(old(self)@, now_millis),
            final(self)@ == old(self)@.remove_keys(ptable_obsolete(old(self)@, now_millis)),
    {
        proof {
            use_type_invariant(&*self);
            self.states.lemma_wf();
            lemma_prefix_map_ends(self.states.key_seq(), self.states.value_seq());
        }
        let ghost start = self@;
        let ghost ks = self.states.key_seq();
        let ghost vs = self.states.value_seq();
        let ghost target = ptable_obsolete(start, now_millis);
        let mut obsolete = SortedSet::new();
        let n = self.states.len();
        let mut i: usize = 0;
        proof {
            assert(obsolete@ =~= target.intersect(prefix_map(ks, vs, 0).dom()));
        }
        while i < n
            invariant
                self.states.wf(),
                ks == self.states.key_seq(),
                vs == self.states.value_seq(),
                strictly_sorted(ks),
                ks.len() == vs.len(),
                n == ks.len(),
                i <= n,
                start == self@,
                self@ == crate::sorted_map::pairs_to_map(ks, vs),
                target == ptable_obsolete(start, now_millis),
                obsolete.wf(),
                obsolete@ == target.intersect(prefix_map(ks, vs, i as int).dom()),
            decreases n - i,
        {
            proof {
                lemma_prefix_map_step(ks, vs, i as int);
                crate::sorted_map::lemma_sorted_lookup(ks, vs, i as int);
            }
            if self.states.value_at(i).is_obsolete(now_millis) {
                obsolete.insert(self.states.key_at(i).duplicate());
            }
            proof {
                assert(obsolete@ =~= target.intersect(prefix_map(ks, vs, i as int + 1).dom()));
            }
            i = i + 1;
        }
        proof {
            lemma_prefix_map_ends(ks, vs);
            assert(obsolete@ =~= target);
        }
        let keys = obsolete.to_vec();
        let mut states = SortedMap::new();
        std::mem::swap(&mut states, &mut self.states);
        let m = keys.len();
        let mut j: usize = 0;
        proof {
            obsolete.lemma_wf();
            assert(states@ =~= start.remove_keys(obsolete.key_seq().take(0).to_set()));
        }
        while j < m
            invariant
                m == keys@.len(),
                m == obsolete.key_seq().len(),
                forall|x: int| 0 <= x < m ==> (#[trigger] keys@[x])@ == obsolete.key_seq()[x],
                j <= m,
                states.wf(),
                states@ == start.remove_keys(obsolete.key_seq().take(j as int).to_set()),
            decreases m - j,
        {
            states.remove(keys[j].as_str());
            proof {
                let t = obsolete.key_seq().take(j as int);
                assert(obsolete.key_seq().take(j as int + 1) =~= t + seq![obsolete.key_seq()[j as int]]);
                Seq::<Seq<char>>::lemma_to_set_insert_commutes(t, obsolete.key_seq()[j as int]);
                assert(states@ =~= start.remove_keys(obsolete.key_seq().take(j as int + 1).to_set()));
            }
            j = j + 1;
        }
        proof {
            assert(obsolete.key_seq().take(m as int) =~= obsolete.key_seq());
            obsolete.lemma_wf();
        }
        self.states = states;
        obsolete
    }

    /// Merges both tables using [`PruningState::merge`] for shared entries.
    pub fn merge(&self, other: &Self) -> (r: Self)
        ensures
            r@ == ptable_merged(self@, other@),
    {
        proof {
            use_type_invariant(self);
            use_type_invariant(other);
            self.states.lemma_wf();
            lemma_prefix_map_ends(self.states.key_seq(), self.states.value_seq());
        }
        let ghost ks = self.states.key_seq();
        let ghost vs = self.states.value_seq();
        let mut states = other.states.duplicate();
        let n = self.states.len();
        let mut i: usize = 0;
        proof {
            assert(states@ =~= ptable_merged(prefix_map(ks, vs, 0), other@));
        }
        while i < n
            invariant
                self.states.wf(),
                ks == self.states.key_seq(),
                vs == self.states.value_seq(),
                strictly_sorted(ks),
                ks.len() == vs.len(),
                n == ks.len(),
                i <= n,
                states.wf(),
                states@ == ptable_merged(prefix_map(ks, vs, i as int), other@),
            decreases n - i,
        {
            proof {
                lemma_prefix_map_step(ks, vs, i as int);
            }
            let removed = self.states.key_at(i);
            let this_state = self.states.value_at(i);
            let next = match states.get(removed.as_str()) {
                Some(that_state) => this_state.merge(that_state),
                None => this_state.duplicate(),
            };
            states.insert(removed.duplicate(), next);
            proof {
                assert(states@ =~= ptable_merged(prefix_map(ks, vs, i as int + 1), other@));
            }
            i = i + 1;
        }
        proof {
            lemma_prefix_map_ends(ks, vs);
        }
        PruningTable { states }
    }

    /// Merges both tables and removes obsolete performed markers.
    pub fn merge_without_obsolete(&self, other: &Self, now_millis: u64) -> (r: Self)
        ensures
            r@ == ptable_merged(self@, other@).remove_keys(
                ptable_obsolete(ptable_merged(self@, other@), now_millis),
            ),
    {
        let mut merged = self.merge(other);
        merged.remove_obsolete_performed(now_millis);
        merged
    }

    pub fn duplicate(&self) -> (r: Self)
        ensures
            r@ == self@,
    {
        proof {
            use_type_invariant(self);
        }
        PruningTable { states: self.states.duplicate() }
    }
}

impl Clone for PruningTable {
    fn clone(&self) -> (r: Self)
        ensures
            r@ == self@,
    {
        self.duplicate()
    }
}

impl Duplicate for PruningTable {
    fn duplicate(&self) -> (r: Self) {
        PruningTable::duplicate(self)
    }
}

impl Default for PruningTable {
    fn default() -> (r: Self)
        ensures
            r@ == PTable::empty(),
    {
        PruningTable::new()
    }
}

/// `a - b`, saturating at zero.
pub open spec fn sat_sub(a: u64, b: u64) -> u64 {
    if a >= b {
        (a - b) as u64
    } else {
        0
    }
}

/// Replicas whose dissemination delay has strictly elapsed.
pub open spec fn tracker_ready(m: Map<Seq<char>, u64>, now: u64, max_delay: u64) -> Set<Seq<char>> {
    Set::new(|k: Seq<char>| m.contains_key(k) && sat_sub(now, m[k]) > max_delay)
}

/// First-observation clock for removed replicas awaiting pruning initialization.
#[derive(Debug, PartialEq, Eq)]
pub struct RemovedNodePruningTracker {
    removed_nodes: SortedMap<ReplicaId, u64>,
}

impl View for RemovedNodePruningTracker {
    type V = Map<Seq<char>, u64>;

    closed spec fn view(&self) -> Map<Seq<char>, u64> {
        self.removed_nodes@
    }
}

impl RemovedNodePruningTracker {
    #[verifier::type_invariant]
    closed spec fn inv(&self) -> bool {
        self.removed_nodes.wf()
    }

    /// Creates an empty removed-replica tracker.
    pub fn new() -> (r: Self)
        ensures
            r@ == Map::<Seq<char>, u64>::empty(),
    {
        RemovedNodePruningTracker { removed_nodes: SortedMap::new() }
    }

    /// Returns first-observation all-reachable clock values by replica.
    pub fn removed_nodes(&self) -> (r: &SortedMap<ReplicaId, u64>)
        ensures
            r.wf(),
            r@ == self@,
    {
        proof {
            use_type_invariant(self);
        }
        &self.removed_nodes
    }

    /// Reports whether `node` is awaiting or undergoing pruning.
    pub fn contains(&self, node: &ReplicaId) -> (r: bool)
        ensures
            r == self@.contains_key(node@),
    {
        proof {
            use_type_invariant(self);
        }
        self.removed_nodes.contains_key(node.as_str())
    }

    /// Records the first observation of a removed replica; later records keep the first clock reading.
    pub fn record_removed(&mut self, node: ReplicaId, all_reachable_time_nanos: u64) -> (r: bool)
        ensures
            r == !old(self)@.contains_key(node@),
            r ==> final(self)@ == old(self)@.insert(node@, all_reachable_time_nanos),
            !r ==> final(self)@ == old(self)@,
    {
        proof {
            use_type_invariant(&*self);
        }
        if self.removed_nodes.contains_key(node.as_str()) {
            return false;
        }
        let mut nodes = SortedMap::new();
        std::mem::swap(&mut nodes, &mut self.removed_nodes);
        nodes.insert(node, all_reachable_time_nanos);
        self.removed_nodes = nodes;
        true
    }

    /// Forgets a removed replica after its performed markers expire.
    pub fn forget_removed(&mut self, node: &ReplicaId) -> (r: bool)
        ensures
            r == old(self)@.contains_key(node@),
            final(self)@ == old(self)@.remove(node@),
    {
        proof {
            use_type_invariant(&*self);
        }
        let mut nodes = SortedMap::new();
        std::mem::swap(&mut nodes, &mut self.removed_nodes);
        let r = nodes.remove(node.as_str());
        self.removed_nodes = nodes;
        r.is_some()
    }

    /// Records CRDT contributors absent from known membership and prior removals.
    ///
    /// The local replica is never inferred as removed. Returns newly recorded identifiers.
    pub fn record_unknown_modified_nodes(
        &mut self,
        modified_by: &[ReplicaId],
        known_nodes: &SortedSet<ReplicaId>,
        self_node: &ReplicaId,
        all_reachable_time_nanos: u64,
    ) -> (r: SortedSet<ReplicaId>)
        requires
            known_nodes.wf(),
        ensures
            r.wf(),
            r@ == Set::new(
                |n: Seq<char>|
                    modified_by@.map_values(|x: ReplicaId| x@).contains(n) && n != self_node@
                        && !known_nodes@.contains(n) && !old(self)@.contains_key(n),
            ),
            final(self)@ == Map::new(
                |n: Seq<char>| old(self)@.contains_key(n) || r@.contains(n),
                |n: Seq<char>|
                    if old(self)@.contains_key(n) {
                        old(self)@[n]
                    } else {
                        all_reachable_time_nanos
                    },
            ),
    {
        let ghost start = self@;
        let ghost mv = modified_by@.map_values(|x: ReplicaId| x@);
        let mut recorded = SortedSet::new();
        let n = modified_by.len();
        let mut i: usize = 0;
        proof {
            assert(recorded@ =~= Set::new(
                |x: Seq<char>| mv.take(0).contains(x) && x != self_node@ && !known_nodes@.contains(x) && !start.contains_key(x),
            ));
            assert(self@ =~= Map::new(
                |x: Seq<char>| start.contains_key(x) || recorded@.contains(x),
                |x: Seq<char>| if start.contains_key(x) { start[x] } else { all_reachable_time_nanos },
            ));
        }
        while i < n
            invariant
                n == modified_by@.len(),
                mv == modified_by@.map_values(|x: ReplicaId| x@),
                known_nodes.wf(),
                i <= n,
                recorded.wf(),
                recorded@ == Set::new(
                    |x: Seq<char>| mv.take(i as int).contains(x) && x != self_node@ && !known_nodes@.contains(x) && !start.contains_key(x),
                ),
                self@ == Map::new(
                    |x: Seq<char>| start.contains_key(x) || recorded@.contains(x),
                    |x: Seq<char>| if start.contains_key(x) { start[x] } else { all_reachable_time_nanos },
                ),
            decreases n - i,
        {
            let node = &modified_by[i];
            let ghost x = node@;
            proof {
                assert(mv.take(i as int + 1) =~= mv.take(i as int).push(x));
                assert(forall|y: Seq<char>| #![auto] mv.take(i as int + 1).contains(y) == (mv.take(i as int).contains(y) || y == x)) by {
                    assert forall|y: Seq<char>| #![auto] mv.take(i as int + 1).contains(y) == (mv.take(i as int).contains(y) || y == x) by {
                        if mv.take(i as int + 1).contains(y) {
                            let p = choose|p: int| 0 <= p < i + 1 && #[trigger] mv.take(i as int + 1)[p] == y;
                            if p < i {
                                assert(mv.take(i as int)[p] == y);
                            }
                        }
                        if mv.take(i as int).contains(y) {
                            let p = choose|p: int| 0 <= p < i && #[trigger] mv.take(i as int)[p] == y;
                            assert(mv.take(i as int + 1)[p] == y);
                        }
                        if y == x {
                            assert(mv.take(i as int + 1)[i as int] == y);
                        }
                    }
                }
            }
            if *node != *self_node && !known_nodes.contains(node.as_str()) {
                if self.record_removed(node.duplicate(), all_reachable_time_nanos) {
                    recorded.insert(node.duplicate());
                }
            }
            proof {
                assert(recorded@ =~= Set::new(
                    |y: Seq<char>| mv.take(i as int + 1).contains(y) && y != self_node@ && !known_nodes@.contains(y) && !start.contains_key(y),
                ));
                assert(self@ =~= Map::new(
                    |y: Seq<char>| start.contains_key(y) || recorded@.contains(y),
                    |y: Seq<char>| if start.contains_key(y) { start[y] } else { all_reachable_time_nanos },
                ));
            }
            i = i + 1;
        }
        proof {
            assert(mv.take(n as int) =~= mv);
        }
        recorded
    }

    /// Replicas whose dissemination delay has strictly elapsed.
    pub fn ready_to_initialize(
        &self,
        all_reachable_time_nanos: u64,
        max_pruning_dissemination_nanos: u64,
    ) -> (r: SortedSet<ReplicaId>)
        ensures
            r.wf(),
            r@ == tracker_ready(self@, all_reachable_time_nanos, max_pruning_dissemination_nanos),
    {
        proof {
            use_type_invariant(self);
            self.removed_nodes.lemma_wf();
            lemma_prefix_map_ends(self.removed_nodes.key_seq(), self.removed_nodes.value_seq());
        }
        let ghost ks = self.removed_nodes.key_seq();
        let ghost vs = self.removed_nodes.value_seq();
        let ghost target = tracker_ready(self@, all_reachable_time_nanos, max_pruning_dissemination_nanos);
        let mut ready = SortedSet::new();
        let n = self.removed_nodes.len();
        let mut i: usize = 0;
        proof {
            assert(ready@ =~= target.intersect(prefix_map(ks, vs, 0).dom()));
        }
        while i < n
            invariant
                self.removed_nodes.wf(),
                ks == self.removed_nodes.key_seq(),
                vs == self.removed_nodes.value_seq(),
                strictly_sorted(ks),
                ks.len() == vs.len(),
                n == ks.len(),
                i <= n,
                self@ == crate::sorted_map::pairs_to_map(ks, vs),
                target == tracker_ready(self@, all_reachable_time_nanos, max_pruning_dissemination_nanos),
                ready.wf(),
                ready@ == target.intersect(prefix_map(ks, vs, i as int).dom()),
            decreases n - i,
        {
            proof {
                lemma_prefix_map_step(ks, vs, i as int);
                crate::sorted_map::lemma_sorted_lookup(ks, vs, i as int);
            }
            let first_seen_at = *self.removed_nodes.value_at(i);
            let elapsed = if all_reachable_time_nanos >= first_seen_at {
                all_reachable_time_nanos - first_seen_at
            } else {
                0
            };
            if elapsed > max_pruning_dissemination_nanos {
                ready.insert(self.removed_nodes.key_at(i).duplicate());
            }
            proof {
                assert(ready@ =~= target.intersect(prefix_map(ks, vs, i as int + 1).dom()));
            }
            i = i + 1;
        }
        proof {
            lemma_prefix_map_ends(ks, vs);
            assert(ready@ =~= target);
        }
        ready
    }
}

impl Default for RemovedNodePruningTracker {
    fn default() -> (r: Self)
        ensures
            r@ == Map::<Seq<char>, u64>::empty(),
    {
        RemovedNodePruningTracker::new()
    }
}

/// Cluster and clock snapshot used for one removed-node pruning pass.
#[derive(Debug, PartialEq, Eq)]
pub struct RemovedNodePruningTick {
    /// Local replica that may own and perform pruning.
    pub self_replica: ReplicaId,
    /// Current live remote replicas that must observe initialized markers.
    pub live_replicas: SortedSet<ReplicaId>,
    /// Current unreachable replicas; a non-empty set pauses the entire pass.
    pub unreachable_replicas: SortedSet<ReplicaId>,
    /// Monotonic nanoseconds accumulated only while all replicas were reachable.
    pub all_reachable_time_nanos: u64,
    /// Required all-reachable dissemination delay before initialization.
    pub max_pruning_dissemination_nanos: u64,
    /// Current wall-clock time in Unix-epoch milliseconds.
    pub now_millis: u64,
    /// Retention duration for a newly performed marker.
    pub pruning_marker_ttl_millis: u64,
    /// Whether the local replica currently leads the eligible replica set.
    pub is_leader: bool,
}

impl RemovedNodePruningTick {
    /// Creates a performed marker whose deadline is `now + ttl`, saturating.
    pub fn pruning_performed(&self) -> (r: PruningPerformed)
        ensures
            r.deadline() == if self.now_millis + self.pruning_marker_ttl_millis > u64::MAX {
                u64::MAX
            } else {
                (self.now_millis + self.pruning_marker_ttl_millis) as u64
            },
    {
        let deadline = if self.now_millis > u64::MAX - self.pruning_marker_ttl_millis {
            u64::MAX
        } else {
            self.now_millis + self.pruning_marker_ttl_millis
        };
        PruningPerformed::new(deadline)
    }
}

/// Failure to transfer one removed replica's contribution for one key.
#[derive(Debug, Clone, PartialEq, Eq)]
pub struct RemovedNodePruningFailure {
    /// Replicated-data key whose pruning failed.
    pub key: ReplicatorKey,
    /// Removed replica whose contribution could not be pruned.
    pub removed: ReplicaId,
    /// Diagnostic description returned by the CRDT.
    pub reason: String,
}

/// Deterministic effects and diagnostics from one pruning pass.
#[derive(Debug, PartialEq, Eq)]
pub struct RemovedNodePruningTickReport {
    /// Whether the pass was skipped because at least one replica was unreachable.
    pub skipped_unreachable: bool,
    /// Removed replica identifiers newly inferred from stored CRDT state.
    pub collected_removed: SortedSet<ReplicaId>,
    /// Keys whose pruning markers were initialized.
    pub initialized: SortedSet<ReplicatorKey>,
    /// Keys whose removed-replica contributions were pruned.
    pub performed: SortedSet<ReplicatorKey>,
    /// Keys whose performed markers expired.
    pub obsolete_markers: SortedSet<ReplicatorKey>,
    /// Removed replica identifiers forgotten after marker expiry.
    pub forgotten_removed: SortedSet<ReplicaId>,
    /// Per-key CRDT pruning failures encountered during the pass.
    pub failures: Vec<RemovedNodePruningFailure>,
}

/// Abstract pruning failure: key, removed replica and reason.
pub open spec fn failure_view(f: RemovedNodePruningFailure) -> (Seq<char>, Seq<char>, Seq<char>) {
    (f.key@, f.removed@, f.reason@)
}

/// Abstract pruning failures.
pub open spec fn failures_view(s: Seq<RemovedNodePruningFailure>) -> Seq<(Seq<char>, Seq<char>, Seq<char>)> {
    s.map_values(|f: RemovedNodePruningFailure| failure_view(f))
}

/// Abstract pruning pass report.
pub struct PruningReportView {
    pub skipped_unreachable: bool,
    pub collected_removed: Set<Seq<char>>,
    pub initialized: Set<Seq<char>>,
    pub performed: Set<Seq<char>>,
    pub obsolete_markers: Set<Seq<char>>,
    pub forgotten_removed: Set<Seq<char>>,
    pub failures: Seq<(Seq<char>, Seq<char>, Seq<char>)>,
}

impl RemovedNodePruningTickReport {
    /// Every set of the report is well formed.
    pub open spec fn wf(&self) -> bool {
        &&& self.collected_removed.wf()
        &&& self.initialized.wf()
        &&& self.performed.wf()
        &&& self.obsolete_markers.wf()
        &&& self.forgotten_removed.wf()
    }

    /// Abstract value of the report.
    pub open spec fn report_view(&self) -> PruningReportView {
        PruningReportView {
            skipped_unreachable: self.skipped_unreachable,
            collected_removed: self.collected_removed@,
            initialized: self.initialized@,
            performed: self.performed@,
            obsolete_markers: self.obsolete_markers@,
            forgotten_removed: self.forgotten_removed@,
            failures: failures_view(self.failures@),
        }
    }

    /// A copy of the report.
    pub fn duplicate(&self) -> (r: Self)
        requires
            self.wf(),
        ensures
            r.wf(),
            r.report_view() == self.report_view(),
    {
        let mut failures: Vec<RemovedNodePruningFailure> = Vec::new();
        let n = self.failures.len();
        let mut i: usize = 0;
        while i < n
            invariant
                n == self.failures@.len(),
                i <= n,
                failures@.len() == i,
                forall|j: int| 0 <= j < i ==> failure_view(#[trigger] failures@[j]) == failure_view(
                    self.failures@[j],
                ),
            decreases n - i,
        {
            let f = &self.failures[i];
            failures.push(
                RemovedNodePruningFailure {
                    key: f.key.duplicate(),
                    removed: f.removed.duplicate(),
                    reason: f.reason.clone(),
                },
            );
            i = i + 1;
        }
        proof {
            assert(failures_view(failures@) =~= failures_view(self.failures@));
        }
        RemovedNodePruningTickReport {
            skipped_unreachable: self.skipped_unreachable,
            collected_removed: self.collected_removed.duplicate(),
            initialized: self.initialized.duplicate(),
            performed: self.performed.duplicate(),
            obsolete_markers: self.obsolete_markers.duplicate(),
            forgotten_removed: self.forgotten_removed.duplicate(),
            failures,
        }
    }

    /// An empty report.
    pub fn empty() -> (r: Self)
        ensures
            !r.skipped_unreachable,
            r.collected_removed.wf() && r.collected_removed@ == Set::<Seq<char>>::empty(),
            r.initialized.wf() && r.initialized@ == Set::<Seq<char>>::empty(),
            r.performed.wf() && r.performed@ == Set::<Seq<char>>::empty(),
            r.obsolete_markers.wf() && r.obsolete_markers@ == Set::<Seq<char>>::empty(),
            r.forgotten_removed.wf() && r.forgotten_removed@ == Set::<Seq<char>>::empty(),
            r.failures@.len() == 0,
    {
        RemovedNodePruningTickReport {
            skipped_unreachable: false,
            collected_removed: SortedSet::new(),
            initialized: SortedSet::new(),
            performed: SortedSet::new(),
            obsolete_markers: SortedSet::new(),
            forgotten_removed: SortedSet::new(),
            failures: Vec::new(),
        }
    }

    /// Creates a report for a pass paused by unreachable replicas.
    pub fn skipped_unreachable() -> (r: Self)
        ensures
            r.skipped_unreachable,
            r.collected_removed.wf() && r.collected_removed@ == Set::<Seq<char>>::empty(),
            r.initialized.wf() && r.initialized@ == Set::<Seq<char>>::empty(),
            r.performed.wf() && r.performed@ == Set::<Seq<char>>::empty(),
            r.obsolete_markers.wf() && r.obsolete_markers@ == Set::<Seq<char>>::empty(),
            r.forgotten_removed.wf() && r.forgotten_removed@ == Set::<Seq<char>>::empty(),
            r.failures@.len() == 0,
    {
        let mut r = Self::empty();
        r.skipped_unreachable = true;
        r
    }

    /// Counts distinct keys changed by initialization, performed pruning, or expiry.
    pub fn changed_key_count(&self) -> (r: usize)
        requires
            self.initialized.wf(),
            self.performed.wf(),
            self.obsolete_markers.wf(),
        ensures
            r == self.initialized@.union(self.performed@).union(self.obsolete_markers@).len(),
    {
        let all = self.initialized.union(&self.performed).union(&self.obsolete_markers);
        all.len()
    }
}

impl Default for RemovedNodePruningTickReport {
    fn default() -> (r: Self)
        ensures
            !r.skipped_unreachable,
            r.collected_removed.wf() && r.collected_removed@ == Set::<Seq<char>>::empty(),
            r.initialized.wf() && r.initialized@ == Set::<Seq<char>>::empty(),
            r.performed.wf() && r.performed@ == Set::<Seq<char>>::empty(),
            r.obsolete_markers.wf() && r.obsolete_markers@ == Set::<Seq<char>>::empty(),
            r.forgotten_removed.wf() && r.forgotten_removed@ == Set::<Seq<char>>::empty(),
            r.failures@.len() == 0,
    {
        RemovedNodePruningTickReport::empty()
    }
}

} // verus!
