//! Cluster membership projection for distributed-data routing and pruning.
//!
//! Consumes cluster snapshots and membership events, derives role-matching
//! remote replica routes, keeps reachability as a separate observation,
//! reports final removals, and selects the role-scoped replicator leader. It
//! never writes cluster state and is not a membership authority.
//!
//! Members are described by the plain values the projection reads: the
//! member's node (address and incarnation), its replica identity, its status
//! and its roles.
use vstd::prelude::*;

use crate::order::{compare_str, key_lt, lemma_key_lt_facts, lemma_key_lt_transitive, KeyOrder};
use crate::replica::{copy_ids, ids_view, ReplicaId};
use crate::sorted_map::{
    lemma_sorted_keys_of, lemma_sorted_pos, pos_of, sorted_keys, strictly_sorted, Duplicate, SortedMap,
};
use crate::sorted_set::SortedSet;

verus! {

broadcast use lemma_key_lt_facts, lemma_key_lt_transitive;

/// Lifecycle status of a cluster member.
#[derive(Debug, Clone, Copy, PartialEq, Eq, Structural)]
pub enum MemberStatus {
    Joining,
    WeaklyUp,
    Up,
    Leaving,
    Exiting,
    Down,
    Removed,
}

/// One incarnation of a cluster node: its address and incarnation number.
#[derive(Debug, PartialEq, Eq)]
pub struct UniqueNode {
    /// Protocol, system, host and port of the node.
    pub address: String,
    /// Incarnation number distinguishing restarts at the same address.
    pub uid: u64,
}

impl View for UniqueNode {
    type V = (Seq<char>, u64);

    open spec fn view(&self) -> (Seq<char>, u64) {
        (self.address@, self.uid)
    }
}

impl Duplicate for UniqueNode {
    fn duplicate(&self) -> (r: Self) {
        UniqueNode { address: self.address.clone(), uid: self.uid }
    }
}

impl Clone for UniqueNode {
    fn clone(&self) -> (r: Self)
        ensures
            r@ == self@,
    {
        self.duplicate()
    }
}

/// Whether two strings are equal.
fn same_text(a: &String, b: &String) -> (r: bool)
    ensures
        r == (a@ == b@),
{
    match compare_str(a.as_str(), b.as_str()) {
        KeyOrder::Equal => true,
        _ => false,
    }
}

/// Abstract cluster member.
pub struct MemberView {
    pub node: (Seq<char>, u64),
    pub replica: Seq<char>,
    pub status: MemberStatus,
    pub roles: Seq<Seq<char>>,
}

/// A cluster member as the route projection reads it.
#[derive(Debug, PartialEq, Eq)]
pub struct ClusterMember {
    /// The member's node incarnation.
    pub node: UniqueNode,
    /// The replica identity of the member's node.
    pub replica: ReplicaId,
    /// Current membership status.
    pub status: MemberStatus,
    /// Roles the member advertises.
    pub roles: Vec<String>,
}

impl View for ClusterMember {
    type V = MemberView;

    open spec fn view(&self) -> MemberView {
        MemberView {
            node: self.node@,
            replica: self.replica@,
            status: self.status,
            roles: self.roles@.map_values(|s: String| s@),
        }
    }
}

/// Copies a list of strings.
fn copy_strings(src: &Vec<String>) -> (r: Vec<String>)
    ensures
        r@.map_values(|s: String| s@) == src@.map_values(|s: String| s@),
{
    let mut out: Vec<String> = Vec::new();
    let n = src.len();
    let mut i: usize = 0;
    while i < n
        invariant
            n == src@.len(),
            i <= n,
            out@.len() == i,
            forall|j: int| 0 <= j < i ==> (#[trigger] out@[j])@ == src@[j]@,
        decreases n - i,
    {
        out.push(src[i].clone());
        i = i + 1;
    }
    proof {
        assert(out@.map_values(|s: String| s@) =~= src@.map_values(|s: String| s@));
    }
    out
}

impl Duplicate for ClusterMember {
    fn duplicate(&self) -> (r: Self) {
        ClusterMember {
            node: self.node.duplicate(),
            replica: self.replica.duplicate(),
            status: self.status,
            roles: copy_strings(&self.roles),
        }
    }
}

impl Clone for ClusterMember {
    fn clone(&self) -> (r: Self)
        ensures
            r@ == self@,
    {
        self.duplicate()
    }
}

/// A membership change of one member.
#[derive(Debug, Clone, PartialEq, Eq)]
pub enum MemberEvent {
    Joined(ClusterMember),
    WeaklyUp(ClusterMember),
    Up(ClusterMember),
    Left(ClusterMember),
    Exited(ClusterMember),
    Downed(ClusterMember),
    Removed { member: ClusterMember, previous_status: MemberStatus },
}

/// A reachability observation of one member.
#[derive(Debug, Clone, PartialEq, Eq)]
pub enum ReachabilityEvent {
    Unreachable(ClusterMember),
    Reachable(ClusterMember),
}

/// A cluster event as the route projection reads it.
#[derive(Debug, Clone, PartialEq, Eq)]
pub enum ClusterEvent {
    /// A membership change.
    Member(MemberEvent),
    /// A reachability change.
    Reachability(ReachabilityEvent),
    /// Leader, seen-by, reachability-table and tombstone changes, which the
    /// projection does not read.
    Other,
}

/// A complete cluster snapshot: its members and its unreachable members.
#[derive(Debug, Clone, PartialEq, Eq)]
pub struct ClusterSnapshot {
    pub members: Vec<ClusterMember>,
    pub unreachable: Vec<ClusterMember>,
}

/// The member a membership event is about.
pub open spec fn event_member(e: MemberEvent) -> ClusterMember {
    match e {
        MemberEvent::Joined(m) => m,
        MemberEvent::WeaklyUp(m) => m,
        MemberEvent::Up(m) => m,
        MemberEvent::Left(m) => m,
        MemberEvent::Exited(m) => m,
        MemberEvent::Downed(m) => m,
        MemberEvent::Removed { member, .. } => member,
    }
}

fn member_from_event(event: &MemberEvent) -> (r: &ClusterMember)
    ensures
        *r == event_member(*event),
{
    match event {
        MemberEvent::Joined(m) => m,
        MemberEvent::WeaklyUp(m) => m,
        MemberEvent::Up(m) => m,
        MemberEvent::Left(m) => m,
        MemberEvent::Exited(m) => m,
        MemberEvent::Downed(m) => m,
        MemberEvent::Removed { member, .. } => member,
    }
}

/// Abstract route projection.
pub struct RoutesView {
    pub self_node: (Seq<char>, u64),
    pub roles: Set<Seq<char>>,
    pub joining: Set<Seq<char>>,
    pub weakly_up: Set<Seq<char>>,
    pub up: Set<Seq<char>>,
    pub exiting: Set<Seq<char>>,
    pub unreachable: Set<Seq<char>>,
    pub nodes: Map<Seq<char>, (Seq<char>, u64)>,
    pub members: Map<Seq<char>, MemberView>,
}

/// The member advertises every required role.
pub open spec fn matches_roles(v: RoutesView, m: MemberView) -> bool {
    forall|r: Seq<char>| #[trigger] v.roles.contains(r) ==> m.roles.contains(r)
}

/// The member has all required roles and lives at another address.
pub open spec fn matches_remote(v: RoutesView, m: MemberView) -> bool {
    m.node.0 != v.self_node.0 && matches_roles(v, m)
}

/// The projection without any live-route fact about replica `r`.
pub open spec fn without_live(v: RoutesView, r: Seq<char>) -> RoutesView {
    RoutesView {
        joining: v.joining.remove(r),
        weakly_up: v.weakly_up.remove(r),
        up: v.up.remove(r),
        exiting: v.exiting.remove(r),
        nodes: v.nodes.remove(r),
        ..v
    }
}

/// The projection after observing member `m` in its current status.
pub open spec fn with_status(v: RoutesView, m: MemberView) -> RoutesView {
    let r = m.replica;
    match m.status {
        MemberStatus::Joining => RoutesView {
            nodes: v.nodes.insert(r, m.node),
            joining: v.joining.insert(r),
            weakly_up: v.weakly_up.remove(r),
            up: v.up.remove(r),
            exiting: v.exiting.remove(r),
            ..v
        },
        MemberStatus::WeaklyUp => RoutesView {
            nodes: v.nodes.insert(r, m.node),
            joining: v.joining.remove(r),
            weakly_up: v.weakly_up.insert(r),
            up: v.up.remove(r),
            exiting: v.exiting.remove(r),
            ..v
        },
        MemberStatus::Up | MemberStatus::Leaving => RoutesView {
            nodes: v.nodes.insert(r, m.node),
            joining: v.joining.remove(r),
            weakly_up: v.weakly_up.remove(r),
            up: v.up.insert(r),
            exiting: v.exiting.remove(r),
            ..v
        },
        MemberStatus::Exiting => RoutesView {
            nodes: v.nodes.insert(r, m.node),
            joining: v.joining.remove(r),
            weakly_up: v.weakly_up.remove(r),
            up: v.up.insert(r),
            exiting: v.exiting.insert(r),
            ..v
        },
        MemberStatus::Down => v,
        MemberStatus::Removed => without_live(v, r),
    }
}

/// A snapshot member in status `Up` or `Leaving` becomes a leader candidate.
pub open spec fn snapshot_candidate(v: RoutesView, m: MemberView) -> RoutesView {
    if m.status == MemberStatus::Up || m.status == MemberStatus::Leaving {
        RoutesView { members: v.members.insert(m.replica, m), ..v }
    } else {
        v
    }
}

/// Leader candidates after a membership event: `Up` and `Left` enter or
/// update, `Downed` updates an existing candidate, `Removed` leaves.
pub open spec fn event_candidate(v: RoutesView, e: MemberEvent) -> RoutesView {
    let m = event_member(e)@;
    match e {
        MemberEvent::Up(_) | MemberEvent::Left(_) => RoutesView {
            members: v.members.insert(m.replica, m),
            ..v
        },
        MemberEvent::Downed(_) => if v.members.contains_key(m.replica) {
            RoutesView { members: v.members.insert(m.replica, m), ..v }
        } else {
            v
        },
        MemberEvent::Removed { .. } => RoutesView { members: v.members.remove(m.replica), ..v },
        _ => v,
    }
}

/// The projection after one snapshot member.
pub open spec fn snapshot_member_step(v: RoutesView, m: MemberView) -> RoutesView {
    if matches_roles(v, m) {
        let v1 = snapshot_candidate(v, m);
        if matches_remote(v, m) {
            with_status(v1, m)
        } else {
            v1
        }
    } else {
        v
    }
}

/// The projection after the snapshot members, in order.
pub open spec fn snapshot_members(v: RoutesView, ms: Seq<ClusterMember>) -> RoutesView
    decreases ms.len(),
{
    if ms.len() == 0 {
        v
    } else {
        snapshot_member_step(snapshot_members(v, ms.drop_last()), ms.last()@)
    }
}

/// The projection after the snapshot's unreachable members, in order.
pub open spec fn snapshot_unreachable(v: RoutesView, ms: Seq<ClusterMember>) -> RoutesView
    decreases ms.len(),
{
    if ms.len() == 0 {
        v
    } else {
        let w = snapshot_unreachable(v, ms.drop_last());
        if matches_remote(w, ms.last()@) {
            RoutesView { unreachable: w.unreachable.insert(ms.last()@.replica), ..w }
        } else {
            w
        }
    }
}

/// The projection after one cluster event.
pub open spec fn routes_after(v: RoutesView, e: ClusterEvent) -> RoutesView {
    match e {
        ClusterEvent::Member(MemberEvent::Removed { member, .. }) => {
            let m = member@;
            let v1 = if matches_roles(v, m) {
                RoutesView { members: v.members.remove(m.replica), ..v }
            } else {
                v
            };
            if matches_remote(v, m) {
                let v2 = without_live(v1, m.replica);
                RoutesView { unreachable: v2.unreachable.remove(m.replica), ..v2 }
            } else {
                v1
            }
        },
        ClusterEvent::Member(me) => {
            let m = event_member(me)@;
            if matches_roles(v, m) {
                let v1 = event_candidate(v, me);
                if matches_remote(v, m) {
                    with_status(v1, m)
                } else {
                    v1
                }
            } else {
                v
            }
        },
        ClusterEvent::Reachability(ReachabilityEvent::Unreachable(member)) => if matches_remote(
            v,
            member@,
        ) {
            RoutesView { unreachable: v.unreachable.insert(member@.replica), ..v }
        } else {
            v
        },
        ClusterEvent::Reachability(ReachabilityEvent::Reachable(member)) => if matches_remote(
            v,
            member@,
        ) {
            RoutesView { unreachable: v.unreachable.remove(member@.replica), ..v }
        } else {
            v
        },
        ClusterEvent::Other => v,
    }
}

/// Replicas finally removed by one event.
pub open spec fn removed_by(v: RoutesView, e: ClusterEvent) -> Set<Seq<char>> {
    match e {
        ClusterEvent::Member(MemberEvent::Removed { member, .. }) => if matches_remote(v, member@) {
            set![member@.replica]
        } else {
            Set::empty()
        },
        _ => Set::empty(),
    }
}

/// Leader order of statuses: `Up` and `Leaving` first, `Removed` last.
pub open spec fn status_rank(s: MemberStatus) -> int {
    match s {
        MemberStatus::Up | MemberStatus::Leaving => 0,
        MemberStatus::WeaklyUp => 1,
        MemberStatus::Joining => 2,
        MemberStatus::Exiting => 3,
        MemberStatus::Down => 4,
        MemberStatus::Removed => 5,
    }
}

/// Candidate `a` precedes or equals candidate `b` in leader order: by
/// status rank, then by replica identity.
pub open spec fn leader_le(a: MemberView, b: MemberView) -> bool {
    status_rank(a.status) < status_rank(b.status) || (status_rank(a.status) == status_rank(b.status)
        && (a.replica == b.replica || key_lt(a.replica, b.replica)))
}

/// The local node is the `Up` first candidate in leader order.
pub open spec fn is_leader_spec(v: RoutesView) -> bool {
    exists|r: Seq<char>|
        #[trigger] v.members.contains_key(r) && (forall|r2: Seq<char>|
            v.members.contains_key(r2) ==> leader_le(v.members[r], #[trigger] v.members[r2]))
            && v.members[r].status == MemberStatus::Up && v.members[r].node == v.self_node
}

/// Routable remote replicas: `WeaklyUp`, `Up`, `Leaving` and `Exiting`.
pub open spec fn routable(v: RoutesView) -> Set<Seq<char>> {
    v.up.union(v.weakly_up)
}

/// Nodes known for the replicas `rs`, in order, skipping unknown replicas.
pub open spec fn known_nodes(rs: Seq<Seq<char>>, nodes: Map<Seq<char>, (Seq<char>, u64)>) -> Seq<
    (Seq<char>, u64),
>
    decreases rs.len(),
{
    if rs.len() == 0 {
        Seq::empty()
    } else {
        let w = known_nodes(rs.drop_last(), nodes);
        if nodes.contains_key(rs.last()) {
            w.push(nodes[rs.last()])
        } else {
            w
        }
    }
}

/// Abstract values of a list of nodes.
pub open spec fn nodes_view(s: Seq<UniqueNode>) -> Seq<(Seq<char>, u64)> {
    s.map_values(|n: UniqueNode| n@)
}

/// A complete route/reachability view plus removals observed in one transition.
#[derive(Debug, Clone, PartialEq, Eq)]
pub struct ReplicatorClusterRouteUpdate {
    /// Routable remote replicas in ascending identity order.
    pub remote_replicas: Vec<ReplicaId>,
    /// Unreachable role-matching remote members, including non-routable states.
    pub unreachable_replicas: SortedSet<ReplicaId>,
    /// Replicas that reached final cluster membership removal in this transition.
    pub removed_replicas: SortedSet<ReplicaId>,
    /// Whether the local member is the role-scoped `Up` replicator leader.
    pub is_leader: bool,
}

/// The update describes projection `v` with `removed` replicas.
pub open spec fn update_describes(
    u: ReplicatorClusterRouteUpdate,
    v: RoutesView,
    removed: Set<Seq<char>>,
) -> bool {
    &&& ids_view(u.remote_replicas@) == sorted_keys(routable(v))
    &&& u.unreachable_replicas.wf()
    &&& u.unreachable_replicas@ == v.unreachable
    &&& u.removed_replicas.wf()
    &&& u.removed_replicas@ == removed
    &&& u.is_leader == is_leader_spec(v)
}

/// Members of a replica list, as a set.
fn id_set(ids: Vec<ReplicaId>) -> (r: SortedSet<ReplicaId>)
    ensures
        r.wf(),
        r@ == ids_view(ids@).to_set(),
{
    let mut set: SortedSet<ReplicaId> = SortedSet::new();
    let n = ids.len();
    let mut i: usize = 0;
    while i < n
        invariant
            n == ids@.len(),
            i <= n,
            set.wf(),
            set@ == ids_view(ids@).take(i as int).to_set(),
        decreases n - i,
    {
        set.insert(ids[i].duplicate());
        proof {
            assert(ids_view(ids@).take(i as int + 1) =~= ids_view(ids@).take(i as int).push(
                ids@[i as int]@,
            ));
            ids_view(ids@).take(i as int).lemma_push_to_set_commute(ids@[i as int]@);
        }
        i = i + 1;
    }
    proof {
        assert(ids_view(ids@).take(n as int) =~= ids_view(ids@));
    }
    set
}

/// Members of a set in ascending order.
fn sorted_ids(set: &SortedSet<ReplicaId>) -> (r: Vec<ReplicaId>)
    requires
        set.wf(),
    ensures
        ids_view(r@) == sorted_keys(set@),
        strictly_sorted(ids_view(r@)),
        ids_view(r@).to_set() == set@,
{
    let r = set.to_vec();
    proof {
        set.lemma_wf();
        assert(ids_view(r@) =~= set.key_seq());
        lemma_sorted_keys_of(set.key_seq());
    }
    r
}

impl ReplicatorClusterRouteUpdate {
    /// Creates a normalized route update from explicit replica collections;
    /// remote replicas are sorted and deduplicated.
    pub fn new(
        remote_replicas: Vec<ReplicaId>,
        unreachable_replicas: Vec<ReplicaId>,
        removed_replicas: Vec<ReplicaId>,
        is_leader: bool,
    ) -> (r: Self)
        ensures
            ids_view(r.remote_replicas@) == sorted_keys(ids_view(remote_replicas@).to_set()),
            r.unreachable_replicas.wf(),
            r.unreachable_replicas@ == ids_view(unreachable_replicas@).to_set(),
            r.removed_replicas.wf(),
            r.removed_replicas@ == ids_view(removed_replicas@).to_set(),
            r.is_leader == is_leader,
    {
        let remote = id_set(remote_replicas);
        ReplicatorClusterRouteUpdate {
            remote_replicas: sorted_ids(&remote),
            unreachable_replicas: id_set(unreachable_replicas),
            removed_replicas: id_set(removed_replicas),
            is_leader,
        }
    }
}

/// The replicator actor's observable result after applying a route update.
#[derive(Debug, Clone, PartialEq, Eq)]
pub struct ReplicatorClusterRouteReport {
    /// Remote replicas installed in the replicator.
    pub remote_replicas: Vec<ReplicaId>,
    /// Unreachable role-matching members installed in the replicator.
    pub unreachable_replicas: SortedSet<ReplicaId>,
    /// Newly recorded removed replicas; already-known removals are omitted.
    pub recorded_removed: SortedSet<ReplicaId>,
}

impl ReplicatorClusterRouteReport {
    /// Both sets of the report are well formed.
    pub open spec fn wf(&self) -> bool {
        self.unreachable_replicas.wf() && self.recorded_removed.wf()
    }

    /// Abstract value: remote replicas, unreachable and newly removed replicas.
    pub open spec fn report_view(&self) -> (Seq<Seq<char>>, Set<Seq<char>>, Set<Seq<char>>) {
        (ids_view(self.remote_replicas@), self.unreachable_replicas@, self.recorded_removed@)
    }

    /// A copy of the report.
    pub fn duplicate(&self) -> (r: Self)
        requires
            self.wf(),
        ensures
            r.wf(),
            r.report_view() == self.report_view(),
    {
        ReplicatorClusterRouteReport {
            remote_replicas: copy_ids(&self.remote_replicas),
            unreachable_replicas: self.unreachable_replicas.duplicate(),
            recorded_removed: self.recorded_removed.duplicate(),
        }
    }
}

fn status_rank_of(s: MemberStatus) -> (r: u8)
    ensures
        r == status_rank(s),
{
    match s {
        MemberStatus::Up | MemberStatus::Leaving => 0,
        MemberStatus::WeaklyUp => 1,
        MemberStatus::Joining => 2,
        MemberStatus::Exiting => 3,
        MemberStatus::Down => 4,
        MemberStatus::Removed => 5,
    }
}

/// Role-filtered cluster state used by one distributed-data replicator.
///
/// Remote routes include `WeaklyUp`, `Up`, `Leaving`, and `Exiting` replicas.
/// A `Down` event keeps an already-live route until the corresponding
/// `Removed` event. Required roles use intersection semantics: a member must
/// advertise every configured role.
#[derive(Debug, Clone, PartialEq, Eq)]
pub struct ReplicatorClusterRoutes {
    self_node: UniqueNode,
    required_roles: SortedSet<String>,
    joining: SortedSet<ReplicaId>,
    weakly_up: SortedSet<ReplicaId>,
    up: SortedSet<ReplicaId>,
    exiting: SortedSet<ReplicaId>,
    unreachable: SortedSet<ReplicaId>,
    nodes_by_replica: SortedMap<ReplicaId, UniqueNode>,
    members_by_replica: SortedMap<ReplicaId, ClusterMember>,
}

impl View for ReplicatorClusterRoutes {
    type V = RoutesView;

    closed spec fn view(&self) -> RoutesView {
        RoutesView {
            self_node: self.self_node@,
            roles: self.required_roles@,
            joining: self.joining@,
            weakly_up: self.weakly_up@,
            up: self.up@,
            exiting: self.exiting@,
            unreachable: self.unreachable@,
            nodes: self.nodes_by_replica@,
            members: self.members_by_replica@,
        }
    }
}

/// Every leader candidate is stored under its own replica identity.
pub open spec fn candidates_keyed(v: RoutesView) -> bool {
    forall|r: Seq<char>| #[trigger] v.members.contains_key(r) ==> v.members[r].replica == r
}

impl ReplicatorClusterRoutes {
    /// Structural validity.
    pub closed spec fn wf(&self) -> bool {
        &&& self.required_roles.wf()
        &&& self.joining.wf()
        &&& self.weakly_up.wf()
        &&& self.up.wf()
        &&& self.exiting.wf()
        &&& self.unreachable.wf()
        &&& self.nodes_by_replica.wf()
        &&& self.members_by_replica.wf()
        &&& candidates_keyed(self@)
    }

    /// Creates an empty route projection with no role requirement.
    pub fn new(self_node: UniqueNode) -> (r: Self)
        ensures
            r.wf(),
            r@ == (RoutesView {
                self_node: self_node@,
                roles: Set::empty(),
                joining: Set::empty(),
                weakly_up: Set::empty(),
                up: Set::empty(),
                exiting: Set::empty(),
                unreachable: Set::empty(),
                nodes: Map::empty(),
                members: Map::empty(),
            }),
    {
        ReplicatorClusterRoutes {
            self_node,
            required_roles: SortedSet::new(),
            joining: SortedSet::new(),
            weakly_up: SortedSet::new(),
            up: SortedSet::new(),
            exiting: SortedSet::new(),
            unreachable: SortedSet::new(),
            nodes_by_replica: SortedMap::new(),
            members_by_replica: SortedMap::new(),
        }
    }

    /// Creates an empty route projection requiring every supplied role.
    pub fn with_required_roles(self_node: UniqueNode, roles: Vec<String>) -> (r: Self)
        ensures
            r.wf(),
            r@ == (RoutesView {
                self_node: self_node@,
                roles: roles@.map_values(|s: String| s@).to_set(),
                joining: Set::empty(),
                weakly_up: Set::empty(),
                up: Set::empty(),
                exiting: Set::empty(),
                unreachable: Set::empty(),
                nodes: Map::empty(),
                members: Map::empty(),
            }),
    {
        let mut routes = Self::new(self_node);
        let mut set: SortedSet<String> = SortedSet::new();
        let ghost names = roles@.map_values(|s: String| s@);
        let n = roles.len();
        let mut i: usize = 0;
        while i < n
            invariant
                n == roles@.len(),
                names == roles@.map_values(|s: String| s@),
                i <= n,
                set.wf(),
                set@ == names.take(i as int).to_set(),
            decreases n - i,
        {
            set.insert(roles[i].clone());
            proof {
                assert(names.take(i as int + 1) =~= names.take(i as int).push(names[i as int]));
                names.take(i as int).lemma_push_to_set_commute(names[i as int]);
            }
            i = i + 1;
        }
        proof {
            assert(names.take(n as int) =~= names);
        }
        routes.required_roles = set;
        routes
    }

    /// The local cluster incarnation represented by this projection.
    pub fn self_node(&self) -> (r: &UniqueNode)
        ensures
            r@ == self@.self_node,
    {
        &self.self_node
    }

    fn matches_roles(&self, member: &ClusterMember) -> (r: bool)
        requires
            self.wf(),
        ensures
            r == matches_roles(self@, member@),
    {
        let ghost mroles = member@.roles;
        proof {
            self.required_roles.lemma_wf();
        }
        let n = self.required_roles.len();
        let mut i: usize = 0;
        while i < n
            invariant
                self.wf(),
                n == self.required_roles.key_seq().len(),
                mroles == member@.roles,
                self@.roles == self.required_roles.key_seq().to_set(),
                i <= n,
                forall|q: int| 0 <= q < i ==> mroles.contains(#[trigger] self.required_roles.key_seq()[q]),
            decreases n - i,
        {
            let role = self.required_roles.key_at(i);
            let m = member.roles.len();
            let mut j: usize = 0;
            let mut found = false;
            while j < m && !found
                invariant
                    m == member.roles@.len(),
                    mroles == member@.roles,
                    j <= m,
                    found ==> mroles.contains(role@),
                    !found ==> forall|q: int| 0 <= q < j ==> mroles[q] != role@,
                decreases m - j,
            {
                if same_text(&member.roles[j], role) {
                    found = true;
                    proof {
                        assert(mroles[j as int] == role@);
                    }
                }
                j = j + 1;
            }
            if !found {
                proof {
                    assert(self@.roles.contains(role@));
                    if mroles.contains(role@) {
                        let q = choose|q: int| 0 <= q < mroles.len() && mroles[q] == role@;
                        assert(mroles[q] != role@);
                    }
                }
                return false;
            }
            i = i + 1;
        }
        proof {
            assert forall|r: Seq<char>| #[trigger] self@.roles.contains(r) implies mroles.contains(r) by {
                let q = choose|q: int| 0 <= q < n && self.required_roles.key_seq()[q] == r;
            }
        }
        true
    }

    fn matches_remote(&self, member: &ClusterMember) -> (r: bool)
        requires
            self.wf(),
        ensures
            r == matches_remote(self@, member@),
    {
        !same_text(&member.node.address, &self.self_node.address) && self.matches_roles(member)
    }

    fn remove_live_replica(&mut self, replica: &ReplicaId)
        requires
            old(self).wf(),
        ensures
            final(self).wf(),
            final(self)@ == without_live(old(self)@, replica@),
    {
        self.joining.remove(replica.as_str());
        self.weakly_up.remove(replica.as_str());
        self.up.remove(replica.as_str());
        self.exiting.remove(replica.as_str());
        self.nodes_by_replica.remove(replica.as_str());
    }

    fn add_member_from_status(&mut self, member: &ClusterMember)
        requires
            old(self).wf(),
        ensures
            final(self).wf(),
            final(self)@ == with_status(old(self)@, member@),
    {
        let replica = &member.replica;
        let key = replica.as_str();
        match member.status {
            MemberStatus::Joining => {
                self.nodes_by_replica.insert(replica.duplicate(), member.node.duplicate());
                self.joining.insert(replica.duplicate());
                self.weakly_up.remove(key);
                self.up.remove(key);
                self.exiting.remove(key);
            },
            MemberStatus::WeaklyUp => {
                self.nodes_by_replica.insert(replica.duplicate(), member.node.duplicate());
                self.joining.remove(key);
                self.weakly_up.insert(replica.duplicate());
                self.up.remove(key);
                self.exiting.remove(key);
            },
            MemberStatus::Up | MemberStatus::Leaving => {
                self.nodes_by_replica.insert(replica.duplicate(), member.node.duplicate());
                self.joining.remove(key);
                self.weakly_up.remove(key);
                self.up.insert(replica.duplicate());
                self.exiting.remove(key);
            },
            MemberStatus::Exiting => {
                self.nodes_by_replica.insert(replica.duplicate(), member.node.duplicate());
                self.joining.remove(key);
                self.weakly_up.remove(key);
                self.up.insert(replica.duplicate());
                self.exiting.insert(replica.duplicate());
            },
            MemberStatus::Down => {},
            MemberStatus::Removed => {
                self.remove_live_replica(replica);
            },
        }
    }

    fn record_snapshot_leader_candidate(&mut self, member: &ClusterMember)
        requires
            old(self).wf(),
        ensures
            final(self).wf(),
            final(self)@ == snapshot_candidate(old(self)@, member@),
    {
        match member.status {
            MemberStatus::Up | MemberStatus::Leaving => {
                self.members_by_replica.insert(member.replica.duplicate(), member.duplicate());
            },
            _ => {},
        }
    }

    fn record_event_leader_candidate(&mut self, event: &MemberEvent)
        requires
            old(self).wf(),
        ensures
            final(self).wf(),
            final(self)@ == event_candidate(old(self)@, *event),
    {
        let member = member_from_event(event);
        let replica = &member.replica;
        match event {
            MemberEvent::Up(_) | MemberEvent::Left(_) => {
                self.members_by_replica.insert(replica.duplicate(), member.duplicate());
            },
            MemberEvent::Downed(_) => {
                if self.members_by_replica.contains_key(replica.as_str()) {
                    self.members_by_replica.insert(replica.duplicate(), member.duplicate());
                }
            },
            MemberEvent::Removed { .. } => {
                self.remove_member(replica);
            },
            _ => {},
        }
    }

    fn remove_member(&mut self, replica: &ReplicaId)
        requires
            old(self).wf(),
        ensures
            final(self).wf(),
            final(self)@ == (RoutesView {
                members: old(self)@.members.remove(replica@),
                ..old(self)@
            }),
    {
        self.members_by_replica.remove(replica.as_str());
    }

    /// Routable remote replicas in ascending identity order. Joining members
    /// are excluded; a downed replica stays until its final removal.
    pub fn remote_replicas(&self) -> (r: Vec<ReplicaId>)
        requires
            self.wf(),
        ensures
            ids_view(r@) == sorted_keys(routable(self@)),
            strictly_sorted(ids_view(r@)),
            ids_view(r@).to_set() == routable(self@),
    {
        let all = self.up.union(&self.weakly_up);
        sorted_ids(&all)
    }

    /// Routable remote nodes, in replica identity order.
    pub fn remote_nodes(&self) -> (r: Vec<UniqueNode>)
        requires
            self.wf(),
        ensures
            nodes_view(r@) == known_nodes(sorted_keys(routable(self@)), self@.nodes),
    {
        let replicas = self.remote_replicas();
        let ghost rs = ids_view(replicas@);
        let mut out: Vec<UniqueNode> = Vec::new();
        let n = replicas.len();
        let mut i: usize = 0;
        while i < n
            invariant
                self.wf(),
                n == replicas@.len(),
                rs == ids_view(replicas@),
                i <= n,
                nodes_view(out@) == known_nodes(rs.take(i as int), self@.nodes),
            decreases n - i,
        {
            proof {
                assert(rs.take(i as int + 1).drop_last() =~= rs.take(i as int));
                assert(rs.take(i as int + 1).last() == rs[i as int]);
            }
            let ghost prev = out@;
            match self.nodes_by_replica.get(replicas[i].as_str()) {
                Some(node) => {
                    out.push(node.duplicate());
                    proof {
                        assert(nodes_view(out@) =~= nodes_view(prev).push(self@.nodes[rs[i as int]]));
                    }
                },
                None => {},
            }
            i = i + 1;
        }
        proof {
            assert(rs.take(n as int) =~= rs);
        }
        out
    }

    /// All unreachable role-matching remote members, routable or not.
    pub fn unreachable_replicas(&self) -> (r: SortedSet<ReplicaId>)
        requires
            self.wf(),
        ensures
            r.wf(),
            r@ == self@.unreachable,
    {
        self.unreachable.duplicate()
    }

    /// Whether the local node is the role-scoped replicator leader: the first
    /// candidate in leader order, which must itself be `Up`.
    pub fn is_leader(&self) -> (r: bool)
        requires
            self.wf(),
        ensures
            r == is_leader_spec(self@),
    {
        let ghost v = self@;
        let ghost ks = self.members_by_replica.key_seq();
        let ghost vs = self.members_by_replica.value_seq();
        proof {
            self.members_by_replica.lemma_wf();
        }
        let n = self.members_by_replica.len();
        if n == 0 {
            proof {
                if is_leader_spec(v) {
                    let r = choose|r: Seq<char>|
                        #[trigger] v.members.contains_key(r) && (forall|r2: Seq<char>|
                            v.members.contains_key(r2) ==> leader_le(
                                v.members[r],
                                #[trigger] v.members[r2],
                            )) && v.members[r].status == MemberStatus::Up && v.members[r].node
                            == v.self_node;
                    assert(ks.to_set().contains(r));
                }
            }
            return false;
        }
        let mut best: usize = 0;
        let mut best_rank = status_rank_of(self.members_by_replica.value_at(0).status);
        let mut i: usize = 1;
        while i < n
            invariant
                self.wf(),
                n == ks.len(),
                n == vs.len(),
                ks == self.members_by_replica.key_seq(),
                vs == self.members_by_replica.value_seq(),
                best < i <= n,
                best_rank == status_rank(vs[best as int].status),
                forall|j: int| 0 <= j < i ==> best_rank <= status_rank(#[trigger] vs[j].status),
                forall|j: int| 0 <= j < best ==> best_rank < status_rank(#[trigger] vs[j].status),
            decreases n - i,
        {
            let rank = status_rank_of(self.members_by_replica.value_at(i).status);
            if rank < best_rank {
                best = i;
                best_rank = rank;
            }
            i = i + 1;
        }
        let leader = self.members_by_replica.value_at(best);
        let is_up = match leader.status {
            MemberStatus::Up => true,
            _ => false,
        };
        let r = is_up && same_text(&leader.node.address, &self.self_node.address) && leader.node.uid
            == self.self_node.uid;
        proof {
            let rb = ks[best as int];
            assert(v.members.contains_key(rb) && v.members[rb] == vs[best as int]);
            assert forall|r2: Seq<char>| v.members.contains_key(r2) implies leader_le(
                v.members[rb],
                #[trigger] v.members[r2],
            ) by {
                assert(ks.to_set().contains(r2));
                let q = choose|q: int| 0 <= q < ks.len() && ks[q] == r2;
                lemma_sorted_pos(ks, q);
                assert(v.members[r2] == vs[q]);
                assert(v.members[r2].replica == r2);
                assert(v.members[rb].replica == rb);
                if q > best {
                    assert(key_lt(ks[best as int], ks[q]));
                }
            }
            if is_leader_spec(v) {
                let w = choose|w: Seq<char>|
                    #[trigger] v.members.contains_key(w) && (forall|r2: Seq<char>|
                        v.members.contains_key(r2) ==> leader_le(
                            v.members[w],
                            #[trigger] v.members[r2],
                        )) && v.members[w].status == MemberStatus::Up && v.members[w].node
                        == v.self_node;
                assert(leader_le(v.members[w], v.members[rb]));
                assert(leader_le(v.members[rb], v.members[w]));
                assert(v.members[w].replica == w);
                assert(w == rb);
            }
            if r {
                assert(v.members[rb].node == v.self_node);
            }
        }
        r
    }

    /// The current route update, without any new removals.
    pub fn update(&self) -> (r: ReplicatorClusterRouteUpdate)
        requires
            self.wf(),
        ensures
            update_describes(r, self@, Set::empty()),
    {
        let r = ReplicatorClusterRouteUpdate {
            remote_replicas: self.remote_replicas(),
            unreachable_replicas: self.unreachable_replicas(),
            removed_replicas: SortedSet::new(),
            is_leader: self.is_leader(),
        };
        r
    }

    /// Applies one cluster event and returns the resulting replicator update.
    ///
    /// Only a final removal of a role-matching remote member is reported as
    /// removed. Leader-change events are ignored: leadership is derived from
    /// the matching members.
    pub fn apply_event(&mut self, event: &ClusterEvent) -> (r: ReplicatorClusterRouteUpdate)
        requires
            old(self).wf(),
        ensures
            final(self).wf(),
            final(self)@ == routes_after(old(self)@, *event),
            update_describes(r, final(self)@, removed_by(old(self)@, *event)),
    {
        let mut removed_replicas: SortedSet<ReplicaId> = SortedSet::new();
        match event {
            ClusterEvent::Member(MemberEvent::Removed { member, .. }) => {
                let remote = self.matches_remote(member);
                if self.matches_roles(member) {
                    self.remove_member(&member.replica);
                }
                if remote {
                    self.remove_live_replica(&member.replica);
                    self.unreachable.remove(member.replica.as_str());
                    removed_replicas.insert(member.replica.duplicate());
                    proof {
                        assert(removed_replicas@ =~= set![member@.replica]);
                    }
                }
            },
            ClusterEvent::Member(me) => {
                let member = member_from_event(me);
                if self.matches_roles(member) {
                    let remote = self.matches_remote(member);
                    self.record_event_leader_candidate(me);
                    if remote {
                        self.add_member_from_status(member);
                    }
                }
            },
            ClusterEvent::Reachability(ReachabilityEvent::Unreachable(member)) => {
                if self.matches_remote(member) {
                    self.unreachable.insert(member.replica.duplicate());
                }
            },
            ClusterEvent::Reachability(ReachabilityEvent::Reachable(member)) => {
                if self.matches_remote(member) {
                    self.unreachable.remove(member.replica.as_str());
                }
            },
            ClusterEvent::Other => {},
        }
        ReplicatorClusterRouteUpdate {
            remote_replicas: self.remote_replicas(),
            unreachable_replicas: self.unreachable_replicas(),
            removed_replicas,
            is_leader: self.is_leader(),
        }
    }

    /// Builds a complete route projection from a cluster snapshot.
    ///
    /// Down members present only in the snapshot are not made routable, while
    /// their reachability observations are kept so pruning time cannot
    /// advance through an unhealthy role-scoped view.
    pub fn from_current_state(self_node: UniqueNode, state: &ClusterSnapshot, roles: Vec<String>) -> (r:
        Self)
        ensures
            r.wf(),
            r@ == snapshot_unreachable(
                snapshot_members(
                    Self::with_required_roles_view(self_node@, roles@.map_values(|s: String| s@)),
                    state.members@,
                ),
                state.unreachable@,
            ),
    {
        let mut routes = Self::with_required_roles(self_node, roles);
        let ghost v0 = routes@;
        let n = state.members.len();
        let mut i: usize = 0;
        while i < n
            invariant
                routes.wf(),
                n == state.members@.len(),
                i <= n,
                routes@ == snapshot_members(v0, state.members@.take(i as int)),
            decreases n - i,
        {
            let member = &state.members[i];
            proof {
                assert(state.members@.take(i as int + 1).drop_last() =~= state.members@.take(i as int));
            }
            if routes.matches_roles(member) {
                let remote = routes.matches_remote(member);
                routes.record_snapshot_leader_candidate(member);
                if remote {
                    routes.add_member_from_status(member);
                }
            }
            i = i + 1;
        }
        proof {
            assert(state.members@.take(n as int) =~= state.members@);
        }
        let ghost v1 = routes@;
        let m = state.unreachable.len();
        let mut j: usize = 0;
        while j < m
            invariant
                routes.wf(),
                m == state.unreachable@.len(),
                j <= m,
                routes@ == snapshot_unreachable(v1, state.unreachable@.take(j as int)),
            decreases m - j,
        {
            let member = &state.unreachable[j];
            proof {
                assert(state.unreachable@.take(j as int + 1).drop_last() =~= state.unreachable@.take(
                    j as int,
                ));
            }
            if routes.matches_remote(member) {
                routes.unreachable.insert(member.replica.duplicate());
            }
            j = j + 1;
        }
        proof {
            assert(state.unreachable@.take(m as int) =~= state.unreachable@);
        }
        routes
    }

    /// The empty projection of `self_node` requiring `roles`.
    pub open spec fn with_required_roles_view(self_node: (Seq<char>, u64), roles: Seq<Seq<char>>) -> RoutesView {
        RoutesView {
            self_node: self_node,
            roles: roles.to_set(),
            joining: Set::empty(),
            weakly_up: Set::empty(),
            up: Set::empty(),
            exiting: Set::empty(),
            unreachable: Set::empty(),
            nodes: Map::empty(),
            members: Map::empty(),
        }
    }
}


/// After the final removal of a role-matching remote member, its replica is
/// neither routable, unreachable nor a leader candidate, and it is reported
/// as removed.
pub proof fn lemma_removed_member_leaves_routes(v: RoutesView, member: ClusterMember, previous: MemberStatus)
    requires
        matches_remote(v, member@),
    ensures
        ({
            let e = ClusterEvent::Member(MemberEvent::Removed { member, previous_status: previous });
            let w = routes_after(v, e);
            &&& !routable(w).contains(member@.replica)
            &&& !w.unreachable.contains(member@.replica)
            &&& !w.members.contains_key(member@.replica)
            &&& removed_by(v, e) == set![member@.replica]
        }),
{
}

/// A downed member keeps its route until it is finally removed.
pub proof fn lemma_downed_member_stays_routable(v: RoutesView, member: ClusterMember)
    requires
        member@.status == MemberStatus::Down,
    ensures
        routable(routes_after(v, ClusterEvent::Member(MemberEvent::Downed(member)))) == routable(v),
        routes_after(v, ClusterEvent::Member(MemberEvent::Downed(member))).unreachable == v.unreachable,
{
}

/// Reachability observations never change which replicas are routable.
pub proof fn lemma_reachability_keeps_routes(v: RoutesView, e: ReachabilityEvent)
    ensures
        routable(routes_after(v, ClusterEvent::Reachability(e))) == routable(v),
        routes_after(v, ClusterEvent::Reachability(e)).members == v.members,
{
}
} // verus!
