//! Decisions of the cluster connector that feeds membership into the
//! replicator: route updates, the all-reachable clock, pruning ticks and
//! diagnostics snapshots.
//!
//! The connector's actor loop performs each returned action and hands the
//! next event back; clocks are read by that loop and arrive as values.
use vstd::prelude::*;

use std::time::{Duration, Instant};

use crate::cluster_routes::{
    is_leader_spec, routable, routes_after, removed_by, snapshot_members, snapshot_unreachable,
    update_describes, ClusterEvent, ClusterSnapshot, MemberEvent, ReplicatorClusterRouteReport,
    ReplicatorClusterRouteUpdate, ReplicatorClusterRoutes, RoutesView, UniqueNode,
};
use crate::lww_register::unix_time_millis;
use crate::order::{compare_str, KeyOrder};
use crate::pruning::{RemovedNodePruningTick, RemovedNodePruningTickReport};
use crate::replica::{copy_ids, ids_view, ReplicaId};
use crate::settings::{duration_from_millis, duration_nanos, nanos_of};
use crate::sorted_map::{sorted_keys, Duplicate};
use crate::sorted_set::SortedSet;

verus! {

/// Pruning delays handed to each removed-node pruning pass.
#[derive(Debug, Clone, Copy, PartialEq, Eq, Structural)]
pub struct ReplicatorClusterPruningSettings {
    /// Required all-reachable dissemination delay before initialization.
    pub max_pruning_dissemination_nanos: u64,
    /// Retention of a performed pruning marker.
    pub pruning_marker_ttl_millis: u64,
}

impl ReplicatorClusterPruningSettings {
    /// Settings with the given dissemination delay and marker retention.
    pub fn new(max_pruning_dissemination_nanos: u64, pruning_marker_ttl_millis: u64) -> (r: Self)
        ensures
            r.max_pruning_dissemination_nanos == max_pruning_dissemination_nanos,
            r.pruning_marker_ttl_millis == pruning_marker_ttl_millis,
    {
        ReplicatorClusterPruningSettings { max_pruning_dissemination_nanos, pruning_marker_ttl_millis }
    }
}

/// Optional schedules for connector-owned reachability and pruning ticks.
///
/// Enabled intervals should be non-zero; [`Self::disabled`] supports
/// deterministic manual driving.
#[derive(Debug, Clone, Copy, PartialEq, Eq)]
pub struct ReplicatorClusterConnectorTimingSettings {
    /// Interval for advancing the monotonic all-reachable clock.
    pub clock_interval: Option<Duration>,
    /// Interval for running removed-node pruning.
    pub pruning_interval: Option<Duration>,
    /// Delay before both periodic tasks first run.
    pub periodic_tasks_initial_delay: Duration,
}

impl ReplicatorClusterConnectorTimingSettings {
    /// Disables both connector-owned periodic tasks.
    pub fn disabled() -> (r: Self)
        ensures
            (r.clock_interval is None),
            (r.pruning_interval is None),
            duration_nanos(r.periodic_tasks_initial_delay) == 0,
    {
        ReplicatorClusterConnectorTimingSettings {
            clock_interval: None,
            pruning_interval: None,
            periodic_tasks_initial_delay: duration_from_millis(0),
        }
    }

    /// Enables both periodic tasks with the given intervals.
    pub fn new(clock_interval: Duration, pruning_interval: Duration) -> (r: Self)
        ensures
            r.clock_interval == Some(clock_interval),
            r.pruning_interval == Some(pruning_interval),
            duration_nanos(r.periodic_tasks_initial_delay) == 0,
    {
        ReplicatorClusterConnectorTimingSettings {
            clock_interval: Some(clock_interval),
            pruning_interval: Some(pruning_interval),
            periodic_tasks_initial_delay: duration_from_millis(0),
        }
    }

    /// Replaces or disables the monotonic clock interval.
    pub fn with_clock_interval(self, interval: Option<Duration>) -> (r: Self)
        ensures
            r == (ReplicatorClusterConnectorTimingSettings { clock_interval: interval, ..self }),
    {
        ReplicatorClusterConnectorTimingSettings { clock_interval: interval, ..self }
    }

    /// Replaces or disables the removed-node pruning interval.
    pub fn with_pruning_interval(self, interval: Option<Duration>) -> (r: Self)
        ensures
            r == (ReplicatorClusterConnectorTimingSettings { pruning_interval: interval, ..self }),
    {
        ReplicatorClusterConnectorTimingSettings { pruning_interval: interval, ..self }
    }

    /// Sets the delay before either enabled periodic task first runs.
    pub fn with_periodic_tasks_initial_delay(self, delay: Duration) -> (r: Self)
        ensures
            r == (ReplicatorClusterConnectorTimingSettings { periodic_tasks_initial_delay: delay, ..self }),
    {
        ReplicatorClusterConnectorTimingSettings { periodic_tasks_initial_delay: delay, ..self }
    }
}

impl Default for ReplicatorClusterConnectorTimingSettings {
    fn default() -> (r: Self)
        ensures
            (r.clock_interval is None),
            (r.pruning_interval is None),
            duration_nanos(r.periodic_tasks_initial_delay) == 0,
    {
        Self::disabled()
    }
}

/// Supplies monotonic and wall-clock time to connector lifecycle tasks.
pub trait ReplicatorClusterConnectorClock {
    /// Monotonic timestamp in nanoseconds for reachability duration accounting.
    fn monotonic_nanos(&self) -> u64;

    /// Milliseconds since the Unix epoch for pruning-marker expiry.
    fn wall_millis(&self) -> u64;
}

#[verifier::external_type_specification]
#[verifier::external_body]
pub struct ExInstant(Instant);

/// `Instant::now`: the current monotonic instant; nothing is promised of it.
#[verifier::external_body]
fn instant_now() -> Instant {
    Instant::now()
}

/// `Instant::elapsed`: the time since `start`; nothing is promised of it.
#[verifier::external_body]
fn elapsed_since(start: &Instant) -> Duration {
    start.elapsed()
}

/// `value`, capped at `u64::MAX`.
fn saturate_u64(value: u128) -> (r: u64)
    ensures
        r == if value > u64::MAX as u128 {
            u64::MAX as int
        } else {
            value as int
        },
{
    if value > u64::MAX as u128 {
        u64::MAX
    } else {
        value as u64
    }
}

/// Production connector clock backed by the monotonic and system clocks.
#[derive(Debug)]
pub struct SystemReplicatorClusterConnectorClock {
    started_at: Instant,
}

impl SystemReplicatorClusterConnectorClock {
    /// Starts a new monotonic clock at the current instant.
    pub fn new() -> Self {
        SystemReplicatorClusterConnectorClock { started_at: instant_now() }
    }
}

impl ReplicatorClusterConnectorClock for SystemReplicatorClusterConnectorClock {
    /// Nanoseconds since the clock started, saturating at `u64::MAX`.
    fn monotonic_nanos(&self) -> u64 {
        let elapsed = elapsed_since(&self.started_at);
        saturate_u64(nanos_of(&elapsed))
    }

    /// Unix-epoch milliseconds, saturating at `u64::MAX`.
    fn wall_millis(&self) -> u64 {
        saturate_u64(unix_time_millis())
    }
}

/// Which target registries accepted routes in the last registration pass.
#[derive(Debug, Clone, PartialEq, Eq)]
pub struct ReplicatorRemoteRouteRegistrationReport {
    /// Replicas registered for delta propagation.
    pub delta: Vec<ReplicaId>,
    /// Replicas registered for read/write aggregation.
    pub aggregation: Vec<ReplicaId>,
    /// Replicas registered for full-state gossip.
    pub gossip: Vec<ReplicaId>,
}

impl ReplicatorRemoteRouteRegistrationReport {
    /// A report of the replicas each registry accepted.
    pub fn new(delta: Vec<ReplicaId>, aggregation: Vec<ReplicaId>, gossip: Vec<ReplicaId>) -> (r: Self)
        ensures
            r == (ReplicatorRemoteRouteRegistrationReport { delta, aggregation, gossip }),
    {
        ReplicatorRemoteRouteRegistrationReport { delta, aggregation, gossip }
    }

    /// Abstract value: the replicas each registry accepted.
    pub open spec fn report_view(&self) -> (Seq<Seq<char>>, Seq<Seq<char>>, Seq<Seq<char>>) {
        (ids_view(self.delta@), ids_view(self.aggregation@), ids_view(self.gossip@))
    }

    /// A copy of the report.
    pub fn duplicate(&self) -> (r: Self)
        ensures
            r.report_view() == self.report_view(),
    {
        ReplicatorRemoteRouteRegistrationReport {
            delta: copy_ids(&self.delta),
            aggregation: copy_ids(&self.aggregation),
            gossip: copy_ids(&self.gossip),
        }
    }
}

/// Connector diagnostics: the projected routes, the all-reachable clock and
/// the last reports received from the replicator.
#[derive(Debug, PartialEq, Eq)]
pub struct ReplicatorClusterConnectorSnapshot {
    pub remote_replicas: Vec<ReplicaId>,
    pub unreachable_replicas: SortedSet<ReplicaId>,
    pub is_leader: bool,
    pub all_reachable_time_nanos: u64,
    pub last_report: Option<ReplicatorClusterRouteReport>,
    pub last_pruning_report: Option<RemovedNodePruningTickReport>,
    pub last_target_registration: Option<ReplicatorRemoteRouteRegistrationReport>,
}

/// An input to the connector.
pub enum ReplicatorClusterConnectorEvent {
    /// A complete cluster snapshot.
    CurrentState(ClusterSnapshot),
    /// One cluster event.
    Cluster(ClusterEvent),
    /// The replicator applied a route update.
    RouteApplied(ReplicatorClusterRouteReport),
    /// The replicator ran a pruning pass.
    PruningTickApplied(RemovedNodePruningTickReport),
    /// The monotonic clock read `now_nanos`.
    ClockTick { now_nanos: u64 },
    /// Overrides the accumulated all-reachable time.
    SetAllReachableTimeNanos(u64),
    /// Replaces the pruning settings.
    SetPruningSettings(ReplicatorClusterPruningSettings),
    /// Requests a pruning pass at wall time `now_millis`.
    RunRemovedNodePruning { now_millis: u64 },
    /// Records the outcome of a target registration pass.
    TargetsRegistered(ReplicatorRemoteRouteRegistrationReport),
    /// Requests a diagnostics snapshot.
    Snapshot,
}

/// What the connector's loop must do next.
pub enum ReplicatorClusterConnectorAction {
    /// Nothing.
    Idle,
    /// The local member was removed: stop the connector.
    Stop,
    /// Register remote targets, then hand `update` to the replicator.
    ApplyRouteUpdate { update: ReplicatorClusterRouteUpdate, all_reachable_time_nanos: u64 },
    /// Hand `tick` to the replicator's pruning pass.
    RunRemovedNodePruning(RemovedNodePruningTick),
    /// Reply with `snapshot`.
    ReplySnapshot(ReplicatorClusterConnectorSnapshot),
}

/// The all-reachable clock after a tick at `now`: time since the previous
/// tick is added, saturating, only while nothing is unreachable.
pub open spec fn clock_after(all_reachable: u64, previous: Option<u64>, all_healthy: bool, now: u64) -> u64 {
    match previous {
        Some(p) => if all_healthy {
            let elapsed: int = if now >= p {
                now - p
            } else {
                0
            };
            if all_reachable + elapsed > u64::MAX {
                u64::MAX
            } else {
                (all_reachable + elapsed) as u64
            }
        } else {
            all_reachable
        },
        None => all_reachable,
    }
}

/// The event removes the member at the local node's address.
pub open spec fn removes_self(v: RoutesView, e: ClusterEvent) -> bool {
    match e {
        ClusterEvent::Member(MemberEvent::Removed { member, .. }) => member@.node.0 == v.self_node.0,
        _ => false,
    }
}

/// The reports an event carries are well formed.
pub open spec fn event_wf(e: ReplicatorClusterConnectorEvent) -> bool {
    match e {
        ReplicatorClusterConnectorEvent::RouteApplied(r) => r.wf(),
        ReplicatorClusterConnectorEvent::PruningTickApplied(r) => r.wf(),
        _ => true,
    }
}

/// Copies an optional report, its content by view.
pub open spec fn same_route_report(
    a: Option<ReplicatorClusterRouteReport>,
    b: Option<ReplicatorClusterRouteReport>,
) -> bool {
    match (a, b) {
        (Some(x), Some(y)) => x.wf() && x.report_view() == y.report_view(),
        (None, None) => true,
        _ => false,
    }
}

/// Copies an optional pruning report, its content by view.
pub open spec fn same_pruning_report(
    a: Option<RemovedNodePruningTickReport>,
    b: Option<RemovedNodePruningTickReport>,
) -> bool {
    match (a, b) {
        (Some(x), Some(y)) => x.wf() && x.report_view() == y.report_view(),
        (None, None) => true,
        _ => false,
    }
}

/// Copies an optional registration report, its content by view.
pub open spec fn same_registration(
    a: Option<ReplicatorRemoteRouteRegistrationReport>,
    b: Option<ReplicatorRemoteRouteRegistrationReport>,
) -> bool {
    match (a, b) {
        (Some(x), Some(y)) => x.report_view() == y.report_view(),
        (None, None) => true,
        _ => false,
    }
}

/// The connector's decision state.
pub struct ReplicatorClusterConnectorState {
    routes: ReplicatorClusterRoutes,
    self_replica: ReplicaId,
    required_roles: Vec<String>,
    last_report: Option<ReplicatorClusterRouteReport>,
    last_pruning_report: Option<RemovedNodePruningTickReport>,
    last_target_registration: Option<ReplicatorRemoteRouteRegistrationReport>,
    all_reachable_time_nanos: u64,
    previous_clock_time_nanos: Option<u64>,
    pruning_settings: ReplicatorClusterPruningSettings,
    timing_settings: ReplicatorClusterConnectorTimingSettings,
}

impl ReplicatorClusterConnectorState {
    /// Structural validity.
    pub closed spec fn wf(&self) -> bool {
        &&& self.routes.wf()
        &&& (self.last_report matches Some(r) ==> r.wf())
        &&& (self.last_pruning_report matches Some(r) ==> r.wf())
    }

    /// The route projection.
    pub closed spec fn routes_view(&self) -> RoutesView {
        self.routes@
    }

    /// The local replica identity.
    pub closed spec fn self_replica_spec(&self) -> Seq<char> {
        self.self_replica@
    }

    /// The roles a member must advertise.
    pub closed spec fn roles_spec(&self) -> Seq<Seq<char>> {
        self.required_roles@.map_values(|s: String| s@)
    }

    /// Accumulated all-reachable time.
    pub closed spec fn all_reachable_spec(&self) -> u64 {
        self.all_reachable_time_nanos
    }

    /// Monotonic time of the previous clock tick.
    pub closed spec fn previous_clock_spec(&self) -> Option<u64> {
        self.previous_clock_time_nanos
    }

    /// Pruning settings.
    pub closed spec fn pruning_spec(&self) -> ReplicatorClusterPruningSettings {
        self.pruning_settings
    }

    /// Timing settings.
    pub closed spec fn timing_spec(&self) -> ReplicatorClusterConnectorTimingSettings {
        self.timing_settings
    }

    /// Last route report.
    pub closed spec fn last_report_spec(&self) -> Option<ReplicatorClusterRouteReport> {
        self.last_report
    }

    /// Last pruning report.
    pub closed spec fn last_pruning_report_spec(&self) -> Option<RemovedNodePruningTickReport> {
        self.last_pruning_report
    }

    /// Last target registration.
    pub closed spec fn last_registration_spec(&self) -> Option<ReplicatorRemoteRouteRegistrationReport> {
        self.last_target_registration
    }

    /// A connector for `self_node`, whose replica identity is
    /// `self_replica`, requiring `roles`, with no reports, a zero clock, zero
    /// pruning delays and no periodic tasks.
    pub fn with_required_roles(self_node: UniqueNode, self_replica: ReplicaId, roles: Vec<String>) -> (r:
        Self)
        ensures
            r.wf(),
            r.self_replica_spec() == self_replica@,
            r.routes_view() == ReplicatorClusterRoutes::with_required_roles_view(
                self_node@,
                roles@.map_values(|s: String| s@),
            ),
            r.roles_spec() == roles@.map_values(|s: String| s@),
            r.all_reachable_spec() == 0,
            (r.previous_clock_spec() is None),
            r.pruning_spec() == (ReplicatorClusterPruningSettings {
                max_pruning_dissemination_nanos: 0,
                pruning_marker_ttl_millis: 0,
            }),
            (r.timing_spec().clock_interval is None),
            (r.timing_spec().pruning_interval is None),
            (r.last_report_spec() is None),
            (r.last_pruning_report_spec() is None),
            (r.last_registration_spec() is None),
    {
        let routes = ReplicatorClusterRoutes::with_required_roles(self_node, copy_roles(&roles));
        ReplicatorClusterConnectorState {
            routes,
            self_replica,
            required_roles: roles,
            last_report: None,
            last_pruning_report: None,
            last_target_registration: None,
            all_reachable_time_nanos: 0,
            previous_clock_time_nanos: None,
            pruning_settings: ReplicatorClusterPruningSettings::new(0, 0),
            timing_settings: ReplicatorClusterConnectorTimingSettings::disabled(),
        }
    }

    /// A connector for `self_node`, whose replica identity is
    /// `self_replica`, with no role requirement.
    pub fn new(self_node: UniqueNode, self_replica: ReplicaId) -> (r: Self)
        ensures
            r.wf(),
            r.self_replica_spec() == self_replica@,
            r.routes_view() == ReplicatorClusterRoutes::with_required_roles_view(self_node@, Seq::empty()),
            r.roles_spec() == Seq::<Seq<char>>::empty(),
            r.all_reachable_spec() == 0,
            (r.previous_clock_spec() is None),
            (r.last_report_spec() is None),
            (r.last_pruning_report_spec() is None),
            (r.last_registration_spec() is None),
    {
        let r = Self::with_required_roles(self_node, self_replica, Vec::new());
        proof {
            assert(Seq::<String>::empty().map_values(|s: String| s@) =~= Seq::<Seq<char>>::empty());
        }
        r
    }

    /// Starts the all-reachable clock at `all_reachable_time_nanos`.
    pub fn with_all_reachable_time_nanos(self, all_reachable_time_nanos: u64) -> (r: Self)
        requires
            self.wf(),
        ensures
            r.wf(),
            r.all_reachable_spec() == all_reachable_time_nanos,
            r.routes_view() == self.routes_view(),
            r.previous_clock_spec() == self.previous_clock_spec(),
            r.pruning_spec() == self.pruning_spec(),
    {
        ReplicatorClusterConnectorState { all_reachable_time_nanos, ..self }
    }

    /// Replaces the pruning settings.
    pub fn with_pruning_settings(self, settings: ReplicatorClusterPruningSettings) -> (r: Self)
        requires
            self.wf(),
        ensures
            r.wf(),
            r.pruning_spec() == settings,
            r.routes_view() == self.routes_view(),
            r.all_reachable_spec() == self.all_reachable_spec(),
            r.previous_clock_spec() == self.previous_clock_spec(),
    {
        ReplicatorClusterConnectorState { pruning_settings: settings, ..self }
    }

    /// Replaces the timing settings.
    pub fn with_timing_settings(self, settings: ReplicatorClusterConnectorTimingSettings) -> (r: Self)
        requires
            self.wf(),
        ensures
            r.wf(),
            r.timing_spec() == settings,
            r.routes_view() == self.routes_view(),
            r.all_reachable_spec() == self.all_reachable_spec(),
            r.previous_clock_spec() == self.previous_clock_spec(),
            r.pruning_spec() == self.pruning_spec(),
    {
        ReplicatorClusterConnectorState { timing_settings: settings, ..self }
    }

    /// The route projection.
    pub fn routes(&self) -> (r: &ReplicatorClusterRoutes)
        requires
            self.wf(),
        ensures
            r.wf(),
            r@ == self.routes_view(),
    {
        &self.routes
    }

    /// The timing settings.
    pub fn timing_settings(&self) -> (r: ReplicatorClusterConnectorTimingSettings)
        ensures
            r == self.timing_spec(),
    {
        self.timing_settings
    }

    /// Starts the all-reachable clock at monotonic time `now_nanos` when the
    /// clock task is enabled; a disabled clock is left unstarted.
    pub fn start_clock(&mut self, now_nanos: u64)
        requires
            old(self).wf(),
        ensures
            final(self).wf(),
            final(self).self_replica_spec() == old(self).self_replica_spec(),
            final(self).roles_spec() == old(self).roles_spec(),
            final(self).last_registration_spec() == old(self).last_registration_spec(),
            final(self).previous_clock_spec() == if old(self).timing_spec().clock_interval is Some {
                Some(now_nanos)
            } else {
                old(self).previous_clock_spec()
            },
            final(self).routes_view() == old(self).routes_view(),
            final(self).all_reachable_spec() == old(self).all_reachable_spec(),
            final(self).pruning_spec() == old(self).pruning_spec(),
            final(self).timing_spec() == old(self).timing_spec(),
    {
        if self.timing_settings.clock_interval.is_some() {
            self.previous_clock_time_nanos = Some(now_nanos);
        }
    }

    /// Advances the all-reachable clock to monotonic time `now_nanos`.
    pub fn advance_all_reachable_clock(&mut self, now_nanos: u64)
        requires
            old(self).wf(),
        ensures
            final(self).wf(),
            final(self).self_replica_spec() == old(self).self_replica_spec(),
            final(self).roles_spec() == old(self).roles_spec(),
            final(self).last_registration_spec() == old(self).last_registration_spec(),
            final(self).all_reachable_spec() == clock_after(
                old(self).all_reachable_spec(),
                old(self).previous_clock_spec(),
                old(self).routes_view().unreachable.len() == 0,
                now_nanos,
            ),
            final(self).previous_clock_spec() == Some(now_nanos),
            final(self).routes_view() == old(self).routes_view(),
            final(self).pruning_spec() == old(self).pruning_spec(),
            final(self).timing_spec() == old(self).timing_spec(),
            final(self).last_report_spec() == old(self).last_report_spec(),
            final(self).last_pruning_report_spec() == old(self).last_pruning_report_spec(),
    {
        match self.previous_clock_time_nanos {
            Some(previous) => {
                let unreachable = self.routes.unreachable_replicas();
                if unreachable.is_empty() {
                    let elapsed = if now_nanos >= previous {
                        now_nanos - previous
                    } else {
                        0
                    };
                    self.all_reachable_time_nanos =
                        if self.all_reachable_time_nanos > u64::MAX - elapsed {
                            u64::MAX
                        } else {
                            self.all_reachable_time_nanos + elapsed
                        };
                }
            },
            None => {},
        }
        self.previous_clock_time_nanos = Some(now_nanos);
    }

    /// The pruning pass input at wall time `now_millis`.
    pub fn removed_node_pruning_tick(&self, now_millis: u64) -> (r: RemovedNodePruningTick)
        requires
            self.wf(),
        ensures
            r.self_replica@ == self.self_replica_spec(),
            r.live_replicas.wf(),
            r.live_replicas@ == routable(self.routes_view()),
            r.unreachable_replicas.wf(),
            r.unreachable_replicas@ == self.routes_view().unreachable,
            r.all_reachable_time_nanos == self.all_reachable_spec(),
            r.max_pruning_dissemination_nanos == self.pruning_spec().max_pruning_dissemination_nanos,
            r.now_millis == now_millis,
            r.pruning_marker_ttl_millis == self.pruning_spec().pruning_marker_ttl_millis,
            r.is_leader == is_leader_spec(self.routes_view()),
    {
        let remote = self.routes.remote_replicas();
        let live = ids_to_set(&remote);
        RemovedNodePruningTick {
            self_replica: self.self_replica.duplicate(),
            live_replicas: live,
            unreachable_replicas: self.routes.unreachable_replicas(),
            all_reachable_time_nanos: self.all_reachable_time_nanos,
            max_pruning_dissemination_nanos: self.pruning_settings.max_pruning_dissemination_nanos,
            now_millis,
            pruning_marker_ttl_millis: self.pruning_settings.pruning_marker_ttl_millis,
            is_leader: self.routes.is_leader(),
        }
    }

    /// Whether `event` is the final removal of the member at the local address.
    pub fn is_self_removed_event(&self, event: &ClusterEvent) -> (r: bool)
        ensures
            r == removes_self(self.routes_view(), *event),
    {
        match event {
            ClusterEvent::Member(MemberEvent::Removed { member, .. }) => {
                match compare_str(member.node.address.as_str(), self.routes.self_node().address.as_str()) {
                    KeyOrder::Equal => true,
                    _ => false,
                }
            },
            _ => false,
        }
    }

    /// The connector's diagnostics snapshot.
    pub fn snapshot(&self) -> (r: ReplicatorClusterConnectorSnapshot)
        requires
            self.wf(),
        ensures
            ids_view(r.remote_replicas@) == sorted_keys(routable(self.routes_view())),
            r.unreachable_replicas.wf(),
            r.unreachable_replicas@ == self.routes_view().unreachable,
            r.is_leader == is_leader_spec(self.routes_view()),
            r.all_reachable_time_nanos == self.all_reachable_spec(),
            same_route_report(r.last_report, self.last_report_spec()),
            same_pruning_report(r.last_pruning_report, self.last_pruning_report_spec()),
            same_registration(r.last_target_registration, self.last_registration_spec()),
    {
        let last_report = match &self.last_report {
            Some(report) => Some(report.duplicate()),
            None => None,
        };
        let last_pruning_report = match &self.last_pruning_report {
            Some(report) => Some(report.duplicate()),
            None => None,
        };
        let last_target_registration = match &self.last_target_registration {
            Some(report) => Some(report.duplicate()),
            None => None,
        };
        ReplicatorClusterConnectorSnapshot {
            remote_replicas: self.routes.remote_replicas(),
            unreachable_replicas: self.routes.unreachable_replicas(),
            is_leader: self.routes.is_leader(),
            all_reachable_time_nanos: self.all_reachable_time_nanos,
            last_report,
            last_pruning_report,
            last_target_registration,
        }
    }

    /// Decides the connector's next action for one event.
    ///
    /// The final removal of the local member stops the connector; every
    /// other membership input replaces or advances the route projection and
    /// hands the resulting update, with the all-reachable time, to the
    /// replicator.
    pub fn handle(&mut self, event: ReplicatorClusterConnectorEvent) -> (r: ReplicatorClusterConnectorAction)
        requires
            old(self).wf(),
            event_wf(event),
        ensures
            final(self).wf(),
            final(self).self_replica_spec() == old(self).self_replica_spec(),
            final(self).roles_spec() == old(self).roles_spec(),
            final(self).timing_spec() == old(self).timing_spec(),
            match event {
                ReplicatorClusterConnectorEvent::CurrentState(state) => {
                    &&& final(self).routes_view() == snapshot_unreachable(
                        snapshot_members(
                            ReplicatorClusterRoutes::with_required_roles_view(
                                old(self).routes_view().self_node,
                                old(self).roles_spec(),
                            ),
                            state.members@,
                        ),
                        state.unreachable@,
                    )
                    &&& final(self).all_reachable_spec() == old(self).all_reachable_spec()
                    &&& r matches ReplicatorClusterConnectorAction::ApplyRouteUpdate {
                        update,
                        all_reachable_time_nanos,
                    } && update_describes(update, final(self).routes_view(), Set::empty())
                        && all_reachable_time_nanos == old(self).all_reachable_spec()
                },
                ReplicatorClusterConnectorEvent::Cluster(e) => if removes_self(old(self).routes_view(), e) {
                    &&& r is Stop
                    &&& final(self).routes_view() == old(self).routes_view()
                    &&& final(self).all_reachable_spec() == old(self).all_reachable_spec()
                } else {
                    &&& final(self).routes_view() == routes_after(old(self).routes_view(), e)
                    &&& final(self).all_reachable_spec() == old(self).all_reachable_spec()
                    &&& r matches ReplicatorClusterConnectorAction::ApplyRouteUpdate {
                        update,
                        all_reachable_time_nanos,
                    } && update_describes(
                        update,
                        final(self).routes_view(),
                        removed_by(old(self).routes_view(), e),
                    ) && all_reachable_time_nanos == old(self).all_reachable_spec()
                },
                ReplicatorClusterConnectorEvent::RouteApplied(report) => {
                    &&& r is Idle
                    &&& final(self).last_report_spec() == Some(report)
                    &&& final(self).routes_view() == old(self).routes_view()
                    &&& final(self).all_reachable_spec() == old(self).all_reachable_spec()
                },
                ReplicatorClusterConnectorEvent::PruningTickApplied(report) => {
                    &&& r is Idle
                    &&& final(self).last_pruning_report_spec() == Some(report)
                    &&& final(self).routes_view() == old(self).routes_view()
                    &&& final(self).all_reachable_spec() == old(self).all_reachable_spec()
                },
                ReplicatorClusterConnectorEvent::ClockTick { now_nanos } => {
                    &&& r is Idle
                    &&& final(self).all_reachable_spec() == clock_after(
                        old(self).all_reachable_spec(),
                        old(self).previous_clock_spec(),
                        old(self).routes_view().unreachable.len() == 0,
                        now_nanos,
                    )
                    &&& final(self).previous_clock_spec() == Some(now_nanos)
                    &&& final(self).routes_view() == old(self).routes_view()
                },
                ReplicatorClusterConnectorEvent::SetAllReachableTimeNanos(nanos) => {
                    &&& r is Idle
                    &&& final(self).all_reachable_spec() == nanos
                    &&& final(self).routes_view() == old(self).routes_view()
                },
                ReplicatorClusterConnectorEvent::SetPruningSettings(settings) => {
                    &&& r is Idle
                    &&& final(self).pruning_spec() == settings
                    &&& final(self).routes_view() == old(self).routes_view()
                    &&& final(self).all_reachable_spec() == old(self).all_reachable_spec()
                },
                ReplicatorClusterConnectorEvent::RunRemovedNodePruning { now_millis } => {
                    &&& final(self).routes_view() == old(self).routes_view()
                    &&& final(self).all_reachable_spec() == old(self).all_reachable_spec()
                    &&& r matches ReplicatorClusterConnectorAction::RunRemovedNodePruning(tick) && {
                        &&& tick.self_replica@ == old(self).self_replica_spec()
                        &&& tick.live_replicas.wf()
                        &&& tick.live_replicas@ == routable(old(self).routes_view())
                        &&& tick.unreachable_replicas.wf()
                        &&& tick.unreachable_replicas@ == old(self).routes_view().unreachable
                        &&& tick.all_reachable_time_nanos == old(self).all_reachable_spec()
                        &&& tick.max_pruning_dissemination_nanos
                            == old(self).pruning_spec().max_pruning_dissemination_nanos
                        &&& tick.now_millis == now_millis
                        &&& tick.pruning_marker_ttl_millis == old(self).pruning_spec().pruning_marker_ttl_millis
                        &&& tick.is_leader == is_leader_spec(old(self).routes_view())
                    }
                },
                ReplicatorClusterConnectorEvent::TargetsRegistered(report) => {
                    &&& r is Idle
                    &&& final(self).last_registration_spec() == Some(report)
                    &&& final(self).routes_view() == old(self).routes_view()
                    &&& final(self).all_reachable_spec() == old(self).all_reachable_spec()
                },
                ReplicatorClusterConnectorEvent::Snapshot => {
                    &&& final(self).routes_view() == old(self).routes_view()
                    &&& final(self).all_reachable_spec() == old(self).all_reachable_spec()
                    &&& r matches ReplicatorClusterConnectorAction::ReplySnapshot(snap) && {
                        &&& ids_view(snap.remote_replicas@) == sorted_keys(routable(old(self).routes_view()))
                        &&& snap.unreachable_replicas@ == old(self).routes_view().unreachable
                        &&& snap.is_leader == is_leader_spec(old(self).routes_view())
                        &&& snap.all_reachable_time_nanos == old(self).all_reachable_spec()
                        &&& same_route_report(snap.last_report, old(self).last_report_spec())
                        &&& same_pruning_report(snap.last_pruning_report, old(self).last_pruning_report_spec())
                        &&& same_registration(snap.last_target_registration, old(self).last_registration_spec())
                    }
                },
            },
    {
        match event {
            ReplicatorClusterConnectorEvent::CurrentState(state) => {
                let roles = copy_roles(&self.required_roles);
                let node = self.routes.self_node().duplicate();
                let routes = ReplicatorClusterRoutes::from_current_state(node, &state, roles);
                self.routes = routes;
                ReplicatorClusterConnectorAction::ApplyRouteUpdate {
                    update: self.routes.update(),
                    all_reachable_time_nanos: self.all_reachable_time_nanos,
                }
            },
            ReplicatorClusterConnectorEvent::Cluster(e) => {
                if self.is_self_removed_event(&e) {
                    ReplicatorClusterConnectorAction::Stop
                } else {
                    let update = self.routes.apply_event(&e);
                    ReplicatorClusterConnectorAction::ApplyRouteUpdate {
                        update,
                        all_reachable_time_nanos: self.all_reachable_time_nanos,
                    }
                }
            },
            ReplicatorClusterConnectorEvent::RouteApplied(report) => {
                self.last_report = Some(report);
                ReplicatorClusterConnectorAction::Idle
            },
            ReplicatorClusterConnectorEvent::PruningTickApplied(report) => {
                self.last_pruning_report = Some(report);
                ReplicatorClusterConnectorAction::Idle
            },
            ReplicatorClusterConnectorEvent::ClockTick { now_nanos } => {
                self.advance_all_reachable_clock(now_nanos);
                ReplicatorClusterConnectorAction::Idle
            },
            ReplicatorClusterConnectorEvent::SetAllReachableTimeNanos(nanos) => {
                self.all_reachable_time_nanos = nanos;
                ReplicatorClusterConnectorAction::Idle
            },
            ReplicatorClusterConnectorEvent::SetPruningSettings(settings) => {
                self.pruning_settings = settings;
                ReplicatorClusterConnectorAction::Idle
            },
            ReplicatorClusterConnectorEvent::RunRemovedNodePruning { now_millis } => {
                ReplicatorClusterConnectorAction::RunRemovedNodePruning(
                    self.removed_node_pruning_tick(now_millis),
                )
            },
            ReplicatorClusterConnectorEvent::TargetsRegistered(report) => {
                self.last_target_registration = Some(report);
                ReplicatorClusterConnectorAction::Idle
            },
            ReplicatorClusterConnectorEvent::Snapshot => {
                ReplicatorClusterConnectorAction::ReplySnapshot(self.snapshot())
            },
        }
    }
}

fn copy_roles(src: &Vec<String>) -> (r: Vec<String>)
    ensures
        r@.map_values(|s: String| s@) == src@.map_values(|s: String| s@),
{
    let mut out: Vec<String> = Vec::new();
    let n = src.len();
    let mut i: usize = 0;
    while i < n
        invariant
            n == src@.len(),
            i <= n,
            out@.len() == i,
            forall|j: int| 0 <= j < i ==> (#[trigger] out@[j])@ == src@[j]@,
        decreases n - i,
    {
        out.push(src[i].clone());
        i = i + 1;
    }
    proof {
        assert(out@.map_values(|s: String| s@) =~= src@.map_values(|s: String| s@));
    }
    out
}

fn ids_to_set(ids: &Vec<ReplicaId>) -> (r: SortedSet<ReplicaId>)
    ensures
        r.wf(),
        r@ == ids_view(ids@).to_set(),
{
    let mut set: SortedSet<ReplicaId> = SortedSet::new();
    let n = ids.len();
    let mut i: usize = 0;
    while i < n
        invariant
            n == ids@.len(),
            i <= n,
            set.wf(),
            set@ == ids_view(ids@).take(i as int).to_set(),
        decreases n - i,
    {
        set.insert(ids[i].duplicate());
        proof {
            assert(ids_view(ids@).take(i as int + 1) =~= ids_view(ids@).take(i as int).push(
                ids[i as int]@,
            ));
            ids_view(ids@).take(i as int).lemma_push_to_set_commute(ids[i as int]@);
        }
        i = i + 1;
    }
    proof {
        assert(ids_view(ids@).take(n as int) =~= ids_view(ids@));
    }
    set
}


/// The all-reachable clock never runs backwards, and it stands still while
/// any replica is unreachable or before the first tick.
pub proof fn lemma_clock_monotonic(all_reachable: u64, previous: Option<u64>, all_healthy: bool, now: u64)
    ensures
        clock_after(all_reachable, previous, all_healthy, now) >= all_reachable,
        !all_healthy ==> clock_after(all_reachable, previous, all_healthy, now) == all_reachable,
        previous is None ==> clock_after(all_reachable, previous, all_healthy, now) == all_reachable,
{
}
} // verus!
