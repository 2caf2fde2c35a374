use std::time::Duration;

use kairo_distributed_data::key::ReplicatorKey;
use kairo_distributed_data::{
    decode_pruning_table, encode_pruning_table, encode_read, ClusterEvent, ClusterMember,
    ClusterSnapshot, MemberEvent, MemberStatus, PruningDecodeError, PruningState, PruningTable,
    ReachabilityEvent, ReplicaId, ReplicatorClusterConnectorAction, ReplicatorClusterConnectorEvent,
    ReplicatorClusterConnectorState, ReplicatorClusterConnectorTimingSettings,
    ReplicatorClusterPruningSettings, ReplicatorPruningEntry, ReplicatorPruningState, UniqueNode,
};

fn r(id: &str) -> ReplicaId {
    ReplicaId::new(id)
}

#[test]
fn pruning_table_survives_the_wire() {
    let mut table = PruningTable::new();
    table.initialize(r("gone"), r("owner"));
    table.mark_seen(&r("gone"), r("z"));
    table.mark_seen(&r("gone"), r("b"));
    table.mark_performed(r("old"), 77);
    let wire = encode_pruning_table(&table);
    assert_eq!(wire.len(), 2);
    assert_eq!(wire[0].removed, r("gone"));
    assert_eq!(
        wire[0].state,
        ReplicatorPruningState::Initialized { owner: r("owner"), seen: vec![r("b"), r("z")] }
    );
    assert_eq!(wire[1].state, ReplicatorPruningState::Performed { obsolete_at_millis: 77 });
    let decoded = decode_pruning_table(&wire).unwrap();
    assert_eq!(decoded, table);
}

#[test]
fn duplicate_wire_entries_are_refused() {
    let entry = ReplicatorPruningEntry {
        removed: r("gone"),
        state: ReplicatorPruningState::Performed { obsolete_at_millis: 1 },
    };
    assert_eq!(
        decode_pruning_table(&[entry.clone(), entry]).unwrap_err(),
        PruningDecodeError::DuplicateEntry { removed: r("gone") }
    );
    assert!(matches!(
        decode_pruning_table(&[]).unwrap().get(&r("gone")),
        None::<&PruningState>
    ));
}

#[test]
fn read_request_carries_key_and_source() {
    let read = encode_read(&ReplicatorKey::new("k"), Some(r("me")));
    assert_eq!(read.key, "k");
    assert_eq!(read.from, Some(r("me")));
}

fn node(name: &str, uid: u64) -> UniqueNode {
    UniqueNode { address: format!("kairo://ddata@{name}:2552"), uid }
}

fn member(name: &str, uid: u64, status: MemberStatus) -> ClusterMember {
    ClusterMember {
        node: node(name, uid),
        replica: r(name),
        status,
        roles: vec!["ddata".to_string()],
    }
}

#[test]
fn connector_clock_only_advances_while_all_reachable() {
    let mut state = ReplicatorClusterConnectorState::with_required_roles(
        node("self", 1),
        r("self"),
        vec!["ddata".to_string()],
    );
    state.handle(ReplicatorClusterConnectorEvent::ClockTick { now_nanos: 100 });
    let snap = |s: &mut ReplicatorClusterConnectorState| match s.handle(ReplicatorClusterConnectorEvent::Snapshot) {
        ReplicatorClusterConnectorAction::ReplySnapshot(snapshot) => snapshot,
        _ => panic!("expected a snapshot"),
    };
    assert_eq!(snap(&mut state).all_reachable_time_nanos, 0);
    state.handle(ReplicatorClusterConnectorEvent::ClockTick { now_nanos: 150 });
    assert_eq!(snap(&mut state).all_reachable_time_nanos, 50);

    let peer = member("peer", 2, MemberStatus::Up);
    state.handle(ReplicatorClusterConnectorEvent::Cluster(ClusterEvent::Member(MemberEvent::Up(peer.clone()))));
    state.handle(ReplicatorClusterConnectorEvent::Cluster(ClusterEvent::Reachability(
        ReachabilityEvent::Unreachable(peer.clone()),
    )));
    state.handle(ReplicatorClusterConnectorEvent::ClockTick { now_nanos: 400 });
    assert_eq!(snap(&mut state).all_reachable_time_nanos, 50);
    state.handle(ReplicatorClusterConnectorEvent::Cluster(ClusterEvent::Reachability(
        ReachabilityEvent::Reachable(peer),
    )));
    state.handle(ReplicatorClusterConnectorEvent::ClockTick { now_nanos: 410 });
    assert_eq!(snap(&mut state).all_reachable_time_nanos, 60);
    state.handle(ReplicatorClusterConnectorEvent::SetAllReachableTimeNanos(u64::MAX - 1));
    state.handle(ReplicatorClusterConnectorEvent::ClockTick { now_nanos: 500 });
    assert_eq!(snap(&mut state).all_reachable_time_nanos, u64::MAX);
}

#[test]
fn connector_routes_membership_and_stops_on_self_removal() {
    let mut state = ReplicatorClusterConnectorState::new(node("self", 1), r("self"));
    let peer = member("peer", 2, MemberStatus::Up);
    match state.handle(ReplicatorClusterConnectorEvent::CurrentState(ClusterSnapshot {
        members: vec![member("self", 1, MemberStatus::Up), peer.clone()],
        unreachable: vec![],
    })) {
        ReplicatorClusterConnectorAction::ApplyRouteUpdate { update, all_reachable_time_nanos } => {
            assert_eq!(update.remote_replicas, vec![r("peer")]);
            assert!(!update.is_leader);
            assert_eq!(all_reachable_time_nanos, 0);
        }
        _ => panic!("expected a route update"),
    }
    let removal = ClusterEvent::Member(MemberEvent::Removed {
        member: member("self", 1, MemberStatus::Removed),
        previous_status: MemberStatus::Up,
    });
    assert!(matches!(
        state.handle(ReplicatorClusterConnectorEvent::Cluster(removal)),
        ReplicatorClusterConnectorAction::Stop
    ));
    assert_eq!(state.routes().remote_replicas(), vec![r("peer")]);
}

#[test]
fn connector_builds_pruning_ticks_from_routes_and_settings() {
    let mut state = ReplicatorClusterConnectorState::new(node("self", 1), r("self"))
        .with_pruning_settings(ReplicatorClusterPruningSettings::new(500, 60));
    state.handle(ReplicatorClusterConnectorEvent::Cluster(ClusterEvent::Member(MemberEvent::Up(
        member("peer", 2, MemberStatus::Up),
    ))));
    match state.handle(ReplicatorClusterConnectorEvent::RunRemovedNodePruning { now_millis: 1_000 }) {
        ReplicatorClusterConnectorAction::RunRemovedNodePruning(tick) => {
            assert_eq!(tick.self_replica, r("self"));
            assert_eq!(tick.live_replicas.to_vec(), vec![r("peer")]);
            assert!(tick.unreachable_replicas.is_empty());
            assert_eq!(tick.max_pruning_dissemination_nanos, 500);
            assert_eq!(tick.pruning_marker_ttl_millis, 60);
            assert_eq!(tick.now_millis, 1_000);
            assert_eq!(tick.pruning_performed().obsolete_at_millis(), 1_060);
            assert!(!tick.is_leader);
        }
        _ => panic!("expected a pruning tick"),
    }
}

#[test]
fn timing_settings_default_to_disabled() {
    let settings = ReplicatorClusterConnectorTimingSettings::default();
    assert_eq!(settings.clock_interval, None);
    assert_eq!(settings.pruning_interval, None);
    assert_eq!(settings.periodic_tasks_initial_delay, Duration::ZERO);
    let enabled = ReplicatorClusterConnectorTimingSettings::new(Duration::from_secs(1), Duration::from_secs(2))
        .with_periodic_tasks_initial_delay(Duration::from_millis(5))
        .with_pruning_interval(None);
    assert_eq!(enabled.clock_interval, Some(Duration::from_secs(1)));
    assert_eq!(enabled.pruning_interval, None);
    assert_eq!(enabled.periodic_tasks_initial_delay, Duration::from_millis(5));
    let mut started = ReplicatorClusterConnectorState::new(node("self", 1), r("self")).with_timing_settings(enabled);
    started.start_clock(10);
    started.handle(ReplicatorClusterConnectorEvent::ClockTick { now_nanos: 25 });
    match started.handle(ReplicatorClusterConnectorEvent::Snapshot) {
        ReplicatorClusterConnectorAction::ReplySnapshot(s) => assert_eq!(s.all_reachable_time_nanos, 15),
        _ => panic!("expected a snapshot"),
    }
}

#[test]
fn connector_stops_when_self_member_is_removed() {
    let self_member = member("self-removed", 1, MemberStatus::Up);
    let mut state = ReplicatorClusterConnectorState::with_required_roles(
        node("self-removed", 1),
        r("self-removed"),
        vec!["ddata".to_string()],
    );
    state.handle(ReplicatorClusterConnectorEvent::CurrentState(ClusterSnapshot {
        members: vec![self_member, member("peer", 2, MemberStatus::Up)],
        unreachable: vec![],
    }));
    match state.handle(ReplicatorClusterConnectorEvent::Snapshot) {
        ReplicatorClusterConnectorAction::ReplySnapshot(snapshot) => {
            assert_eq!(snapshot.remote_replicas, vec![r("peer")])
        }
        _ => panic!("expected a snapshot"),
    }
    let removal = ClusterEvent::Member(MemberEvent::Removed {
        member: member("self-removed", 1, MemberStatus::Removed),
        previous_status: MemberStatus::Up,
    });
    assert!(
        matches!(
            state.handle(ReplicatorClusterConnectorEvent::Cluster(removal)),
            ReplicatorClusterConnectorAction::Stop
        ),
        "connector should stop when its own cluster member is removed"
    );
}
