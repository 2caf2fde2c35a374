use kairo_distributed_data::{
    ClusterEvent, ClusterMember, ClusterSnapshot, MemberEvent, MemberStatus, ReachabilityEvent,
    ReplicaId, ReplicatorClusterRoutes, UniqueNode,
};

fn node(name: &str, uid: u64) -> UniqueNode {
    UniqueNode {
        address: format!("kairo://routes@{name}.example.test:2552"),
        uid,
    }
}

fn replica_of(node: &UniqueNode) -> ReplicaId {
    ReplicaId::new(&format!("{}#{}", node.address, node.uid))
}

fn member(node: UniqueNode, status: MemberStatus, roles: &[&str]) -> ClusterMember {
    ClusterMember {
        replica: replica_of(&node),
        node,
        status,
        roles: roles.iter().map(|r| r.to_string()).collect(),
    }
}

fn with_status(member: &ClusterMember, status: MemberStatus) -> ClusterMember {
    let mut m = member.clone();
    m.status = status;
    m
}

fn roles(names: &[&str]) -> Vec<String> {
    names.iter().map(|r| r.to_string()).collect()
}

#[test]
fn route_snapshot_uses_up_and_weakly_up_matching_remote_members() {
    let self_node = node("self", 1);
    let up = member(node("up", 2), MemberStatus::Up, &["ddata"]);
    let weak = member(node("weak", 3), MemberStatus::WeaklyUp, &["ddata"]);
    let joining = member(node("joining", 4), MemberStatus::Joining, &["ddata"]);
    let other_role = member(node("other", 5), MemberStatus::Up, &["other"]);
    let unreachable = member(node("weak", 3), MemberStatus::WeaklyUp, &["ddata"]);
    let state = ClusterSnapshot {
        members: vec![
            member(self_node.clone(), MemberStatus::Up, &["ddata"]),
            joining,
            other_role,
            weak.clone(),
            up.clone(),
        ],
        unreachable: vec![unreachable],
    };

    let routes = ReplicatorClusterRoutes::from_current_state(self_node.clone(), &state, roles(&["ddata"]));

    assert_eq!(routes.remote_replicas(), vec![up.replica.clone(), weak.replica.clone()]);
    assert_eq!(routes.unreachable_replicas().to_vec(), vec![weak.replica.clone()]);
    assert!(routes.is_leader());
}

#[test]
fn route_events_track_reachability_and_removed_replicas() {
    let self_node = node("self", 1);
    let peer = member(node("peer", 2), MemberStatus::Up, &["ddata"]);
    let mut routes = ReplicatorClusterRoutes::with_required_roles(self_node, roles(&["ddata"]));

    let update = routes.apply_event(&ClusterEvent::Member(MemberEvent::Up(peer.clone())));
    assert_eq!(update.remote_replicas, vec![peer.replica.clone()]);
    assert!(update.unreachable_replicas.is_empty());

    let unreachable = routes.apply_event(&ClusterEvent::Reachability(
        ReachabilityEvent::Unreachable(peer.clone()),
    ));
    assert_eq!(unreachable.unreachable_replicas.to_vec(), vec![peer.replica.clone()]);

    let removed = routes.apply_event(&ClusterEvent::Member(MemberEvent::Removed {
        member: with_status(&peer, MemberStatus::Removed),
        previous_status: MemberStatus::Up,
    }));
    assert!(removed.remote_replicas.is_empty());
    assert!(removed.unreachable_replicas.is_empty());
    assert_eq!(removed.removed_replicas.to_vec(), vec![peer.replica.clone()]);
}

#[test]
fn downed_member_remains_routable_and_unreachable_until_removed() {
    let self_node = node("self", 1);
    let peer = member(node("peer", 2), MemberStatus::Up, &["ddata"]);
    let peer_replica = peer.replica.clone();
    let mut routes = ReplicatorClusterRoutes::with_required_roles(self_node, roles(&["ddata"]));

    routes.apply_event(&ClusterEvent::Member(MemberEvent::Up(peer.clone())));
    routes.apply_event(&ClusterEvent::Reachability(ReachabilityEvent::Unreachable(peer.clone())));
    let downed = routes.apply_event(&ClusterEvent::Member(MemberEvent::Downed(with_status(
        &peer,
        MemberStatus::Down,
    ))));

    assert_eq!(downed.remote_replicas, vec![peer_replica.clone()]);
    assert_eq!(downed.unreachable_replicas.to_vec(), vec![peer_replica.clone()]);
    assert!(downed.removed_replicas.is_empty());

    let removed = routes.apply_event(&ClusterEvent::Member(MemberEvent::Removed {
        member: with_status(&peer, MemberStatus::Removed),
        previous_status: MemberStatus::Down,
    }));

    assert!(removed.remote_replicas.is_empty());
    assert!(removed.unreachable_replicas.is_empty());
    assert_eq!(removed.removed_replicas.to_vec(), vec![peer_replica]);
}

#[test]
fn joining_and_snapshot_only_down_unreachability_pause_the_role_view() {
    let self_node = node("self", 1);
    let joining = member(node("joining", 2), MemberStatus::Joining, &["ddata"]);
    let down = member(node("down", 3), MemberStatus::Down, &["ddata"]);
    let state = ClusterSnapshot {
        members: vec![
            member(self_node.clone(), MemberStatus::Up, &["ddata"]),
            joining.clone(),
            down.clone(),
        ],
        unreachable: vec![joining.clone(), down.clone()],
    };

    let routes = ReplicatorClusterRoutes::from_current_state(self_node, &state, roles(&["ddata"]));

    assert!(routes.remote_replicas().is_empty());
    assert_eq!(
        routes.unreachable_replicas().to_vec(),
        vec![down.replica.clone(), joining.replica.clone()]
    );
}

#[test]
fn replicator_leader_is_derived_from_all_matching_roles_not_global_leader() {
    let self_node = node("b-self", 1);
    let matching_peer = member(node("z-peer", 2), MemberStatus::Up, &["ddata", "blue"]);
    let global_leader = member(node("a-global", 3), MemberStatus::Up, &["other"]);
    let state = ClusterSnapshot {
        members: vec![
            member(self_node.clone(), MemberStatus::Up, &["ddata", "blue"]),
            matching_peer,
            global_leader,
        ],
        unreachable: vec![],
    };
    let routes =
        ReplicatorClusterRoutes::from_current_state(self_node, &state, roles(&["ddata", "blue"]));

    assert!(routes.is_leader());

    let later_self = node("z-self", 4);
    let earlier_peer = member(node("b-peer", 5), MemberStatus::Up, &["ddata", "blue"]);
    let state = ClusterSnapshot {
        members: vec![
            member(later_self.clone(), MemberStatus::Up, &["ddata", "blue"]),
            earlier_peer,
        ],
        unreachable: vec![],
    };
    let mut routes =
        ReplicatorClusterRoutes::from_current_state(later_self, &state, roles(&["ddata", "blue"]));

    assert!(!routes.is_leader());
    let update = routes.apply_event(&ClusterEvent::Other);
    assert!(!update.is_leader);
}

#[test]
fn exiting_lower_order_candidate_blocks_leadership_until_removal() {
    let self_node = node("z-self", 1);
    let peer = member(node("a-peer", 2), MemberStatus::Up, &["ddata"]);
    let mut routes =
        ReplicatorClusterRoutes::with_required_roles(self_node.clone(), roles(&["ddata"]));
    routes.apply_event(&ClusterEvent::Member(MemberEvent::Up(member(
        self_node,
        MemberStatus::Up,
        &["ddata"],
    ))));
    routes.apply_event(&ClusterEvent::Member(MemberEvent::Up(peer.clone())));
    routes.apply_event(&ClusterEvent::Member(MemberEvent::Left(with_status(
        &peer,
        MemberStatus::Leaving,
    ))));

    assert!(!routes.is_leader());

    let exited = routes.apply_event(&ClusterEvent::Member(MemberEvent::Exited(with_status(
        &peer,
        MemberStatus::Exiting,
    ))));

    assert!(!exited.is_leader);
    assert_eq!(exited.remote_replicas, vec![peer.replica.clone()]);

    let removed = routes.apply_event(&ClusterEvent::Member(MemberEvent::Removed {
        member: with_status(&peer, MemberStatus::Removed),
        previous_status: MemberStatus::Exiting,
    }));

    assert!(removed.is_leader);
    assert!(removed.remote_replicas.is_empty());
}

#[test]
fn route_snapshot_excludes_same_address_replacement_self() {
    let self_node = node("self", 1);
    let replacement_self = UniqueNode { address: self_node.address.clone(), uid: 2 };
    let peer = member(node("peer", 3), MemberStatus::Up, &["ddata"]);
    let state = ClusterSnapshot {
        members: vec![
            member(self_node.clone(), MemberStatus::Up, &["ddata"]),
            member(replacement_self, MemberStatus::Up, &["ddata"]),
            peer.clone(),
        ],
        unreachable: vec![],
    };

    let routes = ReplicatorClusterRoutes::from_current_state(self_node.clone(), &state, roles(&["ddata"]));

    assert_eq!(routes.remote_replicas(), vec![peer.replica.clone()]);
    assert_eq!(routes.remote_nodes(), vec![peer.node.clone()]);
}

#[test]
fn route_events_ignore_same_address_replacement_self() {
    let self_node = node("self", 1);
    let replacement_self = UniqueNode { address: self_node.address.clone(), uid: 2 };
    let peer = member(node("peer", 3), MemberStatus::Up, &["ddata"]);
    let mut routes =
        ReplicatorClusterRoutes::with_required_roles(self_node.clone(), roles(&["ddata"]));

    let replacement_update = routes.apply_event(&ClusterEvent::Member(MemberEvent::Up(member(
        replacement_self,
        MemberStatus::Up,
        &["ddata"],
    ))));
    assert!(replacement_update.remote_replicas.is_empty());

    routes.apply_event(&ClusterEvent::Member(MemberEvent::Up(peer.clone())));
    let removed_self = routes.apply_event(&ClusterEvent::Member(MemberEvent::Removed {
        member: member(self_node, MemberStatus::Removed, &["ddata"]),
        previous_status: MemberStatus::Up,
    }));

    assert_eq!(removed_self.remote_replicas, vec![peer.replica.clone()]);
    assert!(removed_self.removed_replicas.is_empty());
}

#[test]
fn reachability_events_never_change_routes() {
    let self_node = node("self", 1);
    let peer = member(node("peer", 2), MemberStatus::Up, &["ddata"]);
    let mut routes = ReplicatorClusterRoutes::with_required_roles(self_node, roles(&["ddata"]));
    routes.apply_event(&ClusterEvent::Member(MemberEvent::Up(peer.clone())));
    let unreachable = routes.apply_event(&ClusterEvent::Reachability(
        ReachabilityEvent::Unreachable(peer.clone()),
    ));
    let reachable = routes.apply_event(&ClusterEvent::Reachability(
        ReachabilityEvent::Reachable(peer.clone()),
    ));
    assert_eq!(unreachable.remote_replicas, vec![peer.replica.clone()]);
    assert_eq!(reachable.remote_replicas, vec![peer.replica.clone()]);
    assert!(reachable.unreachable_replicas.is_empty());
}
