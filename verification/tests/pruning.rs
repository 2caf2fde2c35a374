use kairo_distributed_data::{
    PruningInitialized, PruningPerformed, PruningState, PruningTable, RemovedNodePruningTracker,
    ReplicaId,
};
use kairo_distributed_data::sorted_set::SortedSet;

fn replica(id: &str) -> ReplicaId {
    ReplicaId::new(id)
}

#[test]
fn initialized_add_seen_ignores_owner_and_duplicates() {
    let owner = replica("owner");
    let peer = replica("peer");
    let initialized = PruningInitialized::new(owner.clone());

    let with_owner = initialized.add_seen(owner);
    assert!(with_owner.seen().is_empty());

    let with_peer = with_owner.add_seen(peer.clone()).add_seen(peer.clone());
    assert_eq!(with_peer.seen().to_vec(), vec![peer]);
}

#[test]
fn pruning_state_merge_uses_deterministic_owner_and_performed_ordering() {
    let removed = replica("removed");
    let owner_a = replica("a");
    let owner_b = replica("b");
    let peer = replica("peer");

    let mut left = PruningTable::new();
    left.initialize(removed.clone(), owner_a.clone());
    left.mark_seen(&removed, peer.clone());

    let mut same_owner = PruningTable::new();
    same_owner.initialize(removed.clone(), owner_a);
    same_owner.mark_seen(&removed, replica("other"));
    let merged = left.merge(&same_owner);
    let Some(PruningState::Initialized(initialized)) = merged.get(&removed) else {
        panic!("expected initialized pruning state");
    };
    assert!(initialized.seen().contains(peer.as_str()));
    assert!(initialized.seen().contains("other"));

    let mut conflicting_owner = PruningTable::new();
    conflicting_owner.initialize(removed.clone(), owner_b);
    let reverse_merged = conflicting_owner.merge(&merged);
    let merged = merged.merge(&conflicting_owner);
    assert_eq!(merged, reverse_merged);
    let Some(PruningState::Initialized(initialized)) = merged.get(&removed) else {
        panic!("expected initialized pruning state");
    };
    assert_eq!(initialized.owner(), &replica("a"));

    let mut performed = PruningTable::new();
    performed.mark_performed(removed.clone(), 20);
    let merged = merged.merge(&performed);
    assert_eq!(
        merged.get(&removed),
        Some(&PruningState::Performed(PruningPerformed::new(20)))
    );
}

#[test]
fn ready_to_perform_requires_all_live_replicas_to_have_seen_marker() {
    let removed = replica("removed");
    let owner = replica("owner");
    let peer_a = replica("peer-a");
    let peer_b = replica("peer-b");
    let live = [peer_a.clone(), peer_b.clone()];

    let mut table = PruningTable::new();
    table.initialize(removed.clone(), owner.clone());
    table.mark_seen(&removed, peer_a);

    assert!(table.ready_to_perform(&owner, &live).is_empty());
    table.mark_seen(&removed, peer_b);
    assert_eq!(table.ready_to_perform(&owner, &live).to_vec(), vec![removed]);
}

#[test]
fn performed_marker_obsolete_time_is_inclusive() {
    let mut table = PruningTable::new();
    let removed = replica("removed");
    table.mark_performed(removed.clone(), 100);

    assert!(table.remove_obsolete_performed(99).is_empty());
    assert_eq!(table.remove_obsolete_performed(100).to_vec(), vec![removed]);
    assert!(table.is_empty());
}

#[test]
fn removed_node_tracker_uses_all_reachable_clock_threshold() {
    let mut tracker = RemovedNodePruningTracker::new();
    let removed = replica("removed");
    tracker.record_removed(removed.clone(), 10);

    assert!(tracker.ready_to_initialize(20, 10).is_empty());
    assert_eq!(tracker.ready_to_initialize(21, 10).to_vec(), vec![removed]);
}

#[test]
fn removed_node_tracker_preserves_first_observation_on_duplicate_record() {
    let mut tracker = RemovedNodePruningTracker::new();
    let removed = replica("removed");

    assert!(tracker.record_removed(removed.clone(), 10));
    assert!(!tracker.record_removed(removed.clone(), 20));
    assert_eq!(tracker.removed_nodes().get(removed.as_str()), Some(&10));
    assert_eq!(tracker.ready_to_initialize(21, 10).to_vec(), vec![removed]);
}

#[test]
fn removed_node_tracker_collects_unknown_modified_replicas() {
    let mut tracker = RemovedNodePruningTracker::new();
    let self_node = replica("self");
    let mut known = SortedSet::new();
    known.insert(replica("known"));
    let unknown = replica("unknown");
    let modified_by = [self_node.clone(), replica("known"), unknown.clone()];

    let recorded = tracker.record_unknown_modified_nodes(&modified_by, &known, &self_node, 42);

    assert_eq!(recorded.to_vec(), vec![unknown.clone()]);
    assert_eq!(tracker.removed_nodes().get(unknown.as_str()), Some(&42));
}

#[test]
fn pruning_table_merge_is_commutative_and_idempotent() {
    let removed = replica("removed");
    let mut a = PruningTable::new();
    a.initialize(removed.clone(), replica("a"));
    a.mark_seen(&removed, replica("x"));
    let mut b = PruningTable::new();
    b.initialize(removed.clone(), replica("b"));
    b.mark_performed(replica("gone"), 7);
    assert_eq!(a.merge(&b), b.merge(&a));
    assert_eq!(a.merge(&a), a);
    let mut c = PruningTable::new();
    c.mark_performed(removed.clone(), 5);
    assert_eq!(a.merge(&b).merge(&c), a.merge(&b.merge(&c)));
}

#[test]
fn performed_marker_is_obsolete_from_its_deadline() {
    let marker = PruningPerformed::new(50);
    assert_eq!(marker.obsolete_at_millis(), 50);
    assert!(!marker.is_obsolete(49));
    assert!(marker.is_obsolete(50));
    assert!(marker.is_obsolete(51));
    assert!(!PruningState::initialized(replica("o")).is_obsolete(u64::MAX));
}
