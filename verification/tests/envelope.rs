use kairo_distributed_data::data::DeltaReplicatedData;
use kairo_distributed_data::{
    DataEnvelope, GCounter, PruningPerformed, PruningState, PruningTable, ReplicaId,
};

fn replica(id: &str) -> ReplicaId {
    ReplicaId::new(id)
}

#[test]
fn envelope_initializes_and_marks_pruning_seen() {
    let removed = replica("removed");
    let owner = replica("owner");
    let peer = replica("peer");
    let envelope = DataEnvelope::new(
        GCounter::new()
            .increment(removed.clone(), 3)
            .unwrap()
            .reset_delta(),
    )
    .init_removed_node_pruning(removed.clone(), owner)
    .add_pruning_seen(peer.clone());

    assert!(envelope.need_pruning_from(&removed));
    let Some(PruningState::Initialized(initialized)) = envelope.pruning().get(&removed) else {
        panic!("expected initialized pruning marker");
    };
    assert!(initialized.seen().contains(peer.as_str()));
}

#[test]
fn envelope_prunes_removed_replica_into_marker_owner() {
    let removed = replica("removed");
    let owner = replica("owner");
    let envelope = DataEnvelope::new(
        GCounter::new()
            .increment(removed.clone(), 4)
            .unwrap()
            .increment(owner.clone(), 2)
            .unwrap()
            .reset_delta(),
    )
    .init_removed_node_pruning(removed.clone(), owner.clone())
    .prune_removed_node(&removed, PruningPerformed::new(100))
    .unwrap();

    assert_eq!(envelope.data().replica_value(&removed), 0);
    assert_eq!(envelope.data().replica_value(&owner), 6);
    assert_eq!(
        envelope.pruning().get(&removed),
        Some(&PruningState::Performed(PruningPerformed::new(100)))
    );
}

#[test]
fn envelope_merge_pruned_cleans_performed_removed_replica_from_both_sides() {
    let removed = replica("removed");
    let owner = replica("owner");
    let mut pruning = PruningTable::new();
    pruning.mark_performed(removed.clone(), 100);

    let left = DataEnvelope::with_pruning(
        GCounter::new()
            .increment(owner.clone(), 2)
            .unwrap()
            .reset_delta(),
        pruning,
    );
    let right = DataEnvelope::new(
        GCounter::new()
            .increment(removed.clone(), 7)
            .unwrap()
            .reset_delta(),
    );

    let merged = left.merge_pruned(&right, 99);
    assert_eq!(merged.data().replica_value(&removed), 0);
    assert_eq!(merged.data().replica_value(&owner), 2);
    assert!(merged.pruning().get(&removed).is_some());
}

#[test]
fn envelope_removes_obsolete_performed_markers_without_mutating_data() {
    let removed = replica("removed");
    let mut pruning = PruningTable::new();
    pruning.mark_performed(removed.clone(), 100);
    let envelope = DataEnvelope::with_pruning(
        GCounter::new()
            .increment(removed.clone(), 7)
            .unwrap()
            .reset_delta(),
        pruning,
    );

    let (kept, removed_before_deadline) = envelope.remove_obsolete_pruning_performed(99);
    assert!(removed_before_deadline.is_empty());
    assert!(kept.pruning().get(&removed).is_some());

    let (cleaned, removed_at_deadline) = envelope.remove_obsolete_pruning_performed(100);
    assert_eq!(removed_at_deadline.to_vec(), vec![removed.clone()]);
    assert_eq!(cleaned.data().replica_value(&removed), 7);
    assert!(cleaned.pruning().is_empty());
}

#[test]
fn envelope_merge_is_commutative_for_counters() {
    let a = DataEnvelope::new(
        GCounter::new().increment(replica("a"), 3).unwrap().reset_delta(),
    );
    let b = DataEnvelope::new(
        GCounter::new().increment(replica("b"), 5).unwrap().reset_delta(),
    );
    let ab = a.merge(&b);
    let ba = b.merge(&a);
    assert_eq!(ab.data().value().unwrap(), 8);
    assert_eq!(ba.data().value().unwrap(), 8);
    assert_eq!(ab.data().replica_value(&replica("a")), ba.data().replica_value(&replica("a")));
}
