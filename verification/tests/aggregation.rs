use std::time::Duration;

use kairo_distributed_data::aggregation::select_replicas;
use kairo_distributed_data::data::DeltaReplicatedData;
use kairo_distributed_data::key::ReplicatorKey;
use kairo_distributed_data::sorted_set::SortedSet;
use kairo_distributed_data::{
    calculate_majority, AggregationError, ConsistencyError, DataEnvelope, GCounter,
    ReadAggregationOutcome, ReadAggregatorState, ReadConsistency, ReplicaId, WriteAggregationOutcome,
    WriteAggregatorState, WriteConsistency,
};

fn r(id: &str) -> ReplicaId {
    ReplicaId::new(id)
}

fn nodes(ids: &[&str]) -> Vec<ReplicaId> {
    ids.iter().map(|i| r(i)).collect()
}

const T: Duration = Duration::from_secs(1);

#[test]
fn majority_is_bounded_by_cap_and_total() {
    assert_eq!(calculate_majority(0, 5, 0), 3);
    assert_eq!(calculate_majority(0, 4, 0), 3);
    assert_eq!(calculate_majority(4, 5, 0), 4);
    assert_eq!(calculate_majority(0, 5, 1), 4);
    assert_eq!(calculate_majority(9, 5, 0), 5);
    assert_eq!(calculate_majority(0, 1, 0), 1);
}

#[test]
fn exact_consistency_needs_two_replicas() {
    assert_eq!(
        WriteConsistency::to(1, T),
        Err(ConsistencyError::ReplicaCountTooSmall { requested: 1 })
    );
    assert!(WriteConsistency::to(2, T).is_ok());
    assert_eq!(
        ReadConsistency::from(0, T),
        Err(ConsistencyError::ReplicaCountTooSmall { requested: 0 })
    );
    assert!(WriteConsistency::local().timeout().is_none());
    assert_eq!(WriteConsistency::majority(T).timeout(), Some(T));
}

#[test]
fn write_aggregation_succeeds_at_quorum_and_fails_when_unreachable() {
    let remote = nodes(&["b", "c", "d", "e"]);
    let mut state =
        WriteAggregatorState::new(ReplicatorKey::new("k"), &WriteConsistency::majority(T), remote)
            .unwrap();
    assert_eq!(state.required_remote_acks(), 2);
    assert_eq!(state.record_ack(&r("b")), WriteAggregationOutcome::InProgress);
    assert_eq!(state.record_ack(&r("b")), WriteAggregationOutcome::InProgress);
    assert_eq!(state.record_ack(&r("c")), WriteAggregationOutcome::Success);

    let mut failing =
        WriteAggregatorState::new(ReplicatorKey::new("k"), &WriteConsistency::all(T), nodes(&["b", "c"]))
            .unwrap();
    assert_eq!(failing.record_nack(&r("b")), WriteAggregationOutcome::Failed { required: 2, available: 1 });
    assert_eq!(failing.timeout(), WriteAggregationOutcome::Timeout { required: 2, acknowledged: 0 });
}

#[test]
fn aggregation_rejects_local_and_unavailable_levels() {
    assert_eq!(
        WriteAggregatorState::new(ReplicatorKey::new("k"), &WriteConsistency::local(), nodes(&["b"]))
            .unwrap_err(),
        AggregationError::LocalConsistencyUnsupported
    );
    let too_many = WriteConsistency::to(4, T).unwrap();
    assert_eq!(
        WriteAggregatorState::new(ReplicatorKey::new("k"), &too_many, nodes(&["b"])).unwrap_err(),
        AggregationError::NotEnoughReplicas { required: 3, available: 1 }
    );
}

#[test]
fn read_aggregation_keeps_local_value_and_merges_replies() {
    let local = DataEnvelope::new(GCounter::new().increment(r("a"), 1).unwrap().reset_delta());
    let mut state = ReadAggregatorState::new(
        ReplicatorKey::new("k"),
        &ReadConsistency::majority(T),
        nodes(&["b", "c"]),
        Some(local),
    )
    .unwrap();
    assert_eq!(state.required_remote_reads(), 1);
    let reply = DataEnvelope::new(GCounter::new().increment(r("b"), 4).unwrap().reset_delta());
    match state.record_read_from(&r("b"), Some(reply)) {
        ReadAggregationOutcome::Success { envelope } => assert_eq!(envelope.data().value().unwrap(), 5),
        _ => panic!("expected a merged value"),
    }

    let mut empty = ReadAggregatorState::<GCounter>::new(
        ReplicatorKey::new("k"),
        &ReadConsistency::all(T),
        nodes(&["b"]),
        None,
    )
    .unwrap();
    assert!(matches!(empty.record_read(None), ReadAggregationOutcome::NotFound));
}

#[test]
fn replica_selection_puts_reachable_first() {
    let mut unreachable = SortedSet::new();
    unreachable.insert(r("a"));
    let selection = select_replicas(&nodes(&["a", "b", "c"]), &unreachable, 2);
    assert_eq!(selection.primary().to_vec(), nodes(&["b", "c"]));
    assert_eq!(selection.secondary().to_vec(), nodes(&["a"]));
}
