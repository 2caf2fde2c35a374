use std::collections::BTreeMap;

use kairo_distributed_data::key::ReplicatorKey;
use kairo_distributed_data::{
    DecodedReplicatorDelta, DeltaReceiveFailure, DeltaReceiveReply, DeltaReceiveStatus,
    DeltaReceiveTracker, DeltaTarget, GCounter, PruningTable, ReplicaId,
};

#[derive(Default)]
struct Store {
    values: BTreeMap<String, u128>,
    seen: Vec<(String, String)>,
}

impl DeltaTarget<GCounter> for Store {
    fn write_delta(&mut self, key: ReplicatorKey, delta: GCounter) -> bool {
        let entry = self.values.entry(key.as_str().to_string()).or_insert(0);
        let before = *entry;
        *entry += delta.value().unwrap();
        *entry != before
    }

    fn write_delta_pruned(
        &mut self,
        key: ReplicatorKey,
        delta: GCounter,
        _pruning: &PruningTable,
        _now_millis: u64,
    ) -> bool {
        self.write_delta(key, delta)
    }

    fn mark_key_pruning_seen(&mut self, key: &ReplicatorKey, seen_by: ReplicaId) -> bool {
        self.seen.push((key.as_str().to_string(), seen_by.as_str().to_string()));
        true
    }
}

fn counter(amount: u128) -> GCounter {
    GCounter::new().increment(ReplicaId::new("src"), amount).unwrap()
}

#[test]
fn applying_a_range_twice_reports_already_handled() {
    let mut tracker = DeltaReceiveTracker::new();
    let mut store = Store::default();
    let from = ReplicaId::new("peer");
    let key = ReplicatorKey::new("k");

    let first = tracker.apply_delta(&mut store, from.clone(), key.clone(), 1, 2, counter(3));
    assert_eq!(
        first,
        DeltaReceiveStatus::Applied {
            from: from.clone(),
            key: key.clone(),
            previous_version: 0,
            to_version: 2,
            changed: true
        }
    );
    assert_eq!(tracker.current_version(&from, &key), 2);

    let again = tracker.apply_delta(&mut store, from.clone(), key.clone(), 1, 2, counter(3));
    assert_eq!(
        again,
        DeltaReceiveStatus::AlreadyHandled {
            from: from.clone(),
            key: key.clone(),
            current_version: 2,
            to_version: 2
        }
    );
    assert_eq!(tracker.current_version(&from, &key), 2);
    assert_eq!(store.values["k"], 3);
}

#[test]
fn gaps_and_invalid_ranges_are_rejected_without_advancing() {
    let mut tracker = DeltaReceiveTracker::new();
    let mut store = Store::default();
    let from = ReplicaId::new("peer");
    let key = ReplicatorKey::new("k");

    assert_eq!(
        tracker.apply_delta(&mut store, from.clone(), key.clone(), 3, 4, counter(1)),
        DeltaReceiveStatus::Missing {
            from: from.clone(),
            key: key.clone(),
            current_version: 0,
            expected_from_version: 1,
            from_version: 3,
            to_version: 4
        }
    );
    assert_eq!(
        tracker.apply_delta(&mut store, from.clone(), key.clone(), 0, 4, counter(1)),
        DeltaReceiveStatus::InvalidRange { from: from.clone(), key: key.clone(), from_version: 0, to_version: 4 }
    );
    assert_eq!(
        tracker.apply_delta(&mut store, from.clone(), key.clone(), 5, 4, counter(1)),
        DeltaReceiveStatus::InvalidRange { from: from.clone(), key: key.clone(), from_version: 5, to_version: 4 }
    );
    assert_eq!(tracker.current_version(&from, &key), 0);
    assert!(store.values.is_empty());

    // An overlapping range that extends the applied prefix is accepted.
    tracker.apply_delta(&mut store, from.clone(), key.clone(), 1, 2, counter(1));
    let overlap = tracker.apply_delta(&mut store, from.clone(), key.clone(), 2, 5, counter(1));
    assert!(matches!(overlap, DeltaReceiveStatus::Applied { previous_version: 2, to_version: 5, .. }));
    assert_eq!(tracker.current_version(&from, &key), 5);
}

#[test]
fn tracker_forgets_sources_and_keys() {
    let mut tracker = DeltaReceiveTracker::new();
    let mut store = Store::default();
    let a = ReplicaId::new("a");
    let b = ReplicaId::new("b");
    let k = ReplicatorKey::new("k");
    let j = ReplicatorKey::new("j");
    tracker.apply_delta(&mut store, a.clone(), k.clone(), 1, 1, counter(1));
    tracker.apply_delta(&mut store, a.clone(), j.clone(), 1, 1, counter(1));
    tracker.apply_delta(&mut store, b.clone(), k.clone(), 1, 3, counter(1));
    tracker.forget_key(&k);
    assert_eq!(tracker.current_version(&a, &k), 0);
    assert_eq!(tracker.current_version(&b, &k), 0);
    assert_eq!(tracker.current_version(&a, &j), 1);
    tracker.clear_from(&a);
    assert_eq!(tracker.current_version(&a, &j), 0);
}

#[test]
fn propagation_replies_ack_only_when_every_range_succeeds() {
    let mut tracker = DeltaReceiveTracker::new();
    let mut store = Store::default();
    let from = ReplicaId::new("peer");
    let ranges = vec![
        Ok(DecodedReplicatorDelta::new(ReplicatorKey::new("a"), counter(2), 1, 1)),
        Ok(DecodedReplicatorDelta::new(ReplicatorKey::new("b"), counter(4), 1, 2)),
    ];
    let report = tracker.apply_propagation(&mut store, &from, true, &ranges);
    assert!(report.is_success());
    assert_eq!(report.statuses().len(), 2);
    assert_eq!(report.reply(), Some(DeltaReceiveReply::Ack(kairo_distributed_data::ReplicatorDeltaAck)));
    assert_eq!(store.values["a"], 2);
    assert_eq!(store.values["b"], 4);

    let failing = vec![
        Ok(DecodedReplicatorDelta::new(ReplicatorKey::new("a"), counter(1), 5, 6)),
        Err(DeltaReceiveFailure::DecodeFailed { key: "c".to_string(), reason: "bad".to_string() }),
    ];
    let report = tracker.apply_propagation(&mut store, &from, true, &failing);
    assert!(!report.is_success());
    assert_eq!(report.failures().len(), 1);
    assert_eq!(report.reply(), Some(DeltaReceiveReply::Nack(kairo_distributed_data::ReplicatorDeltaNack)));

    let silent = tracker.apply_propagation(&mut store, &from, false, &failing);
    assert_eq!(silent.reply(), None);
    assert_eq!(silent.from(), &from);
    assert!(!silent.reply_requested());
}

#[test]
fn seen_propagation_marks_applied_keys() {
    let mut tracker = DeltaReceiveTracker::new();
    let mut store = Store::default();
    let from = ReplicaId::new("peer");
    let me = ReplicaId::new("me");
    let ranges = vec![Ok(DecodedReplicatorDelta::new(ReplicatorKey::new("a"), counter(2), 1, 1)
        .with_pruning(PruningTable::new()))];
    let report = tracker.apply_propagation_with_seen(&mut store, &from, false, &ranges, &me);
    assert!(report.is_success());
    assert_eq!(tracker.current_version(&from, &ReplicatorKey::new("a")), 1);
}
