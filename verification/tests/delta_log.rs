use kairo_distributed_data::pruning::PruningTable;
use std::cell::RefCell;

use kairo_distributed_data::delta::DeltaPropagation;
use kairo_distributed_data::key::ReplicatorKey;
use kairo_distributed_data::sorted_map::SortedMap;
use kairo_distributed_data::{
    DeltaPropagationLog, DeltaPropagationLoop, DeltaPropagationSink, DeltaTransportReport,
    GCounter, ReplicaId,
};

fn replica(id: &str) -> ReplicaId {
    ReplicaId::new(id)
}

fn inc(by: &str, amount: u128) -> GCounter {
    GCounter::new().increment(replica(by), amount).unwrap()
}

fn delta_value(props: &SortedMap<ReplicaId, DeltaPropagation<GCounter>>, node: &str, key: &str) -> Option<(u128, u64, u64)> {
    let prop = props.get(node)?;
    let entry = prop.entries().get(key)?;
    Some((entry.delta().value().unwrap(), entry.from_version(), entry.to_version()))
}

#[test]
fn record_delta_assigns_consecutive_versions() {
    let mut log: DeltaPropagationLog<GCounter> = DeltaPropagationLog::new(vec![replica("b")]);
    let key = ReplicatorKey::new("k");
    assert_eq!(log.current_version(&key), 0);
    assert_eq!(log.record_delta(ReplicatorKey::new("k"), Some(inc("a", 1))), 1);
    assert_eq!(log.record_delta(ReplicatorKey::new("k"), None), 2);
    assert_eq!(log.record_delta(ReplicatorKey::new("k"), Some(inc("a", 2))), 3);
    assert_eq!(log.current_version(&key), 3);
    assert!(log.has_delta_entries(&key));
    log.delete_key(&key);
    assert_eq!(log.current_version(&key), 0);
    assert!(!log.has_delta_entries(&key));
}

#[test]
fn targets_are_sorted_and_deduplicated() {
    let log: DeltaPropagationLog<GCounter> =
        DeltaPropagationLog::new(vec![replica("c"), replica("a"), replica("c"), replica("b")]);
    assert_eq!(log.nodes().to_vec(), vec![replica("a"), replica("b"), replica("c")]);
}

#[test]
fn collection_merges_unsent_range_and_leaves_nothing_pending() {
    let mut log: DeltaPropagationLog<GCounter> =
        DeltaPropagationLog::new(vec![replica("b"), replica("c")]);
    log.record_delta(ReplicatorKey::new("k"), Some(inc("a", 1)));
    log.record_delta(ReplicatorKey::new("k"), Some(inc("a", 3)));

    let first = log.collect_propagations();
    assert_eq!(log.propagation_count(), 1);
    assert_eq!(delta_value(&first, "b", "k"), Some((3, 1, 2)));
    assert_eq!(delta_value(&first, "c", "k"), Some((3, 1, 2)));

    let second = log.collect_propagations();
    assert!(second.is_empty());
    assert_eq!(log.propagation_count(), 2);

    log.record_delta(ReplicatorKey::new("k"), Some(inc("x", 5)));
    let third = log.collect_propagations();
    assert_eq!(delta_value(&third, "b", "k"), Some((5, 3, 3)));
}

#[test]
fn missing_payload_or_long_range_falls_back_to_full_state() {
    let mut log: DeltaPropagationLog<GCounter> =
        DeltaPropagationLog::new(vec![replica("b")]).with_max_delta_versions(2);
    log.record_delta(ReplicatorKey::new("gap"), Some(inc("a", 1)));
    log.record_delta(ReplicatorKey::new("gap"), None);
    log.record_delta(ReplicatorKey::new("long"), Some(inc("a", 1)));
    log.record_delta(ReplicatorKey::new("long"), Some(inc("a", 2)));
    log.record_delta(ReplicatorKey::new("ok"), Some(inc("a", 4)));

    let props = log.collect_propagations();
    assert_eq!(delta_value(&props, "b", "gap"), None);
    assert_eq!(delta_value(&props, "b", "long"), None);
    assert_eq!(delta_value(&props, "b", "ok"), Some((4, 1, 1)));
    assert!(log.collect_propagations().is_empty());
}

#[test]
fn no_targets_collects_nothing_and_cleanup_clears_entries() {
    let mut log: DeltaPropagationLog<GCounter> = DeltaPropagationLog::new(Vec::new());
    log.record_delta(ReplicatorKey::new("k"), Some(inc("a", 1)));
    assert!(log.collect_propagations().is_empty());
    assert_eq!(log.propagation_count(), 1);
    log.cleanup_delta_entries();
    assert!(!log.has_delta_entries(&ReplicatorKey::new("k")));
    assert_eq!(log.current_version(&ReplicatorKey::new("k")), 1);
}

#[test]
fn cleanup_keeps_ranges_pending_for_any_target() {
    let nodes: Vec<ReplicaId> = ["a", "b", "c"].iter().map(|n| replica(n)).collect();
    let mut log: DeltaPropagationLog<GCounter> = DeltaPropagationLog::new(nodes);
    log.record_delta(ReplicatorKey::new("k"), Some(inc("x", 1)));

    // Three targets, two selected per tick: "a" and "b" first.
    let first = log.collect_propagations();
    assert!(first.contains_key("a") && first.contains_key("b") && !first.contains_key("c"));
    log.cleanup_delta_entries();
    assert!(log.has_delta_entries(&ReplicatorKey::new("k")));

    // Next tick wraps around to "c" and then "a".
    let second = log.collect_propagations();
    assert_eq!(delta_value(&second, "c", "k"), Some((1, 1, 1)));
    assert!(!second.contains_key("a"));
    log.cleanup_delta_entries();
    assert!(!log.has_delta_entries(&ReplicatorKey::new("k")));
}

#[test]
fn removed_target_progress_is_forgotten() {
    let mut log: DeltaPropagationLog<GCounter> = DeltaPropagationLog::new(vec![replica("b")]);
    log.record_delta(ReplicatorKey::new("k"), Some(inc("x", 2)));
    log.collect_propagations();
    log.cleanup_removed_node(&replica("b"));
    let again = log.collect_propagations();
    assert_eq!(delta_value(&again, "b", "k"), Some((2, 1, 1)));
}

struct CountingSink {
    published: RefCell<Vec<usize>>,
}

impl DeltaPropagationSink<GCounter> for CountingSink {
    fn publish(&self, propagations: SortedMap<ReplicaId, DeltaPropagation<GCounter>>) -> DeltaTransportReport {
        self.published.borrow_mut().push(propagations.len());
        DeltaTransportReport::empty()
    }
}

#[test]
fn propagation_loop_cleans_on_cadence() {
    let sink = CountingSink { published: RefCell::new(Vec::new()) };
    let driver = DeltaPropagationLoop::new(sink).with_cleanup_every_ticks(2);
    assert_eq!(driver.cleanup_every_ticks(), 2);
    let mut log: DeltaPropagationLog<GCounter> = DeltaPropagationLog::new(vec![replica("b")]);
    log.record_delta(ReplicatorKey::new("k"), Some(inc("x", 2)));
    let first = driver.run_tick(&mut log);
    assert_eq!(first.propagation_count(), 1);
    assert!(!first.cleaned_delta_entries());
    assert!(log.has_delta_entries(&ReplicatorKey::new("k")));
    let second = driver.run_tick(&mut log);
    assert_eq!(second.propagation_count(), 2);
    assert!(second.cleaned_delta_entries());
    assert!(!log.has_delta_entries(&ReplicatorKey::new("k")));
    assert_eq!(DeltaPropagationLoop::new(CountingSink { published: RefCell::new(Vec::new()) }).with_cleanup_every_ticks(0).cleanup_every_ticks(), 1);
}

struct RecordingSink {
    published: RefCell<Vec<SortedMap<ReplicaId, DeltaPropagation<GCounter>>>>,
}

impl DeltaPropagationSink<GCounter> for RecordingSink {
    fn publish(&self, propagations: SortedMap<ReplicaId, DeltaPropagation<GCounter>>) -> DeltaTransportReport {
        self.published.borrow_mut().push(propagations);
        DeltaTransportReport::empty()
    }
}

#[test]
fn pruning_is_attached_to_every_selected_key_before_publication() {
    let mut log: DeltaPropagationLog<GCounter> = DeltaPropagationLog::new(vec![replica("b")]);
    log.record_delta(ReplicatorKey::new("k1"), Some(inc("a", 1)));
    log.record_delta(ReplicatorKey::new("k2"), Some(inc("a", 2)));
    let sink = std::sync::Arc::new(RecordingSink { published: RefCell::new(Vec::new()) });
    let driver = DeltaPropagationLoop::from_arc(sink.clone());
    let report = driver.run_tick_with_pruning(&mut log, |key: &ReplicatorKey| {
        let mut table = PruningTable::new();
        if key.as_str() == "k1" {
            table.mark_performed(replica("gone"), 99);
        }
        table
    });
    assert_eq!(report.propagation_count(), 1);
    let published = sink.published.borrow();
    let batch = published[0].get("b").unwrap();
    assert_eq!(batch.entries().len(), 2);
    assert_eq!(batch.pruning_for(&ReplicatorKey::new("k1")).unwrap().len(), 1);
    assert!(batch.pruning_for(&ReplicatorKey::new("k2")).unwrap().is_empty());

    let plain = log.collect_propagations();
    assert!(plain.get("b").map_or(true, |p| p.pruning_for(&ReplicatorKey::new("k1")).is_none()));
}

#[test]
fn round_robin_selection_reaches_every_replica_within_one_turn() {
    let names: Vec<String> = (0..12).map(|i| format!("n{:02}", i)).collect();
    let mut log: DeltaPropagationLog<GCounter> =
        DeltaPropagationLog::new(names.iter().map(|n| replica(n)).collect());
    log.record_delta(ReplicatorKey::new("k"), Some(inc("a", 1)));
    let mut reached: Vec<String> = Vec::new();
    for _ in 0..4 {
        let props = log.collect_propagations();
        assert_eq!(props.len(), 3);
        for node in props.keys() {
            reached.push(node.as_str().to_string());
        }
    }
    reached.sort();
    assert_eq!(reached, names);
    assert_eq!(log.collect_propagations().len(), 0);
}
