use kairo_distributed_data::data::{DeltaReplicatedData, Mergeable, RemovedNodePruning};
use kairo_distributed_data::lww_register::{timestamp_from_wire, timestamp_to_wire};
use kairo_distributed_data::{
    CrdtError, GCounter, GSet, LWWRegister, ORMap, ORSet, PNCounter, ReplicaId,
};

fn r(id: &str) -> ReplicaId {
    ReplicaId::new(id)
}

#[test]
fn gcounter_sums_per_replica_maxima() {
    let a = GCounter::new().increment(r("a"), 3).unwrap().increment(r("a"), 2).unwrap();
    let b = GCounter::new().increment(r("b"), 7).unwrap();
    assert_eq!(a.replica_value(&r("a")), 5);
    assert_eq!(a.value().unwrap(), 5);
    let merged = a.merge(&b);
    assert_eq!(merged.value().unwrap(), 12);
    assert_eq!(b.merge(&a).value().unwrap(), 12);
    assert_eq!(merged.merge(&merged).value().unwrap(), 12);
    let stale = GCounter::new().increment(r("a"), 1).unwrap();
    assert_eq!(merged.merge(&stale).replica_value(&r("a")), 5);
}

#[test]
fn gcounter_reports_overflow() {
    let big = GCounter::new().increment(r("a"), u128::MAX).unwrap();
    assert_eq!(big.increment(r("a"), 1).unwrap_err(), CrdtError::CounterOverflow);
    let two = big.merge(&GCounter::new().increment(r("b"), 1).unwrap());
    assert_eq!(two.value(), Err(CrdtError::CounterOverflow));
    assert!(big.increment(r("a"), 0).is_ok());
}

#[test]
fn gcounter_delta_converges_and_pruning_keeps_total() {
    let base = GCounter::new().increment(r("a"), 4).unwrap().reset_delta();
    let updated = base.increment(r("a"), 6).unwrap();
    let delta = updated.delta().unwrap();
    assert_eq!(base.merge_delta(&delta).value().unwrap(), 10);
    assert_eq!(base.reset_delta().delta(), None);

    let counter = GCounter::new()
        .increment(r("gone"), 4)
        .unwrap()
        .increment(r("keep"), 2)
        .unwrap();
    assert!(counter.need_pruning_from(&r("gone")));
    let pruned = counter.prune(&r("gone"), r("keep")).unwrap();
    assert_eq!(pruned.value().unwrap(), 6);
    assert_eq!(pruned.replica_value(&r("gone")), 0);
    assert_eq!(pruned.replica_value(&r("keep")), 6);
    assert!(!pruned.need_pruning_from(&r("gone")));
}

#[test]
fn pncounter_value_is_increments_minus_decrements() {
    let c = PNCounter::new()
        .increment(r("a"), 10)
        .unwrap()
        .decrement(r("b"), 4)
        .unwrap()
        .change(r("a"), -3)
        .unwrap();
    assert_eq!(c.value().unwrap(), 3);
    assert_eq!(c.increments().value().unwrap(), 10);
    assert_eq!(c.decrements().value().unwrap(), 7);
    let other = PNCounter::new().change(r("c"), 5).unwrap();
    assert_eq!(c.merge(&other).value().unwrap(), 8);
    assert_eq!(other.merge(&c).value().unwrap(), 8);
}

#[test]
fn pncounter_rejects_values_outside_signed_range() {
    let c = PNCounter::new().increment(r("a"), u128::MAX).unwrap();
    assert_eq!(c.value(), Err(CrdtError::CounterValueOutOfRange));
    let pruned = PNCounter::new()
        .increment(r("gone"), 3)
        .unwrap()
        .decrement(r("gone"), 1)
        .unwrap()
        .prune(&r("gone"), r("keep"))
        .unwrap();
    assert_eq!(pruned.value().unwrap(), 2);
    assert!(!pruned.need_pruning_from(&r("gone")));
}

#[test]
fn gset_grows_by_union() {
    let a = GSet::new().add("x".to_string()).add("y".to_string());
    let b = GSet::new().add("z".to_string());
    assert!(a.contains(&"x".to_string()));
    assert_eq!(a.len(), 2);
    let m = a.merge(&b);
    assert_eq!(m.len(), 3);
    assert_eq!(b.merge(&a).len(), 3);
    let delta = a.add("w".to_string()).delta().unwrap();
    assert_eq!(a.reset_delta().merge_delta(&delta).len(), 3);
}

#[test]
fn lww_register_prefers_later_timestamp_then_lower_writer() {
    let a = LWWRegister::new(r("a"), "one".to_string(), 5);
    let b = LWWRegister::new(r("b"), "two".to_string(), 7);
    assert_eq!(a.merge(&b).value(), "two");
    assert_eq!(b.merge(&a).value(), "two");
    let tie_low = LWWRegister::new(r("a"), "low".to_string(), 9);
    let tie_high = LWWRegister::new(r("b"), "high".to_string(), 9);
    assert_eq!(tie_low.merge(&tie_high).value(), "low");
    assert_eq!(tie_high.merge(&tie_low).value(), "low");
    let next = a.with_value(r("c"), "three".to_string(), 11);
    assert_eq!(next.timestamp(), 11);
    assert_eq!(next.node(), &r("c"));
}

#[test]
fn lww_clocks_move_forward_and_backward() {
    assert_eq!(kairo_distributed_data::lww_register::default_lww_clock_at(100, 5), 100);
    assert_eq!(kairo_distributed_data::lww_register::default_lww_clock_at(3, 5), 6);
    assert_eq!(kairo_distributed_data::lww_register::default_lww_clock_at(3, i64::MAX), i64::MAX);
    assert_eq!(kairo_distributed_data::lww_register::reverse_lww_clock_at(100, 5), -100);
    assert_eq!(kairo_distributed_data::lww_register::reverse_lww_clock_at(100, -200), -201);
    let reg = LWWRegister::new(r("a"), "v".to_string(), 10);
    assert!(reg.with_value_default_clock(r("a"), "w".to_string()).timestamp() >= 11);
    assert!(reg.with_value_reverse_clock(r("a"), "w".to_string()).timestamp() <= 9);
}

#[test]
fn orset_add_wins_over_concurrent_remove() {
    let base = ORSet::new().add(r("a"), "x".to_string());
    let removed = base.remove(r("a"), &"x".to_string());
    let concurrent_add = base.add(r("b"), "x".to_string());
    assert!(!removed.contains(&"x".to_string()));
    let merged = removed.merge(&concurrent_add);
    assert!(merged.contains(&"x".to_string()));
    assert!(concurrent_add.merge(&removed).contains(&"x".to_string()));
    let observed = removed.merge(&base);
    assert!(!observed.contains(&"x".to_string()));
    assert_eq!(merged.merge(&merged).len(), merged.len());
}

#[test]
fn orset_delta_reproduces_the_update() {
    let base = ORSet::new().add(r("a"), "x".to_string()).reset();
    let updated = base.add(r("a"), "y".to_string()).remove(r("a"), &"x".to_string());
    let delta = updated.delta().unwrap();
    let replayed = base.merge_delta(&delta);
    assert!(replayed.contains(&"y".to_string()));
    assert!(!replayed.contains(&"x".to_string()));
    assert_eq!(replayed.len(), updated.len());
}

#[test]
fn ormap_merges_values_per_key() {
    let a: ORMap<String, GCounter> =
        ORMap::new().put(r("a"), "k".to_string(), GCounter::new().increment(r("a"), 2).unwrap());
    let b: ORMap<String, GCounter> =
        ORMap::new().put(r("b"), "k".to_string(), GCounter::new().increment(r("b"), 3).unwrap());
    let merged = a.merge(&b);
    assert_eq!(merged.get(&"k".to_string()).unwrap().value().unwrap(), 5);
    assert_eq!(b.merge(&a).get(&"k".to_string()).unwrap().value().unwrap(), 5);
    let removed = merged.remove(r("a"), &"k".to_string());
    assert!(!removed.contains_key(&"k".to_string()));
    assert!(removed.is_empty());
    let bumped = merged.updated(r("a"), "k".to_string(), GCounter::new(), |c| {
        c.increment(r("a"), 1).unwrap()
    });
    assert_eq!(bumped.get(&"k".to_string()).unwrap().value().unwrap(), 6);
}

#[test]
fn timestamps_round_trip_through_their_wire_form() {
    for t in [0i64, 1, -1, i64::MAX, i64::MIN, 1_700_000_000_000, -42] {
        assert_eq!(timestamp_to_wire(t), u64::from_be_bytes(t.to_be_bytes()));
        assert_eq!(timestamp_from_wire(timestamp_to_wire(t)), t);
    }
    assert_eq!(timestamp_to_wire(-1), u64::MAX);
    assert_eq!(timestamp_from_wire(1u64 << 63), i64::MIN);
}

#[test]
fn merging_clears_pending_deltas() {
    let a = GCounter::new().increment(r("a"), 3).unwrap();
    let b = GCounter::new().increment(r("b"), 4).unwrap();
    assert!(a.delta().is_some());
    let merged = a.merge(&b);
    assert_eq!(merged.delta(), None);
    assert_eq!(merged.value().unwrap(), 7);
    assert_eq!(merged, GCounter::from_state(vec![(r("a"), 3), (r("b"), 4)]));

    let s = GSet::new().add("x".to_string());
    assert!(s.delta().is_some());
    assert_eq!(s.merge(&GSet::new()).delta(), None);
}
