use kairo_distributed_data::ormap::{ORMap, ValueDeltas};
use kairo_distributed_data::sorted_map::SortedMap;
use kairo_distributed_data::version_vector::VersionVector;
use kairo_distributed_data::{GSet, ORSet, ORSetRemoveDelta, ReplicaId};

fn vv(entries: &[(&str, u64)]) -> SortedMap<ReplicaId, u64> {
    let mut m = SortedMap::new();
    for (r, v) in entries {
        m.insert(ReplicaId::new(r), *v);
    }
    m
}

#[test]
fn version_vectors_from_the_wire_refuse_zero_versions() {
    let v = VersionVector::from_entries(vv(&[("a", 2), ("b", 1)])).unwrap();
    assert_eq!(v.version_at(&ReplicaId::new("a")), 2);
    assert!(VersionVector::from_entries(vv(&[("a", 0)])).is_none());
    assert!(VersionVector::from_entries(vv(&[])).unwrap().is_empty());
}

#[test]
fn orset_from_the_wire_keeps_dotted_elements_within_the_context() {
    let context = VersionVector::from_entries(vv(&[("a", 2)])).unwrap();
    let listing = vec![
        ("x".to_string(), VersionVector::from_entries(vv(&[("a", 1)])).unwrap()),
        ("gone".to_string(), VersionVector::from_entries(vv(&[])).unwrap()),
        ("x".to_string(), VersionVector::from_entries(vv(&[("a", 2)])).unwrap()),
    ];
    let set = ORSet::from_wire_state(listing, context).unwrap();
    assert!(set.contains(&"x".to_string()));
    assert!(!set.contains(&"gone".to_string()));
    assert_eq!(set.len(), 1);
    assert_eq!(set.dots_for(&"x".to_string()).unwrap().get("a"), Some(&2));

    let context = VersionVector::from_entries(vv(&[("a", 1)])).unwrap();
    let newer = vec![("x".to_string(), VersionVector::from_entries(vv(&[("a", 2)])).unwrap())];
    assert!(ORSet::from_wire_state(newer, context).is_none());
}

#[test]
fn added_elements_survive_the_wire_state_round_trip() {
    let set = ORSet::new().add(ReplicaId::new("a"), "x".to_string()).add(ReplicaId::new("b"), "y".to_string());
    let mut listing = Vec::new();
    for element in set.elements().to_vec() {
        let dots = VersionVector::from_entries(set.dots_for(&element).unwrap().duplicate()).unwrap();
        listing.push((element, dots));
    }
    let context = VersionVector::from_entries(set.version_vector_entries().duplicate()).unwrap();
    let back = ORSet::from_wire_state(listing, context).unwrap();
    assert_eq!(back.elements().to_vec(), set.elements().to_vec());
    assert_eq!(back.version_vector_entries().keys(), set.version_vector_entries().keys());
}

#[test]
fn removal_and_map_wire_states_keep_their_parts() {
    let seen = VersionVector::from_entries(vv(&[("a", 3)])).unwrap();
    let dot = VersionVector::from_entries(vv(&[("b", 1)])).unwrap();
    let removal = ORSetRemoveDelta::from_wire_state("x".to_string(), seen, dot);
    assert_eq!(removal.element(), "x");
    assert_eq!(removal.seen().version_at(&ReplicaId::new("a")), 3);
    assert_eq!(removal.remove_dot().version_at(&ReplicaId::new("b")), 1);

    let keys = ORSet::new().add(ReplicaId::new("a"), "k".to_string());
    let mut values = SortedMap::new();
    values.insert("k".to_string(), GSet::from_elements(vec!["v".to_string()]));
    let map: ORMap<String, GSet<String>> = ORMap::from_wire_state(keys, values);
    assert!(map.contains_key(&"k".to_string()));
    assert_eq!(map.key_set().len(), 1);
    assert!(map.delta().is_none());

    let mut deltas = SortedMap::new();
    deltas.insert("k".to_string(), GSet::from_elements(vec!["w".to_string()]));
    let update: ValueDeltas<String, GSet<String>> = ValueDeltas::from_entries(deltas);
    assert_eq!(update.entries().len(), 1);
}
