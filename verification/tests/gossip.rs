use kairo_distributed_data::key::ReplicatorKey;
use kairo_distributed_data::sorted_map::SortedMap;
use kairo_distributed_data::gossip::{create_gossip, digests_of, respond_to_gossip_status};
use kairo_distributed_data::{
    build_gossip_status, digest_envelope, key_belongs_to_chunk, plan_status_response,
    ReplicaId, ReplicatorDataEnvelope, ReplicatorGossipDigest, ReplicatorGossipError,
    ReplicatorGossipStatus, ReplicatorPruningEntry, ReplicatorPruningState,
    REPLICATOR_GOSSIP_NOT_FOUND_DIGEST,
};

fn counter_envelope(replica: &str, value: u8) -> ReplicatorDataEnvelope {
    let mut payload = replica.as_bytes().to_vec();
    payload.push(value);
    ReplicatorDataEnvelope {
        crdt_manifest: "kairo.ddata.gcounter".to_string(),
        crdt_version: 1,
        payload,
        pruning: Vec::new(),
    }
}

fn write_counter(
    state: &mut SortedMap<ReplicatorKey, ReplicatorDataEnvelope>,
    key: &str,
    value: u8,
) {
    state.insert(ReplicatorKey::new(key), counter_envelope("local", value));
}

fn status(entries: Vec<ReplicatorGossipDigest>, to: Option<u64>, from: Option<u64>) -> ReplicatorGossipStatus {
    ReplicatorGossipStatus {
        entries,
        chunk: 0,
        total_chunks: 1,
        to_system_uid: to,
        from_system_uid: from,
    }
}

fn digest(key: &str, digest: u64) -> ReplicatorGossipDigest {
    ReplicatorGossipDigest { key: key.to_string(), digest, used_timestamp_millis: 0 }
}

#[test]
fn gossip_status_contains_stable_non_zero_digests() {
    let mut state = SortedMap::new();
    write_counter(&mut state, "a", 1);
    write_counter(&mut state, "b", 2);

    let status = build_gossip_status(&digests_of(&state), 0, 1, Some(2), Some(1)).unwrap();

    assert_eq!(status.entries.len(), 2);
    assert_eq!(status.to_system_uid, Some(2));
    assert_eq!(status.from_system_uid, Some(1));
    assert!(status
        .entries
        .iter()
        .all(|entry| entry.digest != REPLICATOR_GOSSIP_NOT_FOUND_DIGEST));
    let again = build_gossip_status(&digests_of(&state), 0, 1, Some(2), Some(1)).unwrap();
    assert_eq!(status, again);
}

#[test]
fn status_response_sends_different_and_missing_local_keys() {
    let mut local = SortedMap::new();
    write_counter(&mut local, "different", 10);
    write_counter(&mut local, "local-only", 20);

    let remote_envelope = counter_envelope("remote", 99);
    let remote_digest = digest_envelope(&remote_envelope);
    let status = status(vec![digest("different", remote_digest)], Some(7), Some(8));

    let plan = respond_to_gossip_status(&local, &status, 10).unwrap();

    let gossip = plan.gossip().unwrap();
    assert!(gossip.send_back);
    assert_eq!(gossip.to_system_uid, Some(8));
    assert_eq!(gossip.from_system_uid, Some(7));
    assert_eq!(
        gossip.entries.iter().map(|entry| entry.key.as_str()).collect::<Vec<_>>(),
        vec!["different", "local-only"]
    );
    assert!(plan.missing_status().is_none());
}

#[test]
fn status_response_requests_keys_missing_locally() {
    let local = SortedMap::new();
    let status = status(vec![digest("remote-only", 42)], Some(1), Some(2));

    let plan = respond_to_gossip_status(&local, &status, 10).unwrap();

    assert!(plan.gossip().is_none());
    let request = plan.missing_status().unwrap();
    assert_eq!(request.to_system_uid, Some(2));
    assert_eq!(request.from_system_uid, Some(1));
    assert_eq!(request.entries[0].key, "remote-only");
    assert_eq!(request.entries[0].digest, REPLICATOR_GOSSIP_NOT_FOUND_DIGEST);
}

#[test]
fn not_found_digest_requests_local_full_state() {
    let mut local = SortedMap::new();
    write_counter(&mut local, "requested", 10);
    let status = status(
        vec![digest("requested", REPLICATOR_GOSSIP_NOT_FOUND_DIGEST)],
        Some(7),
        Some(8),
    );

    let plan = respond_to_gossip_status(&local, &status, 10).unwrap();

    let gossip = plan.gossip().expect("not-found digest must request data");
    assert!(gossip.send_back);
    assert_eq!(gossip.to_system_uid, Some(8));
    assert_eq!(gossip.from_system_uid, Some(7));
    assert_eq!(gossip.entries.len(), 1);
    assert_eq!(gossip.entries[0].key, "requested");
    assert!(plan.missing_status().is_none());
}

#[test]
fn gossip_rejects_invalid_chunks_and_zero_response_limit() {
    let state: SortedMap<ReplicatorKey, ReplicatorDataEnvelope> = SortedMap::new();
    let invalid_status = ReplicatorGossipStatus {
        entries: Vec::new(),
        chunk: 1,
        total_chunks: 1,
        to_system_uid: None,
        from_system_uid: None,
    };
    let valid_status = ReplicatorGossipStatus { chunk: 0, total_chunks: 1, ..invalid_status.clone() };

    assert!(matches!(
        build_gossip_status(&digests_of(&state), 0, 0, None, None),
        Err(ReplicatorGossipError::InvalidChunk { chunk: 0, total_chunks: 0 })
    ));
    assert!(matches!(
        respond_to_gossip_status(&state, &invalid_status, 1),
        Err(ReplicatorGossipError::InvalidChunk { chunk: 1, total_chunks: 1 })
    ));
    assert!(matches!(
        respond_to_gossip_status(&state, &valid_status, 0),
        Err(ReplicatorGossipError::ZeroMaxEntries)
    ));
}

#[test]
fn equal_digests_send_nothing_and_response_is_bounded() {
    let mut local = SortedMap::new();
    write_counter(&mut local, "same", 1);
    write_counter(&mut local, "x", 2);
    write_counter(&mut local, "y", 3);
    let same = digest_envelope(&counter_envelope("local", 1));
    let status = status(vec![digest("same", same)], None, None);

    let response = plan_status_response(&digests_of(&local), &status, 1).unwrap();
    assert!(!response.send_back);
    assert_eq!(response.send_keys, vec![ReplicatorKey::new("x")]);
    assert!(response.missing_status.is_none());
}

#[test]
fn create_gossip_skips_absent_keys() {
    let mut local = SortedMap::new();
    write_counter(&mut local, "present", 4);
    let keys = vec![ReplicatorKey::new("absent"), ReplicatorKey::new("present")];
    let gossip = create_gossip(&local, &keys, true, Some(3), None);
    assert_eq!(gossip.entries.len(), 1);
    assert_eq!(gossip.entries[0].key, "present");
    assert_eq!(gossip.entries[0].envelope, counter_envelope("local", 4));
    assert!(gossip.send_back);
    assert_eq!(gossip.to_system_uid, Some(3));
    assert_eq!(gossip.from_system_uid, None);
}

#[test]
fn digest_is_fnv1a_and_covers_pruning_metadata() {
    let empty = ReplicatorDataEnvelope {
        crdt_manifest: String::new(),
        crdt_version: 0,
        payload: Vec::new(),
        pruning: Vec::new(),
    };
    // FNV-1a over eight zero length bytes, two version bytes, eight more zero length bytes.
    let mut hash: u64 = 0xcbf29ce484222325;
    for byte in [0u8; 18] {
        hash ^= u64::from(byte);
        hash = hash.wrapping_mul(0x100000001b3);
    }
    assert_eq!(digest_envelope(&empty), hash);

    let mut pruned = counter_envelope("local", 1);
    pruned.pruning.push(ReplicatorPruningEntry {
        removed: ReplicaId::new("gone"),
        state: ReplicatorPruningState::Performed { obsolete_at_millis: 9 },
    });
    assert_ne!(digest_envelope(&pruned), digest_envelope(&counter_envelope("local", 1)));
}

#[test]
fn single_chunk_holds_every_key() {
    assert!(key_belongs_to_chunk(&ReplicatorKey::new("anything"), 0, 1));
    let key = ReplicatorKey::new("k");
    let hits = (0..4).filter(|c| key_belongs_to_chunk(&key, *c, 4)).count();
    assert_eq!(hits, 1);
}
