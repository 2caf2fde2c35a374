use kairo_distributed_data::data::{DeltaReplicatedData, Mergeable};
use kairo_distributed_data::gossip::{create_gossip, ReplicatorGossipError};
use kairo_distributed_data::direct::{apply_decoded_write, apply_write};
use kairo_distributed_data::envelope::EnvelopeStore;
use kairo_distributed_data::gossip_apply::apply_gossip;
use kairo_distributed_data::protocol::ReplicatorWrite;
use kairo_distributed_data::wire_codec::WireDecodeError;
use kairo_distributed_data::key::ReplicatorKey;
use kairo_distributed_data::protocol::{ReplicatorDataEnvelope, ReplicatorGossip, ReplicatorGossipEntry};
use kairo_distributed_data::sorted_map::SortedMap;
use kairo_distributed_data::wire_codec::{encode_data_envelope, CrdtDataCodec};
use kairo_distributed_data::{DataEnvelope, GCounter, ReplicaId};

/// Replica names and counts as `name=count` lines.
struct CounterCodec;

impl CrdtDataCodec<GCounter> for CounterCodec {
    fn manifest(&self) -> &'static str {
        "kairo.ddata.gcounter"
    }

    fn version(&self) -> u16 {
        1
    }

    fn encode_payload(&self, data: &GCounter) -> Result<Vec<u8>, String> {
        let state = data.state();
        let lines: Vec<String> = state
            .keys()
            .into_iter()
            .zip(state.values())
            .map(|(replica, count)| format!("{}={}", replica.as_str(), count))
            .collect();
        Ok(lines.join("\n").into_bytes())
    }

    fn decode_payload(&self, payload: &Vec<u8>, _version: u16) -> Result<GCounter, String> {
        let text = String::from_utf8(payload.clone()).map_err(|e| e.to_string())?;
        let mut state = Vec::new();
        for line in text.lines() {
            let (name, count) = line.split_once('=').ok_or_else(|| "bad line".to_string())?;
            state.push((ReplicaId::new(name), count.parse::<u128>().map_err(|e| e.to_string())?));
        }
        Ok(GCounter::from_state(state))
    }
}

/// Envelopes by key; a write merges into what is stored.
struct Store {
    envelopes: SortedMap<ReplicatorKey, DataEnvelope<GCounter>>,
}

impl EnvelopeStore<GCounter> for Store {
    fn contains_key(&self, key: &ReplicatorKey) -> bool {
        self.envelopes.contains_key(key.as_str())
    }

    fn envelope(&self, key: &ReplicatorKey) -> Option<&DataEnvelope<GCounter>> {
        self.envelopes.get(key.as_str())
    }

    fn write_full(&mut self, key: ReplicatorKey, envelope: DataEnvelope<GCounter>) -> bool {
        let merged = match self.envelopes.get(key.as_str()) {
            Some(existing) => existing.merge(&envelope),
            None => envelope,
        };
        let changed = self.envelopes.get(key.as_str()) != Some(&merged);
        self.envelopes.insert(key, merged);
        changed
    }

    fn write_full_pruned(&mut self, key: ReplicatorKey, envelope: DataEnvelope<GCounter>, now_millis: u64) -> bool {
        let merged = match self.envelopes.get(key.as_str()) {
            Some(existing) => existing.merge_pruned(&envelope, now_millis),
            None => envelope,
        };
        let changed = self.envelopes.get(key.as_str()) != Some(&merged);
        self.envelopes.insert(key, merged);
        changed
    }
}

fn replica(id: &str) -> ReplicaId {
    ReplicaId::new(id)
}

fn counter(replica_id: &str, value: u128) -> GCounter {
    GCounter::new().increment(replica(replica_id), value).unwrap().reset_delta()
}

fn store_with(entries: &[(&str, GCounter)]) -> Store {
    let mut envelopes = SortedMap::new();
    for (key, value) in entries {
        envelopes.insert(ReplicatorKey::new(key), DataEnvelope::new(value.clone()));
    }
    Store { envelopes }
}

fn wire(store: &Store) -> SortedMap<ReplicatorKey, ReplicatorDataEnvelope> {
    let mut out = SortedMap::new();
    for (key, envelope) in store.envelopes.keys().into_iter().zip(store.envelopes.values()) {
        out.insert(key, encode_data_envelope(&envelope, &CounterCodec).unwrap());
    }
    out
}

#[test]
fn applying_gossip_merges_full_state_and_replies_when_requested() {
    let mut local = store_with(&[("counter", counter("local", 1))]);
    let remote = store_with(&[("counter", counter("remote", 5))]);
    let gossip = create_gossip(&wire(&remote), &vec![ReplicatorKey::new("counter")], true, Some(1), Some(2));

    let report = apply_gossip(&mut local, &gossip, &CounterCodec).unwrap();

    assert!(report.changed_keys().contains("counter"));
    assert_eq!(local.envelope(&ReplicatorKey::new("counter")).unwrap().data().value().unwrap(), 6);
    let reply = report.reply().unwrap();
    assert!(!reply.send_back);
    assert_eq!(reply.entries.len(), 1);
    assert_eq!(reply.to_system_uid, Some(2));
    assert_eq!(reply.from_system_uid, Some(1));
}

#[test]
fn gossip_without_send_back_or_known_keys_needs_no_reply() {
    let mut local = store_with(&[]);
    let remote = store_with(&[("fresh", counter("remote", 2))]);
    let asked = create_gossip(&wire(&remote), &vec![ReplicatorKey::new("fresh")], true, None, None);
    let report = apply_gossip(&mut local, &asked, &CounterCodec).unwrap();
    assert!(report.changed_keys().contains("fresh"));
    assert!(report.reply().is_none());

    let again = create_gossip(&wire(&remote), &vec![ReplicatorKey::new("fresh")], false, None, None);
    let report = apply_gossip(&mut local, &again, &CounterCodec).unwrap();
    assert!(report.changed_keys().is_empty());
    assert!(report.reply().is_none());

    let empty = ReplicatorGossip { entries: vec![], send_back: true, to_system_uid: None, from_system_uid: None };
    let report = apply_gossip(&mut local, &empty, &CounterCodec).unwrap();
    assert!(report.changed_keys().is_empty() && report.reply().is_none());
}

#[test]
fn undecodable_gossip_entry_is_a_serialization_error() {
    let mut local = store_with(&[]);
    let bad = ReplicatorGossip {
        entries: vec![ReplicatorGossipEntry {
            key: "k".to_string(),
            envelope: ReplicatorDataEnvelope {
                crdt_manifest: "other".to_string(),
                crdt_version: 1,
                payload: Vec::new(),
                pruning: Vec::new(),
            },
            used_timestamp_millis: 0,
        }],
        send_back: false,
        to_system_uid: None,
        from_system_uid: None,
    };
    assert_eq!(
        apply_gossip(&mut local, &bad, &CounterCodec).err(),
        Some(ReplicatorGossipError::Serialization(
            "expected CRDT manifest kairo.ddata.gcounter, got other".to_string()
        ))
    );
    assert!(!local.contains_key(&ReplicatorKey::new("k")));
}

#[test]
fn direct_write_merges_decoded_envelopes_and_refuses_the_rest() {
    let mut local = store_with(&[("counter", counter("local", 1))]);
    let envelope = encode_data_envelope(&DataEnvelope::new(counter("remote", 4)), &CounterCodec).unwrap();
    let write = ReplicatorWrite { key: "counter".to_string(), from: Some(replica("remote")), envelope };
    let result = apply_write(&mut local, &write, &CounterCodec);
    assert!(result.is_ack());
    assert_eq!(result.key().as_str(), "counter");
    assert_eq!(result.from(), Some(&replica("remote")));
    assert!(matches!(result, kairo_distributed_data::DirectWriteResult::Ack { changed: true, .. }));
    assert_eq!(local.envelope(&ReplicatorKey::new("counter")).unwrap().data().value().unwrap(), 5);
    let again = apply_write(&mut local, &write, &CounterCodec);
    assert!(matches!(again, kairo_distributed_data::DirectWriteResult::Ack { changed: false, .. }));

    let refused = apply_decoded_write::<GCounter, _>(
        &mut local,
        &write,
        Err(WireDecodeError::Payload("broken".to_string())),
        0,
    );
    assert!(matches!(
        refused,
        kairo_distributed_data::DirectWriteResult::Nack { ref reason, .. } if reason == "broken"
    ));
    assert_eq!(local.envelope(&ReplicatorKey::new("counter")).unwrap().data().value().unwrap(), 5);
}
