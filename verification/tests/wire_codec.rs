use kairo_distributed_data::delta::DeltaPropagation;
use kairo_distributed_data::key::ReplicatorKey;
use kairo_distributed_data::pruning::PruningTable;
use kairo_distributed_data::protocol::{
    ReplicatorDataEnvelope, ReplicatorDelta, ReplicatorDeltaPropagation, ReplicatorPruningEntry,
    ReplicatorPruningState, ReplicatorReadResult,
};
use kairo_distributed_data::wire_codec::{
    decode_data_envelope, decode_delta, decode_delta_propagation, decode_read_result, deserialize,
    encode_data_envelope, encode_delta_propagation, encode_read_result, encode_write, serialize,
    CrdtDataCodec, SerializedCrdt, WireDecodeError,
};
use kairo_distributed_data::{DataEnvelope, DeltaPropagationLog, GSet, ReplicaId};

/// Newline-separated element list; refuses schema versions above 2.
struct LinesCodec;

impl CrdtDataCodec<GSet<String>> for LinesCodec {
    fn manifest(&self) -> &'static str {
        "test.gset.lines"
    }

    fn version(&self) -> u16 {
        2
    }

    fn encode_payload(&self, data: &GSet<String>) -> Result<Vec<u8>, String> {
        Ok(data.elements().to_vec().join("\n").into_bytes())
    }

    fn decode_payload(&self, payload: &Vec<u8>, version: u16) -> Result<GSet<String>, String> {
        if version > 2 {
            return Err(format!("unsupported version {}", version));
        }
        let text = String::from_utf8(payload.clone()).map_err(|_| "not utf-8".to_string())?;
        if text.is_empty() {
            return Ok(GSet::new());
        }
        Ok(GSet::from_elements(text.split('\n').map(|s| s.to_string()).collect()))
    }
}

/// A codec that refuses every value.
struct FailingCodec;

impl CrdtDataCodec<GSet<String>> for FailingCodec {
    fn manifest(&self) -> &'static str {
        "test.gset.lines"
    }

    fn version(&self) -> u16 {
        1
    }

    fn encode_payload(&self, _data: &GSet<String>) -> Result<Vec<u8>, String> {
        Err("cannot encode".to_string())
    }

    fn decode_payload(&self, _payload: &Vec<u8>, _version: u16) -> Result<GSet<String>, String> {
        Err("cannot decode".to_string())
    }
}

fn set(items: &[&str]) -> GSet<String> {
    GSet::from_elements(items.iter().map(|s| s.to_string()).collect())
}

fn r(id: &str) -> ReplicaId {
    ReplicaId::new(id)
}

fn performed(removed: &str, at: u64) -> ReplicatorPruningEntry {
    ReplicatorPruningEntry {
        removed: r(removed),
        state: ReplicatorPruningState::Performed { obsolete_at_millis: at },
    }
}

#[test]
fn serialize_tags_payload_with_manifest_and_version() {
    let encoded = serialize(&LinesCodec, &set(&["b", "a"])).unwrap();
    assert_eq!(encoded.manifest(), "test.gset.lines");
    assert_eq!(encoded.version(), 2);
    assert_eq!(encoded.payload(), &b"a\nb".to_vec());
    assert_eq!(serialize(&FailingCodec, &set(&["a"])), Err("cannot encode".to_string()));
}

#[test]
fn deserialize_refuses_foreign_manifest_before_the_codec() {
    let foreign = SerializedCrdt::new("other.codec", 1, b"a".to_vec());
    assert_eq!(
        deserialize(&LinesCodec, &foreign),
        Err(WireDecodeError::ManifestMismatch {
            expected: "test.gset.lines".to_string(),
            actual: "other.codec".to_string(),
        })
    );
    let newer = SerializedCrdt::new("test.gset.lines", 3, b"a".to_vec());
    assert_eq!(
        deserialize(&LinesCodec, &newer).unwrap_err(),
        WireDecodeError::Payload("unsupported version 3".to_string())
    );
    let ok = SerializedCrdt::new("test.gset.lines", 1, b"x\ny".to_vec());
    let value = deserialize(&LinesCodec, &ok).unwrap();
    assert!(value.contains(&"x".to_string()) && value.contains(&"y".to_string()));
    assert_eq!(value.len(), 2);
}

#[test]
fn envelope_round_trips_value_and_pruning() {
    let mut pruning = PruningTable::new();
    assert!(pruning.initialize(r("gone"), r("owner")));
    assert!(pruning.mark_seen(&r("gone"), r("peer")));
    assert!(pruning.mark_performed(r("old"), 77));
    let envelope = DataEnvelope::with_pruning(set(&["v1", "v2"]), pruning);
    let wire = encode_data_envelope(&envelope, &LinesCodec).unwrap();
    assert_eq!(wire.crdt_manifest, "test.gset.lines");
    assert_eq!(wire.crdt_version, 2);
    assert_eq!(wire.pruning.len(), 2);
    assert_eq!(wire.pruning[0].removed, r("gone"));
    assert_eq!(wire.pruning[1], performed("old", 77));
    let decoded: DataEnvelope<GSet<String>> = decode_data_envelope(&wire, &LinesCodec).unwrap();
    assert_eq!(decoded.data().len(), 2);
    assert!(decoded.data().contains(&"v2".to_string()));
    assert_eq!(decoded.pruning().len(), 2);
    assert!(decoded.pruning().get(&r("gone")).is_some());
    assert!(decoded.pruning().get(&r("old")).is_some());
}

#[test]
fn envelope_decoding_reports_failures_in_fixed_order() {
    let wire = ReplicatorDataEnvelope {
        crdt_manifest: "other.codec".to_string(),
        crdt_version: 9,
        payload: b"a".to_vec(),
        pruning: vec![performed("x", 1), performed("x", 2)],
    };
    let err = decode_data_envelope::<GSet<String>, _>(&wire, &LinesCodec).unwrap_err();
    assert!(matches!(err, WireDecodeError::ManifestMismatch { .. }));

    let wire = ReplicatorDataEnvelope { crdt_manifest: "test.gset.lines".to_string(), ..wire };
    let err = decode_data_envelope::<GSet<String>, _>(&wire, &LinesCodec).unwrap_err();
    assert_eq!(err, WireDecodeError::DuplicatePruningEntry { removed: r("x") });

    let wire = ReplicatorDataEnvelope { pruning: vec![performed("x", 1)], ..wire };
    let err = decode_data_envelope::<GSet<String>, _>(&wire, &LinesCodec).unwrap_err();
    assert_eq!(err, WireDecodeError::Payload("unsupported version 9".to_string()));
}

#[test]
fn write_and_read_result_carry_the_envelope() {
    let envelope = DataEnvelope::new(set(&["w"]));
    let key = ReplicatorKey::new("ns:key");
    let write = encode_write(&key, Some(r("src")), &envelope, &LinesCodec).unwrap();
    assert_eq!(write.key, "ns:key");
    assert_eq!(write.from, Some(r("src")));
    assert_eq!(write.envelope.payload, b"w".to_vec());
    assert!(encode_write(&key, None, &envelope, &FailingCodec).is_err());

    let absent = encode_read_result::<GSet<String>, _>(None, &LinesCodec).unwrap();
    assert_eq!(absent, ReplicatorReadResult { envelope: None });
    assert!(decode_read_result::<GSet<String>, _>(&absent, &LinesCodec).unwrap().is_none());

    let present = encode_read_result(Some(&envelope), &LinesCodec).unwrap();
    let back = decode_read_result::<GSet<String>, _>(&present, &LinesCodec).unwrap().unwrap();
    assert!(back.data().contains(&"w".to_string()));
    assert!(decode_read_result::<GSet<String>, _>(&present, &FailingCodec).is_err());
}

fn delta_record(key: &str, manifest: &str, payload: &[u8], from: u64, to: u64) -> ReplicatorDelta {
    ReplicatorDelta {
        key: key.to_string(),
        crdt_manifest: manifest.to_string(),
        crdt_version: 1,
        payload: payload.to_vec(),
        from_version: from,
        to_version: to,
        pruning: Vec::new(),
    }
}

#[test]
fn delta_decoding_keeps_key_and_version_range() {
    let delta = delta_record("k", "test.gset.lines", b"a\nb", 3, 5);
    let decoded = decode_delta::<GSet<String>, _>(&delta, &LinesCodec).unwrap();
    assert_eq!(decoded.key().as_str(), "k");
    assert_eq!(decoded.from_version(), 3);
    assert_eq!(decoded.to_version(), 5);
    assert_eq!(decoded.delta().len(), 2);
    assert!(decoded.pruning().is_empty());

    let foreign = delta_record("k", "nope", b"a", 1, 1);
    assert!(matches!(
        decode_delta::<GSet<String>, _>(&foreign, &LinesCodec),
        Err(WireDecodeError::ManifestMismatch { .. })
    ));
}

#[test]
fn propagation_decoding_is_all_or_first_error() {
    let good = ReplicatorDeltaPropagation {
        from: r("a"),
        reply: true,
        deltas: vec![
            delta_record("k1", "test.gset.lines", b"x", 1, 1),
            delta_record("k2", "test.gset.lines", b"y", 2, 4),
        ],
    };
    let decoded = decode_delta_propagation::<GSet<String>, _>(&good, &LinesCodec).unwrap();
    assert_eq!(decoded.len(), 2);
    assert_eq!(decoded[1].key().as_str(), "k2");
    assert_eq!(decoded[1].from_version(), 2);

    let bad = ReplicatorDeltaPropagation {
        deltas: vec![
            delta_record("k1", "test.gset.lines", b"x", 1, 1),
            delta_record("k2", "first-bad", b"y", 2, 2),
            delta_record("k3", "second-bad", b"z", 3, 3),
        ],
        ..good
    };
    assert_eq!(
        decode_delta_propagation::<GSet<String>, _>(&bad, &LinesCodec).unwrap_err(),
        WireDecodeError::ManifestMismatch {
            expected: "test.gset.lines".to_string(),
            actual: "first-bad".to_string(),
        }
    );
}

#[test]
fn propagation_encoding_orders_ranges_by_key() {
    let mut log: DeltaPropagationLog<GSet<String>> = DeltaPropagationLog::new(vec![r("b")]);
    log.record_delta(ReplicatorKey::new("zeta"), Some(set(&["z"])));
    log.record_delta(ReplicatorKey::new("alpha"), Some(set(&["a"])));
    log.record_delta(ReplicatorKey::new("alpha"), Some(set(&["c"])));
    let props = log.collect_propagations();
    let prop: &DeltaPropagation<GSet<String>> = props.get("b").unwrap();
    let msg = encode_delta_propagation(r("a"), false, prop, &LinesCodec).unwrap();
    assert_eq!(msg.from, r("a"));
    assert!(!msg.reply);
    assert_eq!(msg.deltas.len(), 2);
    assert_eq!(msg.deltas[0].key, "alpha");
    assert_eq!((msg.deltas[0].from_version, msg.deltas[0].to_version), (1, 2));
    assert_eq!(msg.deltas[0].payload, b"a\nc".to_vec());
    assert_eq!(msg.deltas[1].key, "zeta");
    assert_eq!((msg.deltas[1].from_version, msg.deltas[1].to_version), (1, 1));
    assert!(encode_delta_propagation(r("a"), false, prop, &FailingCodec).is_err());
}

#[test]
fn serve_read_encodes_present_and_absent_values_with_request_correlation() {
    let read = kairo_distributed_data::protocol::ReplicatorRead { key: "k".to_string(), from: Some(r("asker")) };
    let absent = kairo_distributed_data::direct::serve_read::<GSet<String>, _>(None, &read, &LinesCodec).unwrap();
    assert_eq!(absent.key().as_str(), "k");
    assert_eq!(absent.from(), Some(&r("asker")));
    assert_eq!(absent.message(), &ReplicatorReadResult { envelope: None });

    let envelope = DataEnvelope::new(set(&["v"]));
    let present = kairo_distributed_data::direct::serve_read(Some(&envelope), &read, &LinesCodec).unwrap();
    assert_eq!(present.into_message().envelope.unwrap().payload, b"v".to_vec());
    assert!(kairo_distributed_data::direct::serve_read(Some(&envelope), &read, &FailingCodec).is_err());
}

#[test]
fn propagation_encoding_carries_attached_pruning() {
    let mut log: DeltaPropagationLog<GSet<String>> = DeltaPropagationLog::new(vec![r("b")]);
    log.record_delta(ReplicatorKey::new("k"), Some(set(&["x"])));
    log.record_delta(ReplicatorKey::new("plain"), Some(set(&["y"])));
    let props = log.collect_propagations();
    let mut prop = props.get("b").unwrap().clone();
    prop.attach_pruning(&|key: &ReplicatorKey| {
        let mut table = PruningTable::new();
        if key.as_str() == "k" {
            table.mark_performed(r("gone"), 5);
        }
        table
    });
    let msg = encode_delta_propagation(r("a"), true, &prop, &LinesCodec).unwrap();
    assert_eq!(msg.deltas[0].key, "k");
    assert_eq!(msg.deltas[0].pruning, vec![performed("gone", 5)]);
    assert!(msg.deltas[1].pruning.is_empty());
    let decoded = decode_delta::<GSet<String>, _>(&msg.deltas[0], &LinesCodec).unwrap();
    assert!(decoded.pruning().get(&r("gone")).is_some());
}

#[test]
fn empty_batches_always_decode_and_repeated_pruning_is_always_refused() {
    let empty = ReplicatorDeltaPropagation { from: r("a"), reply: false, deltas: vec![] };
    assert!(decode_delta_propagation::<GSet<String>, _>(&empty, &FailingCodec).unwrap().is_empty());
    let mut repeated = delta_record("k", "other-manifest", b"x", 1, 1);
    repeated.pruning = vec![performed("x", 1), performed("x", 2)];
    assert!(decode_delta::<GSet<String>, _>(&repeated, &LinesCodec).is_err());
    let batch = ReplicatorDeltaPropagation {
        from: r("a"),
        reply: false,
        deltas: vec![delta_record("ok", "test.gset.lines", b"y", 1, 1), repeated],
    };
    assert!(decode_delta_propagation::<GSet<String>, _>(&batch, &LinesCodec).is_err());
}
