use kairo_distributed_data::data::DeltaReplicatedData;
use std::time::Duration;

use kairo_distributed_data::key::ReplicatorKey;
use kairo_distributed_data::protocol::{
    ReplicatorDataEnvelope, ReplicatorDeltaAck, ReplicatorDeltaNack, ReplicatorReadResult,
    ReplicatorWriteAck, ReplicatorWriteNack,
};
use kairo_distributed_data::sorted_set::SortedSet;
use kairo_distributed_data::wire_codec::{encode_read_result, CrdtDataCodec, WireDecodeError};
use kairo_distributed_data::{
    DataEnvelope, GCounter, ReadAggregationActor, ReadAggregationActorEvent, ReadAggregationActorMsg,
    ReadAggregationOutcome, ReadAggregationPlan, ReadAggregatorState, ReadConsistency, ReplicaId,
    ReplicatorWireReply, WriteAggregationActor, WriteAggregationActorEvent, WriteAggregationActorMsg,
    WriteAggregationOutcome, WriteAggregationPlan, WriteAggregatorState, WriteConsistency,
};

/// Replica names and counts as `name=count` lines.
struct CounterCodec;

impl CrdtDataCodec<GCounter> for CounterCodec {
    fn manifest(&self) -> &'static str {
        "kairo.ddata.gcounter"
    }

    fn version(&self) -> u16 {
        1
    }

    fn encode_payload(&self, data: &GCounter) -> Result<Vec<u8>, String> {
        let state = data.state();
        let lines: Vec<String> = state
            .keys()
            .into_iter()
            .zip(state.values())
            .map(|(replica, count)| format!("{}={}", replica.as_str(), count))
            .collect();
        Ok(lines.join("\n").into_bytes())
    }

    fn decode_payload(&self, payload: &Vec<u8>, _version: u16) -> Result<GCounter, String> {
        let text = String::from_utf8(payload.clone()).map_err(|e| e.to_string())?;
        let mut state = Vec::new();
        for line in text.lines() {
            let (name, count) = line.split_once('=').ok_or_else(|| "bad line".to_string())?;
            state.push((ReplicaId::new(name), count.parse::<u128>().map_err(|e| e.to_string())?));
        }
        Ok(GCounter::from_state(state))
    }
}

fn replica(id: &str) -> ReplicaId {
    ReplicaId::new(id)
}

fn counter(replica_id: &str, value: u128) -> GCounter {
    GCounter::new().increment(replica(replica_id), value).unwrap().reset_delta()
}

fn write_plan(key: &ReplicatorKey, consistency: &WriteConsistency, remote_nodes: Vec<ReplicaId>) -> WriteAggregationPlan {
    let state = WriteAggregatorState::new(key.clone(), consistency, remote_nodes).unwrap();
    let selection = state.select_replicas(&SortedSet::new());
    WriteAggregationPlan::new(state, selection)
}

fn read_plan(
    key: &ReplicatorKey,
    consistency: &ReadConsistency,
    remote_nodes: Vec<ReplicaId>,
    local_value: Option<DataEnvelope<GCounter>>,
) -> ReadAggregationPlan<GCounter> {
    let state = ReadAggregatorState::new(key.clone(), consistency, remote_nodes, local_value).unwrap();
    let selection = state.select_replicas(&SortedSet::new());
    ReadAggregationPlan::new(state, selection)
}

fn read_reply(from: &str, envelope: Option<&DataEnvelope<GCounter>>) -> ReadAggregationActorMsg {
    ReadAggregationActorMsg::Reply(ReplicatorWireReply::ReadResult {
        from: replica(from),
        message: encode_read_result(envelope, &CounterCodec).unwrap(),
    })
}

#[test]
fn write_aggregation_actor_tracks_retries_acks_and_completion() {
    let key = ReplicatorKey::new("counter");
    let mut actor = WriteAggregationActor::new(write_plan(
        &key,
        &WriteConsistency::to(3, Duration::from_secs(1)).unwrap(),
        vec![replica("a"), replica("b")],
    ));
    assert_eq!(actor.started(), None);

    let event = actor.receive(WriteAggregationActorMsg::Reply(ReplicatorWireReply::DeltaNack {
        from: replica("a"),
        message: ReplicatorDeltaNack,
    }));
    assert_eq!(event, Some(WriteAggregationActorEvent::RetryFullState { replica: replica("a") }));

    let event = actor.receive(WriteAggregationActorMsg::Reply(ReplicatorWireReply::DeltaAck {
        from: replica("a"),
        message: ReplicatorDeltaAck,
    }));
    assert_eq!(event, None);
    let event = actor.receive(WriteAggregationActorMsg::Reply(ReplicatorWireReply::WriteAck {
        from: replica("b"),
        message: ReplicatorWriteAck,
    }));
    assert_eq!(event, Some(WriteAggregationActorEvent::Completed(WriteAggregationOutcome::Success)));
}

#[test]
fn write_aggregation_actor_reports_nack_failure_and_timeout() {
    let key = ReplicatorKey::new("counter");
    let mut actor = WriteAggregationActor::new(write_plan(
        &key,
        &WriteConsistency::to(3, Duration::from_secs(1)).unwrap(),
        vec![replica("a"), replica("b")],
    ));
    let event = actor.receive(WriteAggregationActorMsg::Reply(ReplicatorWireReply::WriteNack {
        from: replica("a"),
        message: ReplicatorWriteNack,
    }));
    assert_eq!(
        event,
        Some(WriteAggregationActorEvent::Completed(WriteAggregationOutcome::Failed {
            required: 2,
            available: 1
        }))
    );

    let mut actor = WriteAggregationActor::new(write_plan(
        &ReplicatorKey::new("timeout"),
        &WriteConsistency::majority(Duration::from_secs(1)),
        vec![replica("a"), replica("b")],
    ));
    assert_eq!(
        actor.receive(WriteAggregationActorMsg::Timeout),
        Some(WriteAggregationActorEvent::Completed(WriteAggregationOutcome::Timeout {
            required: 1,
            acknowledged: 0
        }))
    );
}

#[test]
fn read_aggregation_actor_merges_source_replies_once() {
    let key = ReplicatorKey::new("counter");
    let mut actor = ReadAggregationActor::new(
        read_plan(
            &key,
            &ReadConsistency::from(3, Duration::from_secs(1)).unwrap(),
            vec![replica("a"), replica("b")],
            Some(DataEnvelope::new(counter("local", 1))),
        ),
        CounterCodec,
    );
    assert!(actor.started().is_none());

    assert!(actor.receive(read_reply("a", Some(&DataEnvelope::new(counter("a", 2))))).is_none());
    assert!(actor
        .receive(read_reply("a", Some(&DataEnvelope::new(counter("duplicate", 100)))))
        .is_none());

    match actor.receive(read_reply("b", Some(&DataEnvelope::new(counter("b", 3))))) {
        Some(ReadAggregationActorEvent::Completed(ReadAggregationOutcome::Success { envelope })) => {
            assert_eq!(envelope.data().value().unwrap(), 6);
        }
        other => panic!("expected read success, got {other:?}"),
    }
}

#[test]
fn read_aggregation_actor_reports_not_found_timeout_and_decode_failures() {
    let mut actor = ReadAggregationActor::new(
        read_plan(
            &ReplicatorKey::new("missing"),
            &ReadConsistency::from(2, Duration::from_secs(1)).unwrap(),
            vec![replica("a")],
            None,
        ),
        CounterCodec,
    );
    assert_eq!(
        actor.receive(ReadAggregationActorMsg::Reply(ReplicatorWireReply::ReadResult {
            from: replica("a"),
            message: ReplicatorReadResult { envelope: None },
        })),
        Some(ReadAggregationActorEvent::Completed(ReadAggregationOutcome::NotFound))
    );

    let mut actor = ReadAggregationActor::new(
        read_plan(
            &ReplicatorKey::new("timeout"),
            &ReadConsistency::from(3, Duration::from_secs(1)).unwrap(),
            vec![replica("a"), replica("b")],
            None,
        ),
        CounterCodec,
    );
    assert_eq!(
        actor.receive(ReadAggregationActorMsg::Timeout),
        Some(ReadAggregationActorEvent::Completed(ReadAggregationOutcome::Failure {
            required: 2,
            received: 0
        }))
    );

    let mut actor = ReadAggregationActor::new(
        read_plan(
            &ReplicatorKey::new("decode"),
            &ReadConsistency::from(2, Duration::from_secs(1)).unwrap(),
            vec![replica("a")],
            None,
        ),
        CounterCodec,
    );
    let event = actor.receive(ReadAggregationActorMsg::Reply(ReplicatorWireReply::ReadResult {
        from: replica("a"),
        message: ReplicatorReadResult {
            envelope: Some(ReplicatorDataEnvelope {
                crdt_manifest: "kairo.ddata.gset-string".to_string(),
                crdt_version: 1,
                payload: Vec::new(),
                pruning: Vec::new(),
            }),
        },
    }));
    assert!(matches!(
        event,
        Some(ReadAggregationActorEvent::DecodeFailed { replica: failed_replica, reason })
            if failed_replica == replica("a") && reason.contains("expected CRDT manifest")
    ));
    assert_eq!(actor.state().received(), 0);
}

#[test]
fn aggregation_actors_complete_at_start_when_already_terminal() {
    let mut actor = ReadAggregationActor::with_timeout(
        read_plan(
            &ReplicatorKey::new("impossible"),
            &ReadConsistency::from(5, Duration::from_secs(1)).unwrap(),
            vec![replica("a")],
            None,
        ),
        CounterCodec,
        Duration::from_millis(20),
    );
    assert_eq!(actor.timeout(), Some(Duration::from_millis(20)));
    assert!(matches!(
        actor.started(),
        Some(ReadAggregationActorEvent::Completed(ReadAggregationOutcome::Failure { .. }))
    ));
    assert!(actor
        .receive(ReadAggregationActorMsg::Reply(ReplicatorWireReply::WriteAck {
            from: replica("a"),
            message: ReplicatorWriteAck,
        }))
        .is_none());

    let mut write = WriteAggregationActor::with_timeout(
        write_plan(
            &ReplicatorKey::new("w"),
            &WriteConsistency::majority(Duration::from_secs(1)),
            vec![replica("a"), replica("b")],
        ),
        Duration::from_millis(5),
    );
    assert_eq!(write.timeout(), Some(Duration::from_millis(5)));
    assert_eq!(write.started(), None);
    assert_eq!(
        write.receive(WriteAggregationActorMsg::Reply(ReplicatorWireReply::ReadResult {
            from: replica("a"),
            message: ReplicatorReadResult { envelope: None },
        })),
        None
    );
    assert_eq!(
        write.receive(WriteAggregationActorMsg::Reply(ReplicatorWireReply::WriteAck {
            from: replica("a"),
            message: ReplicatorWriteAck,
        })),
        Some(WriteAggregationActorEvent::Completed(WriteAggregationOutcome::Success))
    );
}

#[test]
fn decode_error_messages_name_the_cause() {
    let mismatch = WireDecodeError::ManifestMismatch { expected: "x".to_string(), actual: "y".to_string() };
    assert_eq!(mismatch.message(), "expected CRDT manifest x, got y");
    let duplicate = WireDecodeError::DuplicatePruningEntry { removed: replica("r1") };
    assert_eq!(duplicate.message(), "duplicate pruning entry for removed replica r1");
    assert_eq!(WireDecodeError::Payload("bad".to_string()).message(), "bad");
}

#[test]
fn redelivered_write_replies_change_nothing_and_acks_outweigh_nacks() {
    let mut actor = WriteAggregationActor::new(write_plan(
        &ReplicatorKey::new("k"),
        &WriteConsistency::to(3, Duration::from_secs(1)).unwrap(),
        vec![replica("a"), replica("b"), replica("c")],
    ));
    let nack = |from: &str| {
        WriteAggregationActorMsg::Reply(ReplicatorWireReply::WriteNack { from: replica(from), message: ReplicatorWriteNack })
    };
    let ack = |from: &str| {
        WriteAggregationActorMsg::Reply(ReplicatorWireReply::WriteAck { from: replica(from), message: ReplicatorWriteAck })
    };
    assert_eq!(actor.receive(nack("a")), None);
    assert_eq!(actor.receive(nack("a")), None);
    assert_eq!(actor.receive(ack("a")), None);
    assert_eq!(actor.receive(nack("a")), None);
    assert_eq!(actor.receive(ack("a")), None);
    assert_eq!(actor.receive(ack("zz")), None);
    assert_eq!(
        actor.receive(ack("b")),
        Some(WriteAggregationActorEvent::Completed(WriteAggregationOutcome::Success))
    );
}
