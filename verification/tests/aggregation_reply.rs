use kairo_distributed_data::aggregation_operation::{
    read_aggregation_response, write_aggregation_response, ReadAggregationReply, WriteAggregationReply,
};
use kairo_distributed_data::data::DeltaReplicatedData;
use kairo_distributed_data::key::ReplicatorKey;
use kairo_distributed_data::protocol::{
    carries_pruning, unsupported_version_message, version_accepted, CRDT_CODEC_VERSION,
    DATA_ENVELOPE_PRUNING_WIRE_VERSION,
};
use kairo_distributed_data::text::decimal_text;
use kairo_distributed_data::{DataEnvelope, GCounter, ReadAggregationOutcome, ReplicaId, WriteAggregationOutcome};

fn key() -> ReplicatorKey {
    ReplicatorKey::new("k")
}

#[test]
fn write_success_hands_over_the_local_outcome_once() {
    let mut outcome = Some(7u32);
    let first = write_aggregation_response(&key(), &mut outcome, WriteAggregationOutcome::Success);
    assert_eq!(first, WriteAggregationReply::Success(7));
    assert_eq!(outcome, None);
    let second = write_aggregation_response(&key(), &mut outcome, WriteAggregationOutcome::Success);
    assert_eq!(
        second,
        WriteAggregationReply::Failure {
            key: key(),
            reason: "write aggregation success was reported more than once".to_string(),
        }
    );
}

#[test]
fn write_quorum_failure_names_the_counts() {
    let mut outcome = Some(1u8);
    let reply = write_aggregation_response(
        &key(),
        &mut outcome,
        WriteAggregationOutcome::Failed { required: 3, available: 12 },
    );
    assert_eq!(
        reply,
        WriteAggregationReply::Failure {
            key: key(),
            reason: "write quorum failed: required 3 remote acknowledgements, only 12 replicas remain available"
                .to_string(),
        }
    );
    assert_eq!(outcome, Some(1));
    let timeout = write_aggregation_response(
        &key(),
        &mut outcome,
        WriteAggregationOutcome::Timeout { required: 2, acknowledged: 1 },
    );
    assert_eq!(timeout, WriteAggregationReply::Timeout { key: key() });
    let pending = write_aggregation_response(&key(), &mut outcome, WriteAggregationOutcome::InProgress);
    assert_eq!(
        pending,
        WriteAggregationReply::Failure {
            key: key(),
            reason: "write aggregation completed with non-terminal state".to_string(),
        }
    );
}

#[test]
fn read_replies_follow_the_outcome() {
    let data = GCounter::new().increment(ReplicaId::new("a"), 4).unwrap().reset_delta();
    let success = read_aggregation_response(
        &key(),
        ReadAggregationOutcome::Success { envelope: DataEnvelope::new(data.reset_delta()) },
    );
    assert_eq!(success, ReadAggregationReply::Success { key: key(), data });
    assert_eq!(
        read_aggregation_response::<GCounter>(&key(), ReadAggregationOutcome::NotFound),
        ReadAggregationReply::NotFound { key: key() }
    );
    assert_eq!(
        read_aggregation_response::<GCounter>(
            &key(),
            ReadAggregationOutcome::Failure { required: 2, received: 0 }
        ),
        ReadAggregationReply::Failure {
            key: key(),
            reason: "read quorum failed: required 2 remote replies, received 0".to_string(),
        }
    );
    assert_eq!(
        read_aggregation_response::<GCounter>(&key(), ReadAggregationOutcome::InProgress),
        ReadAggregationReply::Failure {
            key: key(),
            reason: "read aggregation completed with non-terminal state".to_string(),
        }
    );
}

#[test]
fn decimal_text_writes_digits_without_leading_zeros() {
    assert_eq!(decimal_text(0), "0");
    assert_eq!(decimal_text(9), "9");
    assert_eq!(decimal_text(10), "10");
    assert_eq!(decimal_text(4070), "4070");
    assert_eq!(decimal_text(u64::MAX), u64::MAX.to_string());
}

#[test]
fn version_checks_and_refusal_text() {
    assert!(version_accepted(CRDT_CODEC_VERSION, CRDT_CODEC_VERSION, CRDT_CODEC_VERSION));
    assert!(!version_accepted(2, 1, 1));
    assert!(version_accepted(2, 1, 2));
    assert!(!version_accepted(0, 1, 2));
    assert!(!carries_pruning(1));
    assert!(carries_pruning(DATA_ENVELOPE_PRUNING_WIRE_VERSION));
    assert_eq!(unsupported_version_message("kairo.ddata.gcounter", 3), "unsupported kairo.ddata.gcounter version 3");
}
