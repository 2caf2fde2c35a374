use kairo_distributed_data::data::DeltaReplicatedData;
use std::time::Duration;

use kairo_distributed_data::aggregation_operation::{
    read_operation_step, write_operation_step, AggregationOperationStep, ReadAggregationOperationEvent,
    ReadAggregationOperationMsg, WriteAggregationOperationEvent, WriteAggregationOperationMsg,
};
use kairo_distributed_data::aggregation_session::{
    secondary_publication_delay, write_session_step, ReadAggregationSessionMsg,
    ReadAggregationSessionOutcome, ReadAggregationSessionState, ReadAggregationSessionStep,
    WriteAggregationSessionMsg, WriteAggregationSessionStep,
};
use kairo_distributed_data::key::ReplicatorKey;
use kairo_distributed_data::{
    DataEnvelope, GCounter, ReadAggregationActorEvent, ReadAggregationOutcome, ReplicaId,
    WriteAggregationActorEvent, WriteAggregationOutcome,
};

fn replica(id: &str) -> ReplicaId {
    ReplicaId::new(id)
}

fn counter(replica_id: &str, value: u128) -> GCounter {
    GCounter::new().increment(replica(replica_id), value).unwrap().reset_delta()
}

fn success(value: u128) -> ReadAggregationOutcome<GCounter> {
    ReadAggregationOutcome::Success { envelope: DataEnvelope::new(counter("a", value)) }
}

#[test]
fn read_session_waits_for_read_repair_before_success() {
    let mut session: ReadAggregationSessionState<GCounter> = ReadAggregationSessionState::new(true);
    assert_eq!(session.step(ReadAggregationSessionMsg::ReadRepairApplied), ReadAggregationSessionStep::Ignore);

    let repair = session.step(ReadAggregationSessionMsg::Aggregation(ReadAggregationActorEvent::Completed(
        success(9),
    )));
    match repair {
        ReadAggregationSessionStep::RequestReadRepair(envelope) => {
            assert_eq!(envelope.data().value().unwrap(), 9);
        }
        other => panic!("expected a repair request, got {other:?}"),
    }

    match session.step(ReadAggregationSessionMsg::ReadRepairApplied) {
        ReadAggregationSessionStep::Complete(outcome) => {
            assert_eq!(ReadAggregationSessionOutcome::of(&outcome), ReadAggregationSessionOutcome::Success);
            match outcome {
                ReadAggregationOutcome::Success { envelope } => {
                    assert_eq!(envelope.data().value().unwrap(), 9)
                }
                other => panic!("expected get success, got {other:?}"),
            }
        }
        other => panic!("expected completion, got {other:?}"),
    }
    assert_eq!(session.step(ReadAggregationSessionMsg::ReadRepairApplied), ReadAggregationSessionStep::Ignore);
}

#[test]
fn read_session_without_repair_completes_at_once() {
    let mut session: ReadAggregationSessionState<GCounter> = ReadAggregationSessionState::new(false);
    assert_eq!(session.step(ReadAggregationSessionMsg::SendToSecondary), ReadAggregationSessionStep::PublishSecondary);
    assert_eq!(
        session.step(ReadAggregationSessionMsg::Aggregation(ReadAggregationActorEvent::DecodeFailed {
            replica: replica("b"),
            reason: "bad".to_string(),
        })),
        ReadAggregationSessionStep::ReportDecodeFailure { replica: replica("b"), reason: "bad".to_string() }
    );
    match session.step(ReadAggregationSessionMsg::Aggregation(ReadAggregationActorEvent::Completed(success(4)))) {
        ReadAggregationSessionStep::Complete(ReadAggregationOutcome::Success { envelope }) => {
            assert_eq!(envelope.data().value().unwrap(), 4)
        }
        other => panic!("expected completion, got {other:?}"),
    }
    let mut repairing: ReadAggregationSessionState<GCounter> = ReadAggregationSessionState::new(true);
    assert_eq!(
        repairing.step(ReadAggregationSessionMsg::Aggregation(ReadAggregationActorEvent::Completed(
            ReadAggregationOutcome::NotFound
        ))),
        ReadAggregationSessionStep::Complete(ReadAggregationOutcome::NotFound)
    );
}

#[test]
fn session_outcomes_keep_kind_and_counts() {
    assert_eq!(
        ReadAggregationSessionOutcome::of(&ReadAggregationOutcome::<GCounter>::InProgress),
        ReadAggregationSessionOutcome::InProgress
    );
    assert_eq!(
        ReadAggregationSessionOutcome::of(&ReadAggregationOutcome::<GCounter>::NotFound),
        ReadAggregationSessionOutcome::NotFound
    );
    assert_eq!(
        ReadAggregationSessionOutcome::of(&ReadAggregationOutcome::<GCounter>::Failure { required: 3, received: 1 }),
        ReadAggregationSessionOutcome::Failure { required: 3, received: 1 }
    );
}

#[test]
fn aggregation_sessions_publish_secondaries_after_one_fifth_timeout() {
    assert_eq!(secondary_publication_delay(Duration::from_millis(100)), Duration::from_millis(20));
    assert_eq!(secondary_publication_delay(Duration::from_secs(5)), Duration::from_secs(1));
    assert_eq!(secondary_publication_delay(Duration::from_nanos(9)), Duration::from_nanos(1));
}

#[test]
fn write_session_steps_follow_child_events() {
    assert_eq!(
        write_session_step(WriteAggregationSessionMsg::SendToSecondary),
        WriteAggregationSessionStep::PublishSecondary
    );
    assert_eq!(
        write_session_step(WriteAggregationSessionMsg::Aggregation(
            WriteAggregationActorEvent::RetryFullState { replica: replica("a") }
        )),
        WriteAggregationSessionStep::RetryFullState { replica: replica("a") }
    );
    assert_eq!(
        write_session_step(WriteAggregationSessionMsg::Aggregation(WriteAggregationActorEvent::Completed(
            WriteAggregationOutcome::Success
        ))),
        WriteAggregationSessionStep::Complete(WriteAggregationOutcome::Success)
    );
}

#[test]
fn operations_mirror_diagnostics_with_the_key_and_complete_on_outcomes() {
    let key = ReplicatorKey::new("counter");
    assert_eq!(
        write_operation_step(
            &key,
            WriteAggregationOperationMsg::Aggregation(WriteAggregationActorEvent::RetryFullState {
                replica: replica("a")
            })
        ),
        AggregationOperationStep::Report(WriteAggregationOperationEvent::RetryFullState {
            key: key.clone(),
            replica: replica("a")
        })
    );
    assert_eq!(
        write_operation_step(
            &key,
            WriteAggregationOperationMsg::Aggregation(WriteAggregationActorEvent::Completed(
                WriteAggregationOutcome::Timeout { required: 2, acknowledged: 1 }
            ))
        ),
        AggregationOperationStep::Complete(WriteAggregationOutcome::Timeout { required: 2, acknowledged: 1 })
    );
    assert_eq!(
        read_operation_step::<GCounter>(
            &key,
            ReadAggregationOperationMsg::Aggregation(ReadAggregationActorEvent::DecodeFailed {
                replica: replica("a"),
                reason: "bad manifest".to_string(),
            })
        ),
        AggregationOperationStep::Report(ReadAggregationOperationEvent::DecodeFailed {
            key: key.clone(),
            replica: replica("a"),
            reason: "bad manifest".to_string(),
        })
    );
    match read_operation_step(
        &key,
        ReadAggregationOperationMsg::Aggregation(ReadAggregationActorEvent::Completed(success(7))),
    ) {
        AggregationOperationStep::Complete(ReadAggregationOutcome::Success { envelope }) => {
            assert_eq!(envelope.data().value().unwrap(), 7)
        }
        other => panic!("expected completion, got {other:?}"),
    }
}
