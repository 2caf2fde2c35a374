//! Decisions of the adapters that turn aggregation actor events into one
//! client response.
//!
//! An adapter mirrors non-terminal events, keyed by the operation's key, to
//! an optional diagnostic target, and hands the terminal outcome to its host,
//! which builds the client response and stops the adapter.
use vstd::prelude::*;

use crate::aggregation::{ReadAggregationOutcome, WriteAggregationOutcome};
use crate::aggregation_actor::{ReadAggregationActorEvent, WriteAggregationActorEvent};
use crate::key::ReplicatorKey;
use crate::replica::ReplicaId;
use crate::data::ReplicatedData;
use crate::sorted_map::Duplicate;
use crate::text::{decimal, decimal_text};

verus! {

/// Non-terminal diagnostic emitted while adapting a write aggregation.
#[derive(Debug, Clone, PartialEq, Eq)]
pub enum WriteAggregationOperationEvent {
    /// A delta rejection asks the composition owner for a full-state retry.
    RetryFullState { key: ReplicatorKey, replica: ReplicaId },
}

/// Input of a write aggregation adapter.
pub enum WriteAggregationOperationMsg {
    /// Event of the underlying write aggregation actor.
    Aggregation(WriteAggregationActorEvent),
}

/// Non-terminal diagnostic emitted while adapting a read aggregation.
#[derive(Debug, Clone, PartialEq, Eq)]
pub enum ReadAggregationOperationEvent {
    /// A read reply could not be decoded.
    DecodeFailed { key: ReplicatorKey, replica: ReplicaId, reason: String },
}

/// Input of a read aggregation adapter.
pub enum ReadAggregationOperationMsg<D> {
    /// Event of the underlying read aggregation actor.
    Aggregation(ReadAggregationActorEvent<D>),
}

/// What an adapter does with one input.
#[derive(Debug, PartialEq, Eq)]
pub enum AggregationOperationStep<E, O> {
    /// Mirror the diagnostic to the event target, if one is configured.
    Report(E),
    /// Build the client response from the terminal outcome and stop.
    Complete(O),
}

/// The step of a write adapter for `key` on `msg`: a retry request is
/// mirrored with the key, a completion ends the operation.
pub fn write_operation_step(key: &ReplicatorKey, msg: WriteAggregationOperationMsg) -> (r:
    AggregationOperationStep<WriteAggregationOperationEvent, WriteAggregationOutcome>)
    ensures
        match msg {
            WriteAggregationOperationMsg::Aggregation(WriteAggregationActorEvent::RetryFullState {
                replica,
            }) => {
                &&& r matches AggregationOperationStep::Report(
                    WriteAggregationOperationEvent::RetryFullState { .. },
                )
                &&& r->Report_0->key@ == key@
                &&& r->Report_0->replica@ == replica@
            },
            WriteAggregationOperationMsg::Aggregation(WriteAggregationActorEvent::Completed(o)) => r
                == AggregationOperationStep::<WriteAggregationOperationEvent, WriteAggregationOutcome>::Complete(
                o,
            ),
        },
{
    match msg {
        WriteAggregationOperationMsg::Aggregation(event) => match event {
            WriteAggregationActorEvent::RetryFullState { replica } => AggregationOperationStep::Report(
                WriteAggregationOperationEvent::RetryFullState { key: key.duplicate(), replica },
            ),
            WriteAggregationActorEvent::Completed(outcome) => AggregationOperationStep::Complete(outcome),
        },
    }
}

/// The step of a read adapter for `key` on `msg`: a decoding failure is
/// mirrored with the key, a completion ends the operation.
pub fn read_operation_step<D: View>(key: &ReplicatorKey, msg: ReadAggregationOperationMsg<D>) -> (r:
    AggregationOperationStep<ReadAggregationOperationEvent, ReadAggregationOutcome<D>>)
    ensures
        match msg {
            ReadAggregationOperationMsg::Aggregation(ReadAggregationActorEvent::DecodeFailed {
                replica,
                reason,
            }) => {
                &&& r matches AggregationOperationStep::Report(
                    ReadAggregationOperationEvent::DecodeFailed { .. },
                )
                &&& r->Report_0->key@ == key@
                &&& r->Report_0->replica@ == replica@
                &&& r->Report_0->reason@ == reason@
            },
            ReadAggregationOperationMsg::Aggregation(ReadAggregationActorEvent::Completed(o)) => {
                &&& r is Complete
                &&& r->Complete_0@ == o@
            },
        },
{
    match msg {
        ReadAggregationOperationMsg::Aggregation(event) => match event {
            ReadAggregationActorEvent::DecodeFailed { replica, reason } => AggregationOperationStep::Report(
                ReadAggregationOperationEvent::DecodeFailed { key: key.duplicate(), replica, reason },
            ),
            ReadAggregationActorEvent::Completed(outcome) => AggregationOperationStep::Complete(outcome),
        },
    }
}

/// What a finished write aggregation answers its requester: the local
/// update outcome on success, or why it failed.
#[derive(Debug, Clone, PartialEq, Eq)]
pub enum WriteAggregationReply<O> {
    /// The quorum acknowledged the write.
    Success(O),
    /// The write did not reach its quorum, or the aggregation misbehaved.
    Failure { key: ReplicatorKey, reason: String },
    /// The deadline passed first.
    Timeout { key: ReplicatorKey },
}

/// What a finished read aggregation answers its requester.
#[derive(Debug, Clone, PartialEq, Eq)]
pub enum ReadAggregationReply<D> {
    /// The merged value read from the quorum.
    Success { key: ReplicatorKey, data: D },
    /// No replica of the quorum held the key.
    NotFound { key: ReplicatorKey },
    /// The read did not reach its quorum, or the aggregation misbehaved.
    Failure { key: ReplicatorKey, reason: String },
}

/// Why a write quorum failed.
pub open spec fn write_quorum_reason(required: usize, available: usize) -> Seq<char> {
    "write quorum failed: required "@ + decimal(required as nat) + " remote acknowledgements, only "@
        + decimal(available as nat) + " replicas remain available"@
}

/// Why a read quorum failed.
pub open spec fn read_quorum_reason(required: usize, received: usize) -> Seq<char> {
    "read quorum failed: required "@ + decimal(required as nat) + " remote replies, received "@ + decimal(
        received as nat,
    )
}

/// The answer to the requester of a write aggregation over `key` that ended
/// with `aggregation`. A success hands over the pending local `outcome`,
/// once: a second success, and a non-terminal state, are failures.
pub fn write_aggregation_response<O>(
    key: &ReplicatorKey,
    outcome: &mut Option<O>,
    aggregation: WriteAggregationOutcome,
) -> (r: WriteAggregationReply<O>)
    ensures
        match aggregation {
            WriteAggregationOutcome::InProgress => {
                &&& r matches WriteAggregationReply::Failure { key: k, reason } && k@ == key@ && reason@
                    == "write aggregation completed with non-terminal state"@
                &&& *final(outcome) == *old(outcome)
            },
            WriteAggregationOutcome::Success => {
                &&& *final(outcome) is None
                &&& match *old(outcome) {
                    Some(o) => r == WriteAggregationReply::Success(o),
                    None => r matches WriteAggregationReply::Failure { key: k, reason } && k@ == key@
                        && reason@ == "write aggregation success was reported more than once"@,
                }
            },
            WriteAggregationOutcome::Failed { required, available } => {
                &&& r matches WriteAggregationReply::Failure { key: k, reason } && k@ == key@ && reason@
                    == write_quorum_reason(required, available)
                &&& *final(outcome) == *old(outcome)
            },
            WriteAggregationOutcome::Timeout { .. } => {
                &&& r matches WriteAggregationReply::Timeout { key: k } && k@ == key@
                &&& *final(outcome) == *old(outcome)
            },
        },
{
    match aggregation {
        WriteAggregationOutcome::InProgress => {
            let reason = "write aggregation completed with non-terminal state".to_owned();
            WriteAggregationReply::Failure { key: key.duplicate(), reason }
        },
        WriteAggregationOutcome::Success => match outcome.take() {
            Some(o) => WriteAggregationReply::Success(o),
            None => {
                let reason = "write aggregation success was reported more than once".to_owned();
                WriteAggregationReply::Failure { key: key.duplicate(), reason }
            },
        },
        WriteAggregationOutcome::Failed { required, available } => {
            let mut reason = "write quorum failed: required ".to_owned();
            reason.append(decimal_text(required as u64).as_str());
            reason.append(" remote acknowledgements, only ");
            reason.append(decimal_text(available as u64).as_str());
            reason.append(" replicas remain available");
            WriteAggregationReply::Failure { key: key.duplicate(), reason }
        },
        WriteAggregationOutcome::Timeout { .. } => WriteAggregationReply::Timeout { key: key.duplicate() },
    }
}

/// The answer to the requester of a read aggregation over `key` that ended
/// with `outcome`; a non-terminal state is a failure.
pub fn read_aggregation_response<D: ReplicatedData>(key: &ReplicatorKey, outcome: ReadAggregationOutcome<D>) -> (r:
    ReadAggregationReply<D>)
    ensures
        match outcome {
            ReadAggregationOutcome::InProgress => r matches ReadAggregationReply::Failure { key: k, reason }
                && k@ == key@ && reason@ == "read aggregation completed with non-terminal state"@,
            ReadAggregationOutcome::Success { envelope } => r matches ReadAggregationReply::Success {
                key: k,
                data,
            } && k@ == key@ && data == envelope.data_value(),
            ReadAggregationOutcome::NotFound => r matches ReadAggregationReply::NotFound { key: k } && k@
                == key@,
            ReadAggregationOutcome::Failure { required, received } => r matches ReadAggregationReply::Failure {
                key: k,
                reason,
            } && k@ == key@ && reason@ == read_quorum_reason(required, received),
        },
{
    match outcome {
        ReadAggregationOutcome::InProgress => {
            let reason = "read aggregation completed with non-terminal state".to_owned();
            ReadAggregationReply::Failure { key: key.duplicate(), reason }
        },
        ReadAggregationOutcome::Success { envelope } => ReadAggregationReply::Success {
            key: key.duplicate(),
            data: envelope.into_data(),
        },
        ReadAggregationOutcome::NotFound => ReadAggregationReply::NotFound { key: key.duplicate() },
        ReadAggregationOutcome::Failure { required, received } => {
            let mut reason = "read quorum failed: required ".to_owned();
            reason.append(decimal_text(required as u64).as_str());
            reason.append(" remote replies, received ");
            reason.append(decimal_text(received as u64).as_str());
            ReadAggregationReply::Failure { key: key.duplicate(), reason }
        },
    }
}

} // verus!
