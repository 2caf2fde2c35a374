//! Decisions of the sessions that publish quorum operations and map their
//! completion to clients.
//!
//! A session publishes to its primary replicas at once and to its secondary
//! replicas after one fifth of the consistency timeout. A read session that
//! repairs its parent replicator holds a successful merged value back until
//! the parent has applied it. Publication, timers and replies are the host's
//! work; what to do on each input is decided here.
use std::time::Duration;

use vstd::prelude::*;

use crate::aggregation::{ReadAggregationOutcome, ReadOutcomeView, WriteAggregationOutcome};
use crate::aggregation_actor::{ReadAggregationActorEvent, WriteAggregationActorEvent};
use crate::data::ReplicatedData;
use crate::envelope::DataEnvelope;
use crate::pruning::PTable;
use crate::replica::ReplicaId;
use crate::settings::{duration_div, duration_nanos};

verus! {

/// Input of a write aggregation session.
pub enum WriteAggregationSessionMsg {
    /// Event of the child aggregation actor.
    Aggregation(WriteAggregationActorEvent),
    /// The timer for the delayed secondary publication fired.
    SendToSecondary,
}

/// Input of a read aggregation session.
pub enum ReadAggregationSessionMsg<D> {
    /// Event of the child aggregation actor.
    Aggregation(ReadAggregationActorEvent<D>),
    /// The timer for the delayed secondary publication fired.
    SendToSecondary,
    /// The parent replicator applied the pending read repair.
    ReadRepairApplied,
}

/// Data-independent diagnostic form of a read aggregation outcome.
#[derive(Debug, Clone, Copy, PartialEq, Eq, Structural)]
pub enum ReadAggregationSessionOutcome {
    /// More remote replies would be required.
    InProgress,
    /// A merged value reached quorum and any configured repair completed.
    Success,
    /// The quorum completed without finding the key.
    NotFound,
    /// The quorum could not complete before its deadline.
    Failure { required: usize, received: usize },
}

/// The diagnostic form of an abstract read outcome.
pub open spec fn session_outcome_of<V>(o: ReadOutcomeView<V>) -> ReadAggregationSessionOutcome {
    match o {
        ReadOutcomeView::InProgress => ReadAggregationSessionOutcome::InProgress,
        ReadOutcomeView::Success(_) => ReadAggregationSessionOutcome::Success,
        ReadOutcomeView::NotFound => ReadAggregationSessionOutcome::NotFound,
        ReadOutcomeView::Failure(required, received) => ReadAggregationSessionOutcome::Failure {
            required,
            received,
        },
    }
}

impl ReadAggregationSessionOutcome {
    /// The diagnostic form of `outcome`: its kind and, for a failure, its counts.
    pub fn of<D: View>(outcome: &ReadAggregationOutcome<D>) -> (r: Self)
        ensures
            r == session_outcome_of(outcome@),
    {
        match outcome {
            ReadAggregationOutcome::InProgress => ReadAggregationSessionOutcome::InProgress,
            ReadAggregationOutcome::Success { .. } => ReadAggregationSessionOutcome::Success,
            ReadAggregationOutcome::NotFound => ReadAggregationSessionOutcome::NotFound,
            ReadAggregationOutcome::Failure { required, received } => ReadAggregationSessionOutcome::Failure {
                required: *required,
                received: *received,
            },
        }
    }
}

/// When the secondary replicas are contacted: one fifth of the timeout,
/// rounded down to whole nanoseconds.
pub fn secondary_publication_delay(timeout: Duration) -> (r: Duration)
    ensures
        duration_nanos(r) == duration_nanos(timeout) / 5,
{
    duration_div(timeout, 5)
}

/// What a write session does with one input.
#[derive(Debug, Clone, PartialEq, Eq)]
pub enum WriteAggregationSessionStep {
    /// Publish full state to the plan's secondary replicas and report it.
    PublishSecondary,
    /// Publish full state to `replica` again and report the retry.
    RetryFullState { replica: ReplicaId },
    /// Report the completion, answer the client from the outcome and stop.
    Complete(WriteAggregationOutcome),
}

/// The step of a write session on `msg`.
pub fn write_session_step(msg: WriteAggregationSessionMsg) -> (r: WriteAggregationSessionStep)
    ensures
        match msg {
            WriteAggregationSessionMsg::SendToSecondary => r is PublishSecondary,
            WriteAggregationSessionMsg::Aggregation(WriteAggregationActorEvent::RetryFullState {
                replica,
            }) => {
                &&& r is RetryFullState
                &&& r->RetryFullState_replica@ == replica@
            },
            WriteAggregationSessionMsg::Aggregation(WriteAggregationActorEvent::Completed(o)) => r
                == WriteAggregationSessionStep::Complete(o),
        },
{
    match msg {
        WriteAggregationSessionMsg::SendToSecondary => WriteAggregationSessionStep::PublishSecondary,
        WriteAggregationSessionMsg::Aggregation(event) => match event {
            WriteAggregationActorEvent::RetryFullState { replica } => WriteAggregationSessionStep::RetryFullState {
                replica,
            },
            WriteAggregationActorEvent::Completed(outcome) => WriteAggregationSessionStep::Complete(outcome),
        },
    }
}

/// What a read session does with one input.
#[derive(Debug, PartialEq, Eq)]
pub enum ReadAggregationSessionStep<D> {
    /// Query the plan's secondary replicas and report it.
    PublishSecondary,
    /// Report that a reply from `replica` could not be decoded.
    ReportDecodeFailure { replica: ReplicaId, reason: String },
    /// Ask the parent replicator to apply the merged value first.
    RequestReadRepair(DataEnvelope<D>),
    /// Report the completion, answer the client from the outcome and stop.
    Complete(ReadAggregationOutcome<D>),
    /// Nothing to do.
    Ignore,
}

/// Progress of a read session: whether it repairs its parent, and the merged
/// value held back while a repair is pending.
pub struct ReadAggregationSessionState<D> {
    read_repair: bool,
    pending: Option<DataEnvelope<D>>,
}

pub open spec fn opt_env_view<D: View>(e: Option<DataEnvelope<D>>) -> Option<(D::V, PTable)> {
    match e {
        Some(x) => Some(x@),
        None => None,
    }
}

impl<D: ReplicatedData> ReadAggregationSessionState<D> {
    /// Whether successful values are repaired into the parent first.
    pub closed spec fn repairs(&self) -> bool {
        self.read_repair
    }

    /// The merged value awaiting the parent's repair acknowledgement.
    pub closed spec fn pending_view(&self) -> Option<(D::V, PTable)> {
        opt_env_view(self.pending)
    }

    /// A session state with nothing pending; `read_repair` says whether a
    /// parent replicator is repaired before success is returned.
    pub fn new(read_repair: bool) -> (r: Self)
        ensures
            r.repairs() == read_repair,
            r.pending_view() is None,
    {
        ReadAggregationSessionState { read_repair, pending: None }
    }

    /// The step of the session on `msg`. A successful outcome is held back
    /// for repair when the session repairs its parent, and returned once the
    /// parent acknowledges; an acknowledgement with nothing pending is
    /// ignored.
    pub fn step(&mut self, msg: ReadAggregationSessionMsg<D>) -> (r: ReadAggregationSessionStep<D>)
        ensures
            final(self).repairs() == old(self).repairs(),
            match msg {
                ReadAggregationSessionMsg::SendToSecondary => {
                    &&& r is PublishSecondary
                    &&& final(self).pending_view() == old(self).pending_view()
                },
                ReadAggregationSessionMsg::Aggregation(ReadAggregationActorEvent::DecodeFailed {
                    replica,
                    reason,
                }) => {
                    &&& r is ReportDecodeFailure
                    &&& r->ReportDecodeFailure_replica@ == replica@
                    &&& r->ReportDecodeFailure_reason@ == reason@
                    &&& final(self).pending_view() == old(self).pending_view()
                },
                ReadAggregationSessionMsg::Aggregation(ReadAggregationActorEvent::Completed(o)) => {
                    if old(self).repairs() && o is Success {
                        &&& r is RequestReadRepair
                        &&& r->RequestReadRepair_0@ == o->Success_envelope@
                        &&& final(self).pending_view() == Some(o->Success_envelope@)
                    } else {
                        &&& r is Complete
                        &&& r->Complete_0@ == o@
                        &&& final(self).pending_view() == old(self).pending_view()
                    }
                },
                ReadAggregationSessionMsg::ReadRepairApplied => match old(self).pending_view() {
                    Some(e) => {
                        &&& r matches ReadAggregationSessionStep::Complete(
                            ReadAggregationOutcome::Success { .. },
                        )
                        &&& r->Complete_0@ == ReadOutcomeView::<D::V>::Success(e)
                        &&& final(self).pending_view() is None
                    },
                    None => {
                        &&& r is Ignore
                        &&& final(self).pending_view() is None
                    },
                },
            },
    {
        match msg {
            ReadAggregationSessionMsg::SendToSecondary => ReadAggregationSessionStep::PublishSecondary,
            ReadAggregationSessionMsg::Aggregation(event) => match event {
                ReadAggregationActorEvent::DecodeFailed { replica, reason } =>
                    ReadAggregationSessionStep::ReportDecodeFailure { replica, reason },
                ReadAggregationActorEvent::Completed(outcome) => match outcome {
                    ReadAggregationOutcome::Success { envelope } => {
                        if self.read_repair {
                            self.pending = Some(envelope.duplicate());
                            ReadAggregationSessionStep::RequestReadRepair(envelope)
                        } else {
                            ReadAggregationSessionStep::Complete(
                                ReadAggregationOutcome::Success { envelope },
                            )
                        }
                    },
                    other => ReadAggregationSessionStep::Complete(other),
                },
            },
            ReadAggregationSessionMsg::ReadRepairApplied => match self.pending.take() {
                Some(envelope) => ReadAggregationSessionStep::Complete(
                    ReadAggregationOutcome::Success { envelope },
                ),
                None => ReadAggregationSessionStep::Ignore,
            },
        }
    }
}

} // verus!
