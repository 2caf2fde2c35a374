//! Decisions of the actors that own remote read and write quorum completion.
//!
//! Each actor consumes addressed wire replies and its deadline signal,
//! updates its aggregation state, and names the event it emits. An event
//! carrying a terminal outcome is the actor's last: its host emits it and
//! stops the actor. Scheduling the deadline and emitting events are the
//! host's work.
use std::time::Duration;

use vstd::prelude::*;

use crate::aggregation::{
    read_outcome_spec, read_result_after, read_timeout_spec, write_outcome_spec, write_timeout_spec,
    ReadAggView, ReadAggregationOutcome, ReadAggregationPlan, ReadAggregatorState, ReadOutcomeView,
    WriteAggView, WriteAggregationOutcome, WriteAggregationPlan, WriteAggregatorState,
};
use crate::data::ReplicatedData;
use crate::envelope::DataEnvelope;
use crate::protocol::{
    ReplicatorDeltaAck, ReplicatorDeltaNack, ReplicatorReadResult, ReplicatorWriteAck,
    ReplicatorWriteNack,
};
use crate::replica::ReplicaId;
use crate::wire_codec::{decode_error_message, decode_read_result, CrdtDataCodec, WireDecodeError};

verus! {

/// A reply addressed to an aggregation actor, with the replica that sent it.
#[derive(Debug, Clone, PartialEq, Eq)]
pub enum ReplicatorWireReply {
    /// A causal delta was accepted.
    DeltaAck { from: ReplicaId, message: ReplicatorDeltaAck },
    /// A causal delta was refused; full state is needed.
    DeltaNack { from: ReplicaId, message: ReplicatorDeltaNack },
    /// A full-state write was accepted.
    WriteAck { from: ReplicaId, message: ReplicatorWriteAck },
    /// A full-state write was refused.
    WriteNack { from: ReplicaId, message: ReplicatorWriteNack },
    /// A read reply.
    ReadResult { from: ReplicaId, message: ReplicatorReadResult },
}

/// Event emitted by a write aggregation actor.
#[derive(Debug, Clone, PartialEq, Eq)]
pub enum WriteAggregationActorEvent {
    /// The replica refused a causal delta; full state should be retried there.
    RetryFullState { replica: ReplicaId },
    /// The write reached a terminal outcome.
    Completed(WriteAggregationOutcome),
}

/// Abstract write actor event.
pub enum WriteActorEventView {
    RetryFullState(Seq<char>),
    Completed(WriteAggregationOutcome),
}

impl View for WriteAggregationActorEvent {
    type V = WriteActorEventView;

    open spec fn view(&self) -> WriteActorEventView {
        match self {
            WriteAggregationActorEvent::RetryFullState { replica } => WriteActorEventView::RetryFullState(
                replica@,
            ),
            WriteAggregationActorEvent::Completed(o) => WriteActorEventView::Completed(*o),
        }
    }
}

/// Input of a write aggregation actor.
pub enum WriteAggregationActorMsg {
    /// A reply from a replica.
    Reply(ReplicatorWireReply),
    /// The deadline passed.
    Timeout,
}

/// The event that follows a write outcome: none while in progress, else completion.
pub open spec fn write_completion(o: WriteAggregationOutcome) -> Option<WriteActorEventView> {
    if o is InProgress {
        None
    } else {
        Some(WriteActorEventView::Completed(o))
    }
}

/// Write progress after an acknowledgement from `replica`.
pub open spec fn write_after_ack(v: WriteAggView, replica: Seq<char>) -> WriteAggView {
    if v.remote.contains(replica) {
        WriteAggView { acked: v.acked.insert(replica), nacked: v.nacked.remove(replica), ..v }
    } else {
        v
    }
}

/// Write progress after a rejection from `replica`.
pub open spec fn write_after_nack(v: WriteAggView, replica: Seq<char>) -> WriteAggView {
    if v.remote.contains(replica) && !v.acked.contains(replica) {
        WriteAggView { nacked: v.nacked.insert(replica), ..v }
    } else {
        v
    }
}

pub open spec fn opt_event_view(e: Option<WriteAggregationActorEvent>) -> Option<WriteActorEventView> {
    match e {
        Some(x) => Some(x@),
        None => None,
    }
}

/// Owns one write quorum: counts acknowledgements and rejections and names
/// the retries and the completion to emit.
pub struct WriteAggregationActor {
    state: WriteAggregatorState,
    timeout: Option<Duration>,
}

impl WriteAggregationActor {
    /// Aggregation progress.
    pub closed spec fn state_view(&self) -> WriteAggView {
        self.state@
    }

    /// Deadline armed at start, if any.
    pub closed spec fn timeout_spec(&self) -> Option<Duration> {
        self.timeout
    }

    /// An actor for `plan` without a deadline.
    pub fn new(plan: WriteAggregationPlan) -> (r: Self)
        ensures
            r.state_view() == plan.state_view(),
            r.timeout_spec() is None,
    {
        WriteAggregationActor { state: plan.into_state(), timeout: None }
    }

    /// An actor for `plan` that completes by `timeout` at the latest.
    pub fn with_timeout(plan: WriteAggregationPlan, timeout: Duration) -> (r: Self)
        ensures
            r.state_view() == plan.state_view(),
            r.timeout_spec() == Some(timeout),
    {
        WriteAggregationActor { state: plan.into_state(), timeout: Some(timeout) }
    }

    /// Aggregation progress.
    pub fn state(&self) -> (r: &WriteAggregatorState)
        ensures
            r@ == self.state_view(),
    {
        &self.state
    }

    /// Deadline to arm when the actor starts in progress.
    pub fn timeout(&self) -> (r: Option<Duration>)
        ensures
            r == self.timeout_spec(),
    {
        self.timeout
    }

    /// The event to emit on start: the completion when the plan is already
    /// terminal, else none (and the deadline, if any, is armed).
    pub fn started(&self) -> (r: Option<WriteAggregationActorEvent>)
        ensures
            opt_event_view(r) == write_completion(write_outcome_spec(self.state_view())),
    {
        let outcome = self.state.outcome();
        match outcome {
            WriteAggregationOutcome::InProgress => None,
            terminal => Some(WriteAggregationActorEvent::Completed(terminal)),
        }
    }

    /// Handles one input: acknowledgements and rejections update the progress
    /// and complete it when terminal; a delta rejection asks for a full-state
    /// retry; read replies are ignored; the deadline completes with the
    /// timeout outcome.
    pub fn receive(&mut self, msg: WriteAggregationActorMsg) -> (r: Option<WriteAggregationActorEvent>)
        ensures
            final(self).timeout_spec() == old(self).timeout_spec(),
            match msg {
                WriteAggregationActorMsg::Reply(ReplicatorWireReply::DeltaAck { from, .. }) => {
                    &&& final(self).state_view() == write_after_ack(old(self).state_view(), from@)
                    &&& opt_event_view(r) == write_completion(write_outcome_spec(final(self).state_view()))
                },
                WriteAggregationActorMsg::Reply(ReplicatorWireReply::WriteAck { from, .. }) => {
                    &&& final(self).state_view() == write_after_ack(old(self).state_view(), from@)
                    &&& opt_event_view(r) == write_completion(write_outcome_spec(final(self).state_view()))
                },
                WriteAggregationActorMsg::Reply(ReplicatorWireReply::WriteNack { from, .. }) => {
                    &&& final(self).state_view() == write_after_nack(old(self).state_view(), from@)
                    &&& opt_event_view(r) == write_completion(write_outcome_spec(final(self).state_view()))
                },
                WriteAggregationActorMsg::Reply(ReplicatorWireReply::DeltaNack { from, .. }) => {
                    &&& final(self).state_view() == old(self).state_view()
                    &&& opt_event_view(r) == Some(WriteActorEventView::RetryFullState(from@))
                },
                WriteAggregationActorMsg::Reply(ReplicatorWireReply::ReadResult { .. }) => {
                    &&& final(self).state_view() == old(self).state_view()
                    &&& r is None
                },
                WriteAggregationActorMsg::Timeout => {
                    &&& final(self).state_view() == old(self).state_view()
                    &&& opt_event_view(r) == Some(
                        WriteActorEventView::Completed(write_timeout_spec(old(self).state_view())),
                    )
                },
            },
    {
        match msg {
            WriteAggregationActorMsg::Reply(reply) => match reply {
                ReplicatorWireReply::DeltaAck { from, .. } => {
                    let outcome = self.state.record_ack(&from);
                    Self::completion(outcome)
                },
                ReplicatorWireReply::WriteAck { from, .. } => {
                    let outcome = self.state.record_ack(&from);
                    Self::completion(outcome)
                },
                ReplicatorWireReply::WriteNack { from, .. } => {
                    let outcome = self.state.record_nack(&from);
                    Self::completion(outcome)
                },
                ReplicatorWireReply::DeltaNack { from, .. } => Some(
                    WriteAggregationActorEvent::RetryFullState { replica: from },
                ),
                ReplicatorWireReply::ReadResult { .. } => None,
            },
            WriteAggregationActorMsg::Timeout => Some(
                WriteAggregationActorEvent::Completed(self.state.timeout()),
            ),
        }
    }

    fn completion(outcome: WriteAggregationOutcome) -> (r: Option<WriteAggregationActorEvent>)
        ensures
            opt_event_view(r) == write_completion(outcome),
    {
        match outcome {
            WriteAggregationOutcome::InProgress => None,
            terminal => Some(WriteAggregationActorEvent::Completed(terminal)),
        }
    }
}

/// Event emitted by a read aggregation actor.
#[derive(Debug, PartialEq, Eq)]
pub enum ReadAggregationActorEvent<D> {
    /// The read reached a terminal outcome.
    Completed(ReadAggregationOutcome<D>),
    /// A read reply could not be decoded and was not counted.
    DecodeFailed { replica: ReplicaId, reason: String },
}

/// Abstract read actor event.
pub enum ReadActorEventView<V> {
    Completed(ReadOutcomeView<V>),
    DecodeFailed(Seq<char>, Seq<char>),
}

impl<D: View> View for ReadAggregationActorEvent<D> {
    type V = ReadActorEventView<D::V>;

    open spec fn view(&self) -> ReadActorEventView<D::V> {
        match self {
            ReadAggregationActorEvent::Completed(o) => ReadActorEventView::Completed(o@),
            ReadAggregationActorEvent::DecodeFailed { replica, reason } => ReadActorEventView::DecodeFailed(
                replica@,
                reason@,
            ),
        }
    }
}

/// Input of a read aggregation actor.
pub enum ReadAggregationActorMsg {
    /// A reply from a replica.
    Reply(ReplicatorWireReply),
    /// The deadline passed.
    Timeout,
}

/// The event that follows a read outcome: none while in progress, else completion.
pub open spec fn read_completion<V>(o: ReadOutcomeView<V>) -> Option<ReadActorEventView<V>> {
    if o is InProgress {
        None
    } else {
        Some(ReadActorEventView::Completed(o))
    }
}

/// Read progress after a decoded reply `envelope` from `replica`.
pub open spec fn read_after_reply<D: ReplicatedData>(
    v: ReadAggView<D::V>,
    replica: Seq<char>,
    envelope: Option<(D::V, crate::pruning::PTable)>,
) -> ReadAggView<D::V> {
    if v.remote.contains(replica) && !v.received_from.contains(replica) {
        ReadAggView {
            received: (v.received + 1) as usize,
            received_from: v.received_from.insert(replica),
            result: read_result_after::<D>(v.result, envelope),
            ..v
        }
    } else {
        v
    }
}

pub open spec fn opt_read_event_view<D: View>(e: Option<ReadAggregationActorEvent<D>>) -> Option<
    ReadActorEventView<D::V>,
> {
    match e {
        Some(x) => Some(x@),
        None => None,
    }
}

pub open spec fn opt_envelope_view<D: View>(e: Option<DataEnvelope<D>>) -> Option<
    (D::V, crate::pruning::PTable),
> {
    match e {
        Some(x) => Some(x@),
        None => None,
    }
}

/// Owns one read quorum: decodes replies with `codec`, merges them and
/// names the decoding failures and the completion to emit.
pub struct ReadAggregationActor<D, C> {
    state: ReadAggregatorState<D>,
    codec: C,
    timeout: Option<Duration>,
}

impl<D: ReplicatedData, C: CrdtDataCodec<D>> ReadAggregationActor<D, C> {
    /// Structural validity.
    pub closed spec fn wf(&self) -> bool {
        self.state.wf()
    }

    /// Aggregation progress.
    pub closed spec fn state_view(&self) -> ReadAggView<D::V> {
        self.state@
    }

    /// Deadline armed at start, if any.
    pub closed spec fn timeout_spec(&self) -> Option<Duration> {
        self.timeout
    }

    /// An actor for `plan` without a deadline.
    pub fn new(plan: ReadAggregationPlan<D>, codec: C) -> (r: Self)
        ensures
            plan.wf() ==> r.wf(),
            r.state_view() == plan.state_view(),
            r.timeout_spec() is None,
    {
        ReadAggregationActor { state: plan.into_state(), codec, timeout: None }
    }

    /// An actor for `plan` that completes by `timeout` at the latest.
    pub fn with_timeout(plan: ReadAggregationPlan<D>, codec: C, timeout: Duration) -> (r: Self)
        ensures
            plan.wf() ==> r.wf(),
            r.state_view() == plan.state_view(),
            r.timeout_spec() == Some(timeout),
    {
        ReadAggregationActor { state: plan.into_state(), codec, timeout: Some(timeout) }
    }

    /// Aggregation progress.
    pub fn state(&self) -> (r: &ReadAggregatorState<D>)
        ensures
            r@ == self.state_view(),
    {
        &self.state
    }

    /// Deadline to arm when the actor starts in progress.
    pub fn timeout(&self) -> (r: Option<Duration>)
        ensures
            r == self.timeout_spec(),
    {
        self.timeout
    }

    /// The event to emit on start: the completion when the plan is already
    /// terminal, else none (and the deadline, if any, is armed).
    pub fn started(&self) -> (r: Option<ReadAggregationActorEvent<D>>)
        ensures
            opt_read_event_view(r) == read_completion(read_outcome_spec(self.state_view())),
    {
        Self::completion(self.state.outcome())
    }

    /// Handles a read reply from `from` given what decoding it produced: a
    /// failure is reported and not counted; a decoded reply is merged and
    /// completes the read when terminal.
    pub fn receive_read_result(
        &mut self,
        from: ReplicaId,
        decoded: Result<Option<DataEnvelope<D>>, WireDecodeError>,
    ) -> (r: Option<ReadAggregationActorEvent<D>>)
        requires
            old(self).wf(),
            old(self).state_view().received < usize::MAX,
        ensures
            final(self).wf(),
            final(self).timeout_spec() == old(self).timeout_spec(),
            match decoded {
                Err(e) => {
                    &&& final(self).state_view() == old(self).state_view()
                    &&& opt_read_event_view(r) == Some(
                        ReadActorEventView::<D::V>::DecodeFailed(from@, decode_error_message(e@)),
                    )
                },
                Ok(envelope) => {
                    &&& final(self).state_view() == read_after_reply::<D>(
                        old(self).state_view(),
                        from@,
                        opt_envelope_view(envelope),
                    )
                    &&& opt_read_event_view(r) == read_completion(
                        read_outcome_spec(final(self).state_view()),
                    )
                },
            },
    {
        match decoded {
            Err(error) => Some(
                ReadAggregationActorEvent::DecodeFailed { replica: from, reason: error.message() },
            ),
            Ok(envelope) => {
                let outcome = self.state.record_read_from(&from, envelope);
                Self::completion(outcome)
            },
        }
    }

    /// Handles one input: a read reply is decoded with the actor's codec and
    /// handled as [`Self::receive_read_result`] says; other replies are
    /// ignored; the deadline completes with the timeout outcome.
    pub fn receive(&mut self, msg: ReadAggregationActorMsg) -> (r: Option<ReadAggregationActorEvent<D>>)
        requires
            old(self).wf(),
            old(self).state_view().received < usize::MAX,
        ensures
            final(self).wf(),
            final(self).timeout_spec() == old(self).timeout_spec(),
            match msg {
                ReadAggregationActorMsg::Reply(ReplicatorWireReply::ReadResult { from, .. }) => {
                    ||| {
                        &&& final(self).state_view() == old(self).state_view()
                        &&& r matches Some(ReadAggregationActorEvent::DecodeFailed { replica, .. })
                        &&& r->Some_0->replica@ == from@
                    }
                    ||| exists|envelope: Option<(D::V, crate::pruning::PTable)>|
                        {
                            &&& final(self).state_view() == read_after_reply::<D>(
                                old(self).state_view(),
                                from@,
                                envelope,
                            )
                            &&& opt_read_event_view(r) == read_completion(
                                read_outcome_spec(final(self).state_view()),
                            )
                        }
                },
                ReadAggregationActorMsg::Reply(_) => {
                    &&& final(self).state_view() == old(self).state_view()
                    &&& r is None
                },
                ReadAggregationActorMsg::Timeout => {
                    &&& final(self).state_view() == old(self).state_view()
                    &&& opt_read_event_view(r) == Some(
                        ReadActorEventView::Completed(read_timeout_spec(old(self).state_view())),
                    )
                },
            },
    {
        match msg {
            ReadAggregationActorMsg::Reply(reply) => match reply {
                ReplicatorWireReply::ReadResult { from, message } => {
                    let decoded = decode_read_result(&message, &self.codec);
                    self.receive_read_result(from, decoded)
                },
                _ => None,
            },
            ReadAggregationActorMsg::Timeout => Self::completion(self.state.timeout()),
        }
    }

    fn completion(outcome: ReadAggregationOutcome<D>) -> (r: Option<ReadAggregationActorEvent<D>>)
        ensures
            opt_read_event_view(r) == read_completion(outcome@),
    {
        match outcome {
            ReadAggregationOutcome::InProgress => None,
            terminal => Some(ReadAggregationActorEvent::Completed(terminal)),
        }
    }
}

/// A replica's reply is counted once: a second read reply from a replica
/// that already replied leaves the progress as the first left it, whatever
/// it carries.
pub proof fn lemma_read_reply_counted_once<D: ReplicatedData>(
    v: ReadAggView<D::V>,
    replica: Seq<char>,
    first: Option<(D::V, crate::pruning::PTable)>,
    second: Option<(D::V, crate::pruning::PTable)>,
)
    requires
        v.received < usize::MAX,
    ensures
        read_after_reply::<D>(read_after_reply::<D>(v, replica, first), replica, second)
            == read_after_reply::<D>(v, replica, first),
{
}

/// Acknowledgements and rejections are idempotent: a redelivered
/// acknowledgement or rejection from the same replica changes nothing more.
pub proof fn lemma_write_replies_idempotent(v: WriteAggView, replica: Seq<char>)
    ensures
        write_after_ack(write_after_ack(v, replica), replica) == write_after_ack(v, replica),
        write_after_nack(write_after_nack(v, replica), replica) == write_after_nack(v, replica),
{
    if v.remote.contains(replica) {
        assert(write_after_ack(v, replica).acked.insert(replica) =~= write_after_ack(v, replica).acked);
        assert(write_after_ack(v, replica).nacked.remove(replica) =~= write_after_ack(v, replica).nacked);
        if !v.acked.contains(replica) {
            assert(write_after_nack(v, replica).nacked.insert(replica) =~= write_after_nack(
                v,
                replica,
            ).nacked);
        }
    }
}

/// An acknowledgement outweighs a rejection from the same replica in either
/// order: after both, the replica counts as acknowledged only.
pub proof fn lemma_ack_after_nack_wins(v: WriteAggView, replica: Seq<char>)
    requires
        v.remote.contains(replica),
    ensures
        write_after_ack(write_after_nack(v, replica), replica).acked.contains(replica),
        !write_after_ack(write_after_nack(v, replica), replica).nacked.contains(replica),
        write_after_nack(write_after_ack(v, replica), replica) == write_after_ack(v, replica),
{
}

} // verus!
