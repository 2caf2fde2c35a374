//! Per-replica diagnostics of aggregation request fan-out.
//!
//! Successful and failed targets are both retained because a quorum
//! operation can continue after an individual route or mailbox failure.
use vstd::prelude::*;

use crate::replica::{ids_view, lemma_ids_push, ReplicaId};
use crate::sorted_map::Duplicate;

verus! {

/// Identifies the request kind associated with a transport failure.
#[derive(Debug, Clone, Copy, PartialEq, Eq, Structural)]
pub enum AggregationTransportOperation {
    /// A full-state read request.
    Read,
    /// A full-state write request.
    Write,
}

/// Abstract fan-out failure.
pub enum AggregationFailureView {
    MissingTarget { replica: Seq<char>, operation: AggregationTransportOperation },
    EncodeFailed { replica: Seq<char>, operation: AggregationTransportOperation, reason: Seq<char> },
    SendFailed { replica: Seq<char>, operation: AggregationTransportOperation, reason: Seq<char> },
}

/// Failure to publish an aggregation request to one replica.
#[derive(Debug, PartialEq, Eq)]
pub enum AggregationTransportFailure {
    /// No delivery target is registered for the replica.
    MissingTarget {
        /// Replica that had no registered target.
        replica: ReplicaId,
        /// Request kind that could not be delivered.
        operation: AggregationTransportOperation,
    },
    /// The shared write envelope could not be encoded.
    EncodeFailed {
        /// Replica that would have received the encoded write.
        replica: ReplicaId,
        /// Request kind, always a write.
        operation: AggregationTransportOperation,
        /// Stable diagnostic derived from the serialization error.
        reason: String,
    },
    /// The resolved recipient rejected the request.
    SendFailed {
        /// Replica whose recipient rejected delivery.
        replica: ReplicaId,
        /// Request kind that was rejected.
        operation: AggregationTransportOperation,
        /// Diagnostic supplied by the recipient send error.
        reason: String,
    },
}

impl View for AggregationTransportFailure {
    type V = AggregationFailureView;

    open spec fn view(&self) -> AggregationFailureView {
        match self {
            AggregationTransportFailure::MissingTarget { replica, operation } =>
                AggregationFailureView::MissingTarget { replica: replica@, operation: *operation },
            AggregationTransportFailure::EncodeFailed { replica, operation, reason } =>
                AggregationFailureView::EncodeFailed {
                replica: replica@,
                operation: *operation,
                reason: reason@,
            },
            AggregationTransportFailure::SendFailed { replica, operation, reason } =>
                AggregationFailureView::SendFailed {
                replica: replica@,
                operation: *operation,
                reason: reason@,
            },
        }
    }
}

impl Clone for AggregationTransportFailure {
    fn clone(&self) -> (r: Self)
        ensures
            r@ == self@,
    {
        match self {
            AggregationTransportFailure::MissingTarget { replica, operation } =>
                AggregationTransportFailure::MissingTarget {
                replica: replica.duplicate(),
                operation: *operation,
            },
            AggregationTransportFailure::EncodeFailed { replica, operation, reason } =>
                AggregationTransportFailure::EncodeFailed {
                replica: replica.duplicate(),
                operation: *operation,
                reason: reason.clone(),
            },
            AggregationTransportFailure::SendFailed { replica, operation, reason } =>
                AggregationTransportFailure::SendFailed {
                replica: replica.duplicate(),
                operation: *operation,
                reason: reason.clone(),
            },
        }
    }
}

/// What happened when the request was handed to one replica.
#[derive(Debug, Clone, PartialEq, Eq)]
pub enum AggregationDeliveryOutcome {
    /// The recipient accepted the request.
    Sent,
    /// No target was registered for the replica.
    MissingTarget,
    /// Encoding the shared write envelope failed for `reason`.
    EncodeFailed(String),
    /// The recipient rejected the request for `reason`.
    SendFailed(String),
}

/// Abstract values of a sequence of failures.
pub open spec fn aggregation_failures_view(s: Seq<AggregationTransportFailure>) -> Seq<
    AggregationFailureView,
> {
    s.map_values(|f: AggregationTransportFailure| f@)
}

/// Per-replica outcome of publishing one aggregation request fan-out.
#[derive(Debug, Clone, PartialEq, Eq)]
pub struct AggregationTransportReport {
    sent_to: Vec<ReplicaId>,
    failures: Vec<AggregationTransportFailure>,
}

impl View for AggregationTransportReport {
    type V = (Seq<Seq<char>>, Seq<AggregationFailureView>);

    closed spec fn view(&self) -> (Seq<Seq<char>>, Seq<AggregationFailureView>) {
        (ids_view(self.sent_to@), aggregation_failures_view(self.failures@))
    }
}

impl AggregationTransportReport {
    /// A report of the given accepted replicas and failures.
    pub fn new(sent_to: Vec<ReplicaId>, failures: Vec<AggregationTransportFailure>) -> (r: Self)
        ensures
            r@ == (ids_view(sent_to@), aggregation_failures_view(failures@)),
    {
        AggregationTransportReport { sent_to, failures }
    }

    /// A report with no attempts.
    pub fn empty() -> (r: Self)
        ensures
            r@.0.len() == 0,
            r@.1.len() == 0,
    {
        AggregationTransportReport { sent_to: Vec::new(), failures: Vec::new() }
    }

    /// Replicas whose recipient accepted the request.
    pub fn sent_to(&self) -> (r: &[ReplicaId])
        ensures
            ids_view(r@) == self@.0,
    {
        self.sent_to.as_slice()
    }

    /// Target resolution, encoding and delivery failures.
    pub fn failures(&self) -> (r: &[AggregationTransportFailure])
        ensures
            aggregation_failures_view(r@) == self@.1,
    {
        self.failures.as_slice()
    }

    /// Whether every requested replica accepted the request.
    pub fn is_success(&self) -> (r: bool)
        ensures
            r == (self@.1.len() == 0),
    {
        self.failures.len() == 0
    }

    /// Records what happened when `operation` was handed to `replica`.
    pub fn record_delivery(
        &mut self,
        replica: ReplicaId,
        operation: AggregationTransportOperation,
        outcome: AggregationDeliveryOutcome,
    )
        ensures
            final(self)@ == match outcome {
                AggregationDeliveryOutcome::Sent => (old(self)@.0.push(replica@), old(self)@.1),
                AggregationDeliveryOutcome::MissingTarget => (
                    old(self)@.0,
                    old(self)@.1.push(AggregationFailureView::MissingTarget { replica: replica@, operation }),
                ),
                AggregationDeliveryOutcome::EncodeFailed(reason) => (
                    old(self)@.0,
                    old(self)@.1.push(
                        AggregationFailureView::EncodeFailed { replica: replica@, operation, reason: reason@ },
                    ),
                ),
                AggregationDeliveryOutcome::SendFailed(reason) => (
                    old(self)@.0,
                    old(self)@.1.push(
                        AggregationFailureView::SendFailed { replica: replica@, operation, reason: reason@ },
                    ),
                ),
            },
    {
        let ghost r = replica;
        let ghost prev_sent = self.sent_to@;
        let ghost prev_failures = self.failures@;
        let f = match outcome {
            AggregationDeliveryOutcome::Sent => {
                self.sent_to.push(replica);
                proof {
                    lemma_ids_push(prev_sent, r);
                }
                return ;
            },
            AggregationDeliveryOutcome::MissingTarget => AggregationTransportFailure::MissingTarget {
                replica,
                operation,
            },
            AggregationDeliveryOutcome::EncodeFailed(reason) => AggregationTransportFailure::EncodeFailed {
                replica,
                operation,
                reason,
            },
            AggregationDeliveryOutcome::SendFailed(reason) => AggregationTransportFailure::SendFailed {
                replica,
                operation,
                reason,
            },
        };
        self.failures.push(f);
        proof {
            assert(aggregation_failures_view(self.failures@) =~= aggregation_failures_view(
                prev_failures,
            ).push(f@));
        }
    }
}

} // verus!
