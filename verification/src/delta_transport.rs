//! Diagnostics of periodic delta publication.
//!
//! A selected propagation is attempted once per target replica, in ascending
//! replica order. Empty batches are skipped before route resolution; a
//! missing route, an encoding error or a rejected send is retained for that
//! replica and does not stop later targets.
use vstd::prelude::*;

use crate::replica::{ids_view, lemma_ids_push, ReplicaId};
use crate::sorted_map::Duplicate;

verus! {

/// Abstract publication failure: which kind, for which replica, and why.
pub enum TransportFailureView {
    MissingTarget { replica: Seq<char> },
    EncodeFailed { replica: Seq<char>, reason: Seq<char> },
    SendFailed { replica: Seq<char>, reason: Seq<char> },
}

/// A failed delta publication for one logical replica.
#[derive(Debug, PartialEq, Eq)]
pub enum DeltaTransportFailure {
    /// No delivery target was registered for the selected replica.
    MissingTarget { replica: ReplicaId },
    /// The selected CRDT delta could not be encoded.
    EncodeFailed { replica: ReplicaId, reason: String },
    /// The registered recipient rejected the encoded propagation message.
    SendFailed { replica: ReplicaId, reason: String },
}

impl View for DeltaTransportFailure {
    type V = TransportFailureView;

    open spec fn view(&self) -> TransportFailureView {
        match self {
            DeltaTransportFailure::MissingTarget { replica } => TransportFailureView::MissingTarget {
                replica: replica@,
            },
            DeltaTransportFailure::EncodeFailed { replica, reason } =>
                TransportFailureView::EncodeFailed { replica: replica@, reason: reason@ },
            DeltaTransportFailure::SendFailed { replica, reason } =>
                TransportFailureView::SendFailed { replica: replica@, reason: reason@ },
        }
    }
}

impl Clone for DeltaTransportFailure {
    fn clone(&self) -> (r: Self)
        ensures
            r@ == self@,
    {
        match self {
            DeltaTransportFailure::MissingTarget { replica } => DeltaTransportFailure::MissingTarget {
                replica: replica.duplicate(),
            },
            DeltaTransportFailure::EncodeFailed { replica, reason } =>
                DeltaTransportFailure::EncodeFailed {
                replica: replica.duplicate(),
                reason: reason.clone(),
            },
            DeltaTransportFailure::SendFailed { replica, reason } =>
                DeltaTransportFailure::SendFailed { replica: replica.duplicate(), reason: reason.clone() },
        }
    }
}

/// What happened when one non-empty batch was handed to delivery.
#[derive(Debug, Clone, PartialEq, Eq)]
pub enum DeltaDeliveryOutcome {
    /// The recipient accepted the message.
    Sent,
    /// No route was registered for the replica.
    MissingTarget,
    /// Encoding failed for `reason`.
    EncodeFailed(String),
    /// The recipient rejected the message for `reason`.
    SendFailed(String),
}

/// Abstract values of a sequence of failures.
pub open spec fn transport_failures_view(s: Seq<DeltaTransportFailure>) -> Seq<TransportFailureView> {
    s.map_values(|f: DeltaTransportFailure| f@)
}

/// Abstract publication report.
pub struct TransportReportView {
    pub sent_to: Seq<Seq<char>>,
    pub skipped_empty: Seq<Seq<char>>,
    pub failures: Seq<TransportFailureView>,
}

/// The outcome of publishing one deterministic per-replica delta selection.
#[derive(Debug, Clone, PartialEq, Eq)]
pub struct DeltaTransportReport {
    sent_to: Vec<ReplicaId>,
    skipped_empty: Vec<ReplicaId>,
    failures: Vec<DeltaTransportFailure>,
}

impl View for DeltaTransportReport {
    type V = TransportReportView;

    closed spec fn view(&self) -> TransportReportView {
        TransportReportView {
            sent_to: ids_view(self.sent_to@),
            skipped_empty: ids_view(self.skipped_empty@),
            failures: transport_failures_view(self.failures@),
        }
    }
}

impl DeltaTransportReport {
    /// Creates a report with no sends, skips, or failures.
    pub fn empty() -> (r: Self)
        ensures
            r@ == (TransportReportView {
                sent_to: Seq::empty(),
                skipped_empty: Seq::empty(),
                failures: Seq::empty(),
            }),
    {
        let r = DeltaTransportReport { sent_to: Vec::new(), skipped_empty: Vec::new(), failures: Vec::new() };
        proof {
            assert(r@.sent_to =~= Seq::<Seq<char>>::empty());
            assert(r@.skipped_empty =~= Seq::<Seq<char>>::empty());
            assert(r@.failures =~= Seq::<TransportFailureView>::empty());
        }
        r
    }

    /// Replicas whose recipients accepted a propagation message.
    pub fn sent_to(&self) -> (r: &[ReplicaId])
        ensures
            ids_view(r@) == self@.sent_to,
    {
        self.sent_to.as_slice()
    }

    /// Replicas whose selected propagation contained no delta entries.
    pub fn skipped_empty(&self) -> (r: &[ReplicaId])
        ensures
            ids_view(r@) == self@.skipped_empty,
    {
        self.skipped_empty.as_slice()
    }

    /// Publication failures in target order.
    pub fn failures(&self) -> (r: &[DeltaTransportFailure])
        ensures
            transport_failures_view(r@) == self@.failures,
    {
        self.failures.as_slice()
    }

    /// Whether every non-empty selected batch was delivered; empty and
    /// all-skipped reports succeed because no send failed.
    pub fn is_success(&self) -> (r: bool)
        ensures
            r == (self@.failures.len() == 0),
    {
        self.failures.len() == 0
    }

    /// Records that the batch for `replica` was empty and not sent.
    pub fn record_skipped_empty(&mut self, replica: ReplicaId)
        ensures
            final(self)@ == (TransportReportView {
                skipped_empty: old(self)@.skipped_empty.push(replica@),
                ..old(self)@
            }),
    {
        let ghost prev = self.skipped_empty@;
        let ghost r = replica;
        self.skipped_empty.push(replica);
        proof {
            lemma_ids_push(prev, r);
        }
    }

    /// Records the delivery outcome of the batch for `replica`.
    pub fn record_delivery(&mut self, replica: ReplicaId, outcome: DeltaDeliveryOutcome)
        ensures
            final(self)@ == match outcome {
                DeltaDeliveryOutcome::Sent => TransportReportView {
                    sent_to: old(self)@.sent_to.push(replica@),
                    ..old(self)@
                },
                DeltaDeliveryOutcome::MissingTarget => TransportReportView {
                    failures: old(self)@.failures.push(
                        TransportFailureView::MissingTarget { replica: replica@ },
                    ),
                    ..old(self)@
                },
                DeltaDeliveryOutcome::EncodeFailed(reason) => TransportReportView {
                    failures: old(self)@.failures.push(
                        TransportFailureView::EncodeFailed { replica: replica@, reason: reason@ },
                    ),
                    ..old(self)@
                },
                DeltaDeliveryOutcome::SendFailed(reason) => TransportReportView {
                    failures: old(self)@.failures.push(
                        TransportFailureView::SendFailed { replica: replica@, reason: reason@ },
                    ),
                    ..old(self)@
                },
            },
    {
        let ghost r = replica;
        let ghost prev_sent = self.sent_to@;
        let ghost prev_failures = self.failures@;
        match outcome {
            DeltaDeliveryOutcome::Sent => {
                self.sent_to.push(replica);
                proof {
                    lemma_ids_push(prev_sent, r);
                }
            },
            DeltaDeliveryOutcome::MissingTarget => {
                let f = DeltaTransportFailure::MissingTarget { replica };
                self.failures.push(f);
                proof {
                    assert(transport_failures_view(self.failures@) =~= transport_failures_view(
                        prev_failures,
                    ).push(f@));
                }
            },
            DeltaDeliveryOutcome::EncodeFailed(reason) => {
                let f = DeltaTransportFailure::EncodeFailed { replica, reason };
                self.failures.push(f);
                proof {
                    assert(transport_failures_view(self.failures@) =~= transport_failures_view(
                        prev_failures,
                    ).push(f@));
                }
            },
            DeltaDeliveryOutcome::SendFailed(reason) => {
                let f = DeltaTransportFailure::SendFailed { replica, reason };
                self.failures.push(f);
                proof {
                    assert(transport_failures_view(self.failures@) =~= transport_failures_view(
                        prev_failures,
                    ).push(f@));
                }
            },
        }
    }
}

} // verus!
