//! Diagnostics of full-state gossip traffic.
//!
//! Each status or full-state send names one logical replica. A missing route
//! or a rejected send is retained as a failure; accepted sends are recorded
//! in attempt order, and merged reports keep the order of both parts.
use vstd::prelude::*;

use crate::gossip::{ReplicatorGossipApplyReport, ReplicatorGossipStatusPlan};
use crate::protocol::ReplicatorGossipStatus;
use crate::replica::{ids_view, ReplicaId};
use crate::sorted_map::Duplicate;

verus! {

/// Abstract gossip send failure.
pub enum GossipFailureView {
    MissingTarget { replica: Seq<char> },
    SendStatusFailed { replica: Seq<char>, reason: Seq<char> },
    SendGossipFailed { replica: Seq<char>, reason: Seq<char> },
}

/// A failed gossip transport send.
#[derive(Debug, PartialEq, Eq)]
pub enum ReplicatorGossipTransportFailure {
    /// No delivery target was registered for the logical replica.
    MissingTarget {
        /// The unresolved logical replica.
        replica: ReplicaId,
    },
    /// The status recipient rejected the message.
    SendStatusFailed {
        /// The logical replica whose recipient rejected the message.
        replica: ReplicaId,
        /// The recipient-provided failure reason.
        reason: String,
    },
    /// The full-state gossip recipient rejected the message.
    SendGossipFailed {
        /// The logical replica whose recipient rejected the message.
        replica: ReplicaId,
        /// The recipient-provided failure reason.
        reason: String,
    },
}

impl View for ReplicatorGossipTransportFailure {
    type V = GossipFailureView;

    open spec fn view(&self) -> GossipFailureView {
        match self {
            ReplicatorGossipTransportFailure::MissingTarget { replica } =>
                GossipFailureView::MissingTarget { replica: replica@ },
            ReplicatorGossipTransportFailure::SendStatusFailed { replica, reason } =>
                GossipFailureView::SendStatusFailed { replica: replica@, reason: reason@ },
            ReplicatorGossipTransportFailure::SendGossipFailed { replica, reason } =>
                GossipFailureView::SendGossipFailed { replica: replica@, reason: reason@ },
        }
    }
}

impl Clone for ReplicatorGossipTransportFailure {
    fn clone(&self) -> (r: Self)
        ensures
            r@ == self@,
    {
        match self {
            ReplicatorGossipTransportFailure::MissingTarget { replica } =>
                ReplicatorGossipTransportFailure::MissingTarget { replica: replica.duplicate() },
            ReplicatorGossipTransportFailure::SendStatusFailed { replica, reason } =>
                ReplicatorGossipTransportFailure::SendStatusFailed {
                replica: replica.duplicate(),
                reason: reason.clone(),
            },
            ReplicatorGossipTransportFailure::SendGossipFailed { replica, reason } =>
                ReplicatorGossipTransportFailure::SendGossipFailed {
                replica: replica.duplicate(),
                reason: reason.clone(),
            },
        }
    }
}

/// What happened when one message was handed to a replica's recipient.
#[derive(Debug, Clone, PartialEq, Eq)]
pub enum GossipDeliveryOutcome {
    /// The recipient accepted the message.
    Accepted,
    /// No route was registered for the replica.
    MissingTarget,
    /// The recipient rejected the message for `reason`.
    Rejected(String),
}

/// Abstract values of a sequence of failures.
pub open spec fn gossip_failures_view(s: Seq<ReplicatorGossipTransportFailure>) -> Seq<
    GossipFailureView,
> {
    s.map_values(|f: ReplicatorGossipTransportFailure| f@)
}

/// Abstract gossip transport report.
pub struct GossipReportView {
    pub sent_status_to: Seq<Seq<char>>,
    pub sent_gossip_to: Seq<Seq<char>>,
    pub failures: Seq<GossipFailureView>,
}

/// The report of a single status send to `replica` with `outcome`.
pub open spec fn status_send_view(replica: Seq<char>, outcome: GossipDeliveryOutcome) -> GossipReportView {
    match outcome {
        GossipDeliveryOutcome::Accepted => GossipReportView {
            sent_status_to: seq![replica],
            sent_gossip_to: Seq::empty(),
            failures: Seq::empty(),
        },
        GossipDeliveryOutcome::MissingTarget => GossipReportView {
            sent_status_to: Seq::empty(),
            sent_gossip_to: Seq::empty(),
            failures: seq![GossipFailureView::MissingTarget { replica }],
        },
        GossipDeliveryOutcome::Rejected(reason) => GossipReportView {
            sent_status_to: Seq::empty(),
            sent_gossip_to: Seq::empty(),
            failures: seq![GossipFailureView::SendStatusFailed { replica, reason: reason@ }],
        },
    }
}

/// The report of a single full-state send to `replica` with `outcome`.
pub open spec fn gossip_send_view(replica: Seq<char>, outcome: GossipDeliveryOutcome) -> GossipReportView {
    match outcome {
        GossipDeliveryOutcome::Accepted => GossipReportView {
            sent_status_to: Seq::empty(),
            sent_gossip_to: seq![replica],
            failures: Seq::empty(),
        },
        GossipDeliveryOutcome::MissingTarget => GossipReportView {
            sent_status_to: Seq::empty(),
            sent_gossip_to: Seq::empty(),
            failures: seq![GossipFailureView::MissingTarget { replica }],
        },
        GossipDeliveryOutcome::Rejected(reason) => GossipReportView {
            sent_status_to: Seq::empty(),
            sent_gossip_to: Seq::empty(),
            failures: seq![GossipFailureView::SendGossipFailed { replica, reason: reason@ }],
        },
    }
}

/// The accumulated outcome of one or more gossip transport sends.
///
/// [`Self::extend`] preserves send-attempt order and does not deduplicate
/// replica identifiers, so a status response and a gossip response to the
/// same replica remain independently observable.
#[derive(Debug, Clone, PartialEq, Eq)]
pub struct ReplicatorGossipTransportReport {
    sent_status_to: Vec<ReplicaId>,
    sent_gossip_to: Vec<ReplicaId>,
    failures: Vec<ReplicatorGossipTransportFailure>,
}

impl View for ReplicatorGossipTransportReport {
    type V = GossipReportView;

    closed spec fn view(&self) -> GossipReportView {
        GossipReportView {
            sent_status_to: ids_view(self.sent_status_to@),
            sent_gossip_to: ids_view(self.sent_gossip_to@),
            failures: gossip_failures_view(self.failures@),
        }
    }
}

impl ReplicatorGossipTransportReport {
    /// Creates a report with no sends and no failures.
    pub fn empty() -> (r: Self)
        ensures
            r@ == (GossipReportView {
                sent_status_to: Seq::empty(),
                sent_gossip_to: Seq::empty(),
                failures: Seq::empty(),
            }),
    {
        let r = ReplicatorGossipTransportReport {
            sent_status_to: Vec::new(),
            sent_gossip_to: Vec::new(),
            failures: Vec::new(),
        };
        proof {
            assert(r@.sent_status_to =~= Seq::<Seq<char>>::empty());
            assert(r@.sent_gossip_to =~= Seq::<Seq<char>>::empty());
            assert(r@.failures =~= Seq::<GossipFailureView>::empty());
        }
        r
    }

    /// Replicas that accepted a digest status message.
    pub fn sent_status_to(&self) -> (r: &[ReplicaId])
        ensures
            ids_view(r@) == self@.sent_status_to,
    {
        self.sent_status_to.as_slice()
    }

    /// Replicas that accepted a full-state gossip message.
    pub fn sent_gossip_to(&self) -> (r: &[ReplicaId])
        ensures
            ids_view(r@) == self@.sent_gossip_to,
    {
        self.sent_gossip_to.as_slice()
    }

    /// Delivery failures in attempt order.
    pub fn failures(&self) -> (r: &[ReplicatorGossipTransportFailure])
        ensures
            gossip_failures_view(r@) == self@.failures,
    {
        self.failures.as_slice()
    }

    /// Whether every attempted send was accepted; an empty report succeeds.
    pub fn is_success(&self) -> (r: bool)
        ensures
            r == (self@.failures.len() == 0),
    {
        self.failures.len() == 0
    }

    /// The report of sending a digest status to `replica` with `outcome`.
    pub fn status_send(replica: ReplicaId, outcome: GossipDeliveryOutcome) -> (r: Self)
        ensures
            r@ == status_send_view(replica@, outcome),
    {
        let ghost rv = replica@;
        let ghost o = outcome;
        let mut r = Self::empty();
        match outcome {
            GossipDeliveryOutcome::Accepted => {
                r.sent_status_to.push(replica);
            },
            GossipDeliveryOutcome::MissingTarget => {
                r.failures.push(ReplicatorGossipTransportFailure::MissingTarget { replica });
            },
            GossipDeliveryOutcome::Rejected(reason) => {
                r.failures.push(ReplicatorGossipTransportFailure::SendStatusFailed { replica, reason });
            },
        }
        proof {
            assert(r@.sent_status_to =~= status_send_view(rv, o).sent_status_to);
            assert(r@.sent_gossip_to =~= status_send_view(rv, o).sent_gossip_to);
            assert(r@.failures =~= status_send_view(rv, o).failures);
        }
        r
    }

    /// The report of sending full-state gossip to `replica` with `outcome`.
    pub fn gossip_send(replica: ReplicaId, outcome: GossipDeliveryOutcome) -> (r: Self)
        ensures
            r@ == gossip_send_view(replica@, outcome),
    {
        let ghost rv = replica@;
        let ghost o = outcome;
        let mut r = Self::empty();
        match outcome {
            GossipDeliveryOutcome::Accepted => {
                r.sent_gossip_to.push(replica);
            },
            GossipDeliveryOutcome::MissingTarget => {
                r.failures.push(ReplicatorGossipTransportFailure::MissingTarget { replica });
            },
            GossipDeliveryOutcome::Rejected(reason) => {
                r.failures.push(ReplicatorGossipTransportFailure::SendGossipFailed { replica, reason });
            },
        }
        proof {
            assert(r@.sent_status_to =~= gossip_send_view(rv, o).sent_status_to);
            assert(r@.sent_gossip_to =~= gossip_send_view(rv, o).sent_gossip_to);
            assert(r@.failures =~= gossip_send_view(rv, o).failures);
        }
        r
    }

    /// Appends all successes and failures from `other` in their existing order.
    pub fn extend(&mut self, other: Self)
        ensures
            final(self)@ == extended(old(self)@, other@),
    {
        let ghost a = self.sent_status_to@;
        let ghost b = self.sent_gossip_to@;
        let ghost c = self.failures@;
        let ReplicatorGossipTransportReport { sent_status_to, sent_gossip_to, failures } = other;
        let mut sent_status_to = sent_status_to;
        let mut sent_gossip_to = sent_gossip_to;
        let mut failures = failures;
        let ghost a2 = sent_status_to@;
        let ghost b2 = sent_gossip_to@;
        let ghost c2 = failures@;
        self.sent_status_to.append(&mut sent_status_to);
        self.sent_gossip_to.append(&mut sent_gossip_to);
        self.failures.append(&mut failures);
        proof {
            assert(ids_view(a + a2) =~= ids_view(a) + ids_view(a2));
            assert(ids_view(b + b2) =~= ids_view(b) + ids_view(b2));
            assert(gossip_failures_view(c + c2) =~= gossip_failures_view(c) + gossip_failures_view(
                c2,
            ));
        }
    }
}

/// Why a scheduled full-state gossip tick did not select a target.
#[derive(Debug, Clone, Copy, PartialEq, Eq, Structural)]
pub enum ReplicatorGossipTickSkipReason {
    /// The replicator has no gossip transport or CRDT codec.
    NotConfigured,
    /// The replicator knows no currently reachable remote target.
    NoReachableTargets,
}

/// The planning and delivery result of one scheduled gossip tick.
///
/// A selected target and status describe the attempted tick; callers inspect
/// [`Self::transport`] to learn whether delivery succeeded.
#[derive(Debug, Clone, PartialEq, Eq)]
pub struct ReplicatorGossipTickReport {
    target: Option<ReplicaId>,
    status: Option<ReplicatorGossipStatus>,
    transport: ReplicatorGossipTransportReport,
    skipped: Option<ReplicatorGossipTickSkipReason>,
}

impl ReplicatorGossipTickReport {
    /// Selected target, if any.
    pub closed spec fn target_spec(&self) -> Option<Seq<char>> {
        match self.target {
            Some(t) => Some(t@),
            None => None,
        }
    }

    /// Constructed status, if any.
    pub closed spec fn status_spec(&self) -> Option<ReplicatorGossipStatus> {
        self.status
    }

    /// Transport outcome.
    pub closed spec fn transport_spec(&self) -> GossipReportView {
        self.transport@
    }

    /// Skip reason, if the tick was skipped.
    pub closed spec fn skipped_spec(&self) -> Option<ReplicatorGossipTickSkipReason> {
        self.skipped
    }

    /// A tick that selected `target`, built `status` and attempted delivery.
    pub fn sent(target: ReplicaId, status: ReplicatorGossipStatus, transport: ReplicatorGossipTransportReport) -> (r:
        Self)
        ensures
            r.target_spec() == Some(target@),
            r.status_spec() == Some(status),
            r.transport_spec() == transport@,
            r.skipped_spec() is None,
    {
        ReplicatorGossipTickReport {
            target: Some(target),
            status: Some(status),
            transport,
            skipped: None,
        }
    }

    /// A tick skipped before status construction.
    pub fn skipped(reason: ReplicatorGossipTickSkipReason) -> (r: Self)
        ensures
            r.target_spec() is None,
            r.status_spec() is None,
            r.transport_spec().sent_status_to.len() == 0,
            r.transport_spec().sent_gossip_to.len() == 0,
            r.transport_spec().failures.len() == 0,
            r.skipped_spec() == Some(reason),
    {
        ReplicatorGossipTickReport {
            target: None,
            status: None,
            transport: ReplicatorGossipTransportReport::empty(),
            skipped: Some(reason),
        }
    }

    /// The selected target, or `None` for a skipped tick.
    pub fn target(&self) -> (r: Option<&ReplicaId>)
        ensures
            match r {
                Some(t) => self.target_spec() == Some(t@),
                None => self.target_spec() is None,
            },
    {
        self.target.as_ref()
    }

    /// The constructed status, or `None` for a skipped tick.
    pub fn status(&self) -> (r: Option<&ReplicatorGossipStatus>)
        ensures
            match r {
                Some(s) => self.status_spec() == Some(*s),
                None => self.status_spec() is None,
            },
    {
        self.status.as_ref()
    }

    /// The transport outcome.
    pub fn transport(&self) -> (r: &ReplicatorGossipTransportReport)
        ensures
            r@ == self.transport_spec(),
    {
        &self.transport
    }

    /// Why the tick was skipped, if it did not select a target.
    pub fn skipped_reason(&self) -> (r: Option<ReplicatorGossipTickSkipReason>)
        ensures
            r == self.skipped_spec(),
    {
        self.skipped
    }
}

/// The response plan and delivery outcome for an inbound gossip status.
#[derive(Debug, Clone, PartialEq, Eq)]
pub struct ReplicatorGossipStatusReceiveReport {
    plan: ReplicatorGossipStatusPlan,
    transport: ReplicatorGossipTransportReport,
}

impl ReplicatorGossipStatusReceiveReport {
    /// Response plan.
    pub closed spec fn plan_spec(&self) -> ReplicatorGossipStatusPlan {
        self.plan
    }

    /// Transport outcome.
    pub closed spec fn transport_spec(&self) -> GossipReportView {
        self.transport@
    }

    /// Combines a status response plan with the resulting transport sends.
    pub fn new(plan: ReplicatorGossipStatusPlan, transport: ReplicatorGossipTransportReport) -> (r: Self)
        ensures
            r.plan_spec() == plan,
            r.transport_spec() == transport@,
    {
        ReplicatorGossipStatusReceiveReport { plan, transport }
    }

    /// The response plan produced from the peer's digests.
    pub fn plan(&self) -> (r: &ReplicatorGossipStatusPlan)
        ensures
            *r == self.plan_spec(),
    {
        &self.plan
    }

    /// The outcome of delivering the planned responses.
    pub fn transport(&self) -> (r: &ReplicatorGossipTransportReport)
        ensures
            r@ == self.transport_spec(),
    {
        &self.transport
    }
}

/// The merge result and optional send-back delivery for inbound gossip.
pub struct ReplicatorGossipReceiveReport {
    apply: ReplicatorGossipApplyReport,
    transport: ReplicatorGossipTransportReport,
}

impl ReplicatorGossipReceiveReport {
    /// Merge result.
    pub closed spec fn apply_spec(&self) -> ReplicatorGossipApplyReport {
        self.apply
    }

    /// Transport outcome.
    pub closed spec fn transport_spec(&self) -> GossipReportView {
        self.transport@
    }

    /// Combines a merge report with the resulting send-back delivery.
    pub fn new(apply: ReplicatorGossipApplyReport, transport: ReplicatorGossipTransportReport) -> (r: Self)
        ensures
            r.apply_spec() == apply,
            r.transport_spec() == transport@,
    {
        ReplicatorGossipReceiveReport { apply, transport }
    }

    /// The merge result.
    pub fn apply(&self) -> (r: &ReplicatorGossipApplyReport)
        ensures
            *r == self.apply_spec(),
    {
        &self.apply
    }

    /// The outcome of delivering the send-back gossip, if any.
    pub fn transport(&self) -> (r: &ReplicatorGossipTransportReport)
        ensures
            r@ == self.transport_spec(),
    {
        &self.transport
    }
}


/// The view of `a` extended by `b`.
pub open spec fn extended(a: GossipReportView, b: GossipReportView) -> GossipReportView {
    GossipReportView {
        sent_status_to: a.sent_status_to + b.sent_status_to,
        sent_gossip_to: a.sent_gossip_to + b.sent_gossip_to,
        failures: a.failures + b.failures,
    }
}

/// Merging reports succeeds exactly when both parts did, and merging is
/// associative, so a tick's report does not depend on how sends were grouped.
pub proof fn lemma_extend_laws(a: GossipReportView, b: GossipReportView, c: GossipReportView)
    ensures
        (extended(a, b).failures.len() == 0) == (a.failures.len() == 0 && b.failures.len() == 0),
        extended(extended(a, b), c) == extended(a, extended(b, c)),
{
    assert(extended(extended(a, b), c).sent_status_to =~= extended(a, extended(b, c)).sent_status_to);
    assert(extended(extended(a, b), c).sent_gossip_to =~= extended(a, extended(b, c)).sent_gossip_to);
    assert(extended(extended(a, b), c).failures =~= extended(a, extended(b, c)).failures);
}
} // verus!
