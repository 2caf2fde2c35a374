use kairo_distributed_data::{
    AggregationDeliveryOutcome, AggregationTransportFailure, AggregationTransportOperation,
    AggregationTransportReport, DeltaDeliveryOutcome, DeltaTransportFailure, DeltaTransportReport,
    DirectWriteResult, GossipDeliveryOutcome, ReplicaId, ReplicatorGossipTickReport,
    ReplicatorGossipTickSkipReason, ReplicatorGossipTransportFailure,
    ReplicatorGossipTransportReport, ReplicatorGossipStatus, ReplicatorWriteAck, ReplicatorWriteNack,
    ReplicatorRemoteAssociationError,
};
use kairo_distributed_data::key::ReplicatorKey;

fn r(id: &str) -> ReplicaId {
    ReplicaId::new(id)
}

#[test]
fn gossip_transport_reports_missing_target() {
    let report = ReplicatorGossipTransportReport::status_send(r("peer"), GossipDeliveryOutcome::MissingTarget);
    assert!(!report.is_success());
    assert_eq!(
        report.failures(),
        &[ReplicatorGossipTransportFailure::MissingTarget { replica: r("peer") }]
    );
    assert!(report.sent_status_to().is_empty());
}

#[test]
fn gossip_transport_reports_recipient_failures_per_message_kind() {
    let mut report = ReplicatorGossipTransportReport::status_send(
        r("peer"),
        GossipDeliveryOutcome::Rejected("status closed".to_string()),
    );
    report.extend(ReplicatorGossipTransportReport::gossip_send(
        r("peer"),
        GossipDeliveryOutcome::Rejected("gossip closed".to_string()),
    ));
    assert_eq!(
        report.failures(),
        &[
            ReplicatorGossipTransportFailure::SendStatusFailed {
                replica: r("peer"),
                reason: "status closed".to_string()
            },
            ReplicatorGossipTransportFailure::SendGossipFailed {
                replica: r("peer"),
                reason: "gossip closed".to_string()
            },
        ]
    );
}

#[test]
fn gossip_report_extend_keeps_attempt_order_and_duplicates() {
    let mut report = ReplicatorGossipTransportReport::empty();
    assert!(report.is_success());
    report.extend(ReplicatorGossipTransportReport::status_send(r("a"), GossipDeliveryOutcome::Accepted));
    report.extend(ReplicatorGossipTransportReport::gossip_send(r("a"), GossipDeliveryOutcome::Accepted));
    report.extend(ReplicatorGossipTransportReport::status_send(r("b"), GossipDeliveryOutcome::Accepted));
    assert_eq!(report.sent_status_to(), &[r("a"), r("b")]);
    assert_eq!(report.sent_gossip_to(), &[r("a")]);
    assert!(report.is_success());
}

#[test]
fn gossip_tick_report_distinguishes_sent_and_skipped() {
    let status = ReplicatorGossipStatus {
        entries: Vec::new(),
        chunk: 0,
        total_chunks: 1,
        to_system_uid: None,
        from_system_uid: None,
    };
    let sent = ReplicatorGossipTickReport::sent(
        r("peer"),
        status.clone(),
        ReplicatorGossipTransportReport::status_send(r("peer"), GossipDeliveryOutcome::Accepted),
    );
    assert_eq!(sent.target(), Some(&r("peer")));
    assert_eq!(sent.status(), Some(&status));
    assert_eq!(sent.skipped_reason(), None);
    assert_eq!(sent.transport().sent_status_to(), &[r("peer")]);

    let skipped = ReplicatorGossipTickReport::skipped(ReplicatorGossipTickSkipReason::NoReachableTargets);
    assert_eq!(skipped.target(), None);
    assert_eq!(skipped.status(), None);
    assert_eq!(skipped.skipped_reason(), Some(ReplicatorGossipTickSkipReason::NoReachableTargets));
    assert!(skipped.transport().is_success());
}

#[test]
fn delta_transport_report_records_each_outcome() {
    let mut report = DeltaTransportReport::empty();
    report.record_skipped_empty(r("a"));
    report.record_delivery(r("b"), DeltaDeliveryOutcome::Sent);
    assert!(report.is_success());
    report.record_delivery(r("c"), DeltaDeliveryOutcome::MissingTarget);
    report.record_delivery(r("d"), DeltaDeliveryOutcome::EncodeFailed("enc".to_string()));
    report.record_delivery(r("e"), DeltaDeliveryOutcome::SendFailed("send".to_string()));
    assert_eq!(report.skipped_empty(), &[r("a")]);
    assert_eq!(report.sent_to(), &[r("b")]);
    assert_eq!(
        report.failures(),
        &[
            DeltaTransportFailure::MissingTarget { replica: r("c") },
            DeltaTransportFailure::EncodeFailed { replica: r("d"), reason: "enc".to_string() },
            DeltaTransportFailure::SendFailed { replica: r("e"), reason: "send".to_string() },
        ]
    );
    assert!(!report.is_success());
}

#[test]
fn aggregation_report_keeps_successes_and_failures() {
    let mut report = AggregationTransportReport::empty();
    report.record_delivery(r("a"), AggregationTransportOperation::Write, AggregationDeliveryOutcome::Sent);
    assert!(report.is_success());
    report.record_delivery(
        r("b"),
        AggregationTransportOperation::Read,
        AggregationDeliveryOutcome::MissingTarget,
    );
    report.record_delivery(
        r("c"),
        AggregationTransportOperation::Write,
        AggregationDeliveryOutcome::EncodeFailed("bad".to_string()),
    );
    report.record_delivery(
        r("d"),
        AggregationTransportOperation::Read,
        AggregationDeliveryOutcome::SendFailed("full".to_string()),
    );
    assert_eq!(report.sent_to(), &[r("a")]);
    assert_eq!(
        report.failures(),
        &[
            AggregationTransportFailure::MissingTarget {
                replica: r("b"),
                operation: AggregationTransportOperation::Read
            },
            AggregationTransportFailure::EncodeFailed {
                replica: r("c"),
                operation: AggregationTransportOperation::Write,
                reason: "bad".to_string()
            },
            AggregationTransportFailure::SendFailed {
                replica: r("d"),
                operation: AggregationTransportOperation::Read,
                reason: "full".to_string()
            },
        ]
    );
    assert!(!report.is_success());
    let built = AggregationTransportReport::new(vec![r("x")], Vec::new());
    assert!(built.is_success());
    assert_eq!(built.sent_to(), &[r("x")]);
}

#[test]
fn direct_write_results_expose_key_source_and_kind() {
    let ack = DirectWriteResult::Ack {
        key: ReplicatorKey::new("k"),
        from: Some(r("src")),
        changed: true,
        message: ReplicatorWriteAck,
    };
    let nack = DirectWriteResult::Nack {
        key: ReplicatorKey::new("j"),
        from: None,
        reason: "decode".to_string(),
        message: ReplicatorWriteNack,
    };
    assert!(ack.is_ack());
    assert!(!nack.is_ack());
    assert_eq!(ack.key(), &ReplicatorKey::new("k"));
    assert_eq!(nack.key(), &ReplicatorKey::new("j"));
    assert_eq!(ack.from(), Some(&r("src")));
    assert_eq!(nack.from(), None);
    let missing = ReplicatorRemoteAssociationError::MissingRoute { target: r("t") };
    let failed = ReplicatorRemoteAssociationError::Send { target: r("u"), reason: "x".to_string() };
    assert_eq!(missing.target(), &r("t"));
    assert_eq!(failed.target(), &r("u"));
}
