use kairo_distributed_data::protocol::{route_inbound, InboundLane, InboundRefusal};
use kairo_distributed_data::{
    is_replicator_reply_manifest, is_replicator_request_manifest, ReplicatorChanged,
    ReplicatorDeltaAck, ReplicatorDeltaNack, ReplicatorDeltaPropagation, ReplicatorGet,
    ReplicatorGossip, ReplicatorGossipStatus, ReplicatorRead, ReplicatorReadResult,
    ReplicatorSubscribe, ReplicatorUpdate, ReplicatorWrite, ReplicatorWriteAck,
    ReplicatorWriteNack,
};

#[test]
fn distributed_data_system_manifests_are_stable() {
    assert_eq!(
        (ReplicatorGet::MANIFEST, ReplicatorGet::VERSION),
        ("kairo.ddata.replicator-get", 1)
    );
    assert_eq!(
        (ReplicatorUpdate::MANIFEST, ReplicatorUpdate::VERSION),
        ("kairo.ddata.replicator-update", 1)
    );
    assert_eq!(
        (ReplicatorSubscribe::MANIFEST, ReplicatorSubscribe::VERSION),
        ("kairo.ddata.replicator-subscribe", 1)
    );
    assert_eq!(
        (ReplicatorChanged::MANIFEST, ReplicatorChanged::VERSION),
        ("kairo.ddata.replicator-changed", 1)
    );
    assert_eq!(
        (ReplicatorWrite::MANIFEST, ReplicatorWrite::VERSION),
        ("kairo.ddata.write", 2)
    );
    assert_eq!(
        (ReplicatorWriteAck::MANIFEST, ReplicatorWriteAck::VERSION),
        ("kairo.ddata.write-ack", 1)
    );
    assert_eq!(
        (ReplicatorWriteNack::MANIFEST, ReplicatorWriteNack::VERSION),
        ("kairo.ddata.write-nack", 1)
    );
    assert_eq!(
        (ReplicatorRead::MANIFEST, ReplicatorRead::VERSION),
        ("kairo.ddata.read", 1)
    );
    assert_eq!(
        (ReplicatorReadResult::MANIFEST, ReplicatorReadResult::VERSION),
        ("kairo.ddata.read-result", 2)
    );
    assert_eq!(
        (ReplicatorGossipStatus::MANIFEST, ReplicatorGossipStatus::VERSION),
        ("kairo.ddata.gossip-status", 1)
    );
    assert_eq!(
        (ReplicatorGossip::MANIFEST, ReplicatorGossip::VERSION),
        ("kairo.ddata.gossip", 1)
    );
    assert_eq!(
        (ReplicatorDeltaPropagation::MANIFEST, ReplicatorDeltaPropagation::VERSION),
        ("kairo.ddata.delta-propagation", 1)
    );
    assert_eq!(
        (ReplicatorDeltaAck::MANIFEST, ReplicatorDeltaAck::VERSION),
        ("kairo.ddata.delta-ack", 1)
    );
    assert_eq!(
        (ReplicatorDeltaNack::MANIFEST, ReplicatorDeltaNack::VERSION),
        ("kairo.ddata.delta-nack", 1)
    );
    assert!(!ReplicatorUpdate::MANIFEST.contains("ReplicatorUpdate"));
    assert!(!ReplicatorWrite::MANIFEST.contains("ReplicatorWrite"));
    assert!(!ReplicatorDeltaPropagation::MANIFEST.contains("ReplicatorDeltaPropagation"));
}

#[test]
fn request_and_reply_manifests_are_told_apart() {
    for manifest in [
        "kairo.ddata.delta-propagation",
        "kairo.ddata.write",
        "kairo.ddata.read",
        "kairo.ddata.gossip-status",
        "kairo.ddata.gossip",
    ] {
        assert!(is_replicator_request_manifest(manifest));
        assert!(!is_replicator_reply_manifest(manifest));
    }
    for manifest in [
        "kairo.ddata.delta-ack",
        "kairo.ddata.delta-nack",
        "kairo.ddata.write-ack",
        "kairo.ddata.write-nack",
        "kairo.ddata.read-result",
    ] {
        assert!(is_replicator_reply_manifest(manifest));
        assert!(!is_replicator_request_manifest(manifest));
    }
    for manifest in ["kairo.ddata.replicator-get", "", "kairo.ddata.writ", "kairo.ddata.write2"] {
        assert!(!is_replicator_request_manifest(manifest));
        assert!(!is_replicator_reply_manifest(manifest));
    }
}

#[test]
fn inbound_dispatches_request_manifests_to_request_receiver() {
    assert_eq!(route_inbound(false, ReplicatorDeltaPropagation::MANIFEST), Ok(InboundLane::Request));
    for manifest in [ReplicatorWrite::MANIFEST, ReplicatorRead::MANIFEST, ReplicatorGossipStatus::MANIFEST, ReplicatorGossip::MANIFEST] {
        assert_eq!(route_inbound(false, manifest), Ok(InboundLane::Request));
    }
}

#[test]
fn inbound_dispatches_reply_manifests_to_reply_receiver() {
    assert_eq!(route_inbound(false, ReplicatorReadResult::MANIFEST), Ok(InboundLane::Reply));
    for manifest in [ReplicatorDeltaAck::MANIFEST, ReplicatorDeltaNack::MANIFEST, ReplicatorWriteAck::MANIFEST, ReplicatorWriteNack::MANIFEST] {
        assert_eq!(route_inbound(false, manifest), Ok(InboundLane::Reply));
    }
}

#[test]
fn inbound_rejects_unknown_manifest() {
    assert_eq!(
        route_inbound(false, "kairo.ddata.unknown"),
        Err(InboundRefusal::UnsupportedManifest { manifest: "kairo.ddata.unknown".to_string() })
    );
}

#[test]
fn inbound_rejects_replicator_messages_on_control_lane() {
    assert!(matches!(
        route_inbound(true, ReplicatorRead::MANIFEST),
        Err(InboundRefusal::UnexpectedControlLane { .. })
    ));
}
