//! Conflict-free replicated data types and the replicator logic around them.
use vstd::prelude::*;

pub mod envelope;
pub mod errors;
pub mod key;
pub mod order;
pub mod replica;
pub mod sorted_map;
pub mod sorted_set;
pub mod version_vector;
pub mod wire_codec;
pub mod aggregation;
pub mod aggregation_actor;
pub mod aggregation_operation;
pub mod aggregation_session;
pub mod aggregation_wire;
pub mod aggregation_transport;
pub mod cluster_connector;
pub mod cluster_routes;
pub mod consistency;
pub mod data;
pub mod delta;
pub mod delta_loop;
pub mod delta_receive;
pub mod delta_transport;
pub mod delta_wire;
pub mod direct;
pub mod gcounter;
pub mod gossip;
pub mod gossip_apply;
pub mod gossip_transport;
pub mod gset;
pub mod lww_register;
pub mod ormap;
pub mod orset;
pub mod pncounter;
pub mod protocol;
pub mod pruning;
pub mod settings;
pub mod text;

pub use aggregation::{
    calculate_majority, AggregationError, ReadAggregationOutcome, ReadAggregationPlan,
    ReadAggregatorState, ReplicaSelection, WriteAggregationOutcome, WriteAggregationPlan,
    WriteAggregatorState,
};
pub use consistency::{ReadConsistency, WriteConsistency};
pub use delta::{DeltaPropagation, DeltaPropagationEntry, DeltaPropagationLog};
pub use envelope::DataEnvelope;
pub use errors::{ConsistencyError, CrdtError};
pub use gcounter::GCounter;
pub use gset::GSet;
pub use key::ReplicatorKey;
pub use lww_register::{default_lww_clock, reverse_lww_clock, LWWRegister};
pub use orset::{ORSet, ORSetDelta, ORSetRemoveDelta};
pub use pncounter::PNCounter;
pub use pruning::{
    PruningInitialized, PruningPerformed, PruningState, PruningTable, RemovedNodePruningFailure,
    RemovedNodePruningTick, RemovedNodePruningTickReport, RemovedNodePruningTracker,
};
pub use replica::ReplicaId;

pub use aggregation_actor::{
    ReadAggregationActor, ReadAggregationActorEvent, ReadAggregationActorMsg, ReplicatorWireReply,
    WriteAggregationActor, WriteAggregationActorEvent, WriteAggregationActorMsg,
};
pub use aggregation_transport::{
    AggregationDeliveryOutcome, AggregationTransportFailure, AggregationTransportOperation,
    AggregationTransportReport,
};
pub use aggregation_wire::{decode_pruning_table, encode_pruning_table, encode_read, PruningDecodeError};
pub use cluster_connector::{
    ReplicatorClusterConnectorAction, ReplicatorClusterConnectorClock, ReplicatorClusterConnectorEvent,
    ReplicatorClusterConnectorSnapshot, ReplicatorClusterConnectorState,
    ReplicatorClusterConnectorTimingSettings, ReplicatorClusterPruningSettings,
    ReplicatorRemoteRouteRegistrationReport, SystemReplicatorClusterConnectorClock,
};
pub use cluster_routes::{
    ClusterEvent, ClusterMember, ClusterSnapshot, MemberEvent, MemberStatus, ReachabilityEvent,
    ReplicatorClusterRouteReport, ReplicatorClusterRouteUpdate, ReplicatorClusterRoutes, UniqueNode,
};
pub use delta_loop::{
    DeltaPropagationLoop, DeltaPropagationSink, DeltaPropagationTickReport, DEFAULT_CLEANUP_EVERY_TICKS,
};
pub use delta_receive::{
    DeltaPropagationReceiveReport, DeltaReceiveFailure, DeltaReceiveReply, DeltaReceiveStatus,
    DeltaReceiveTracker, DeltaTarget,
};
pub use delta_transport::{DeltaDeliveryOutcome, DeltaTransportFailure, DeltaTransportReport};
pub use delta_wire::DecodedReplicatorDelta;
pub use direct::{DirectReadResult, DirectWriteResult, ReplicatorRemoteAssociationError};
pub use gossip::{
    build_gossip_status, digest_envelope, ensure_valid_chunk, key_belongs_to_chunk,
    plan_status_response, GossipStatusResponse, ReplicatorGossipApplyReport, ReplicatorGossipError,
    ReplicatorGossipStatusPlan, REPLICATOR_GOSSIP_NOT_FOUND_DIGEST,
};
pub use gossip_transport::{
    GossipDeliveryOutcome, ReplicatorGossipReceiveReport, ReplicatorGossipStatusReceiveReport,
    ReplicatorGossipTickReport, ReplicatorGossipTickSkipReason, ReplicatorGossipTransportFailure,
    ReplicatorGossipTransportReport,
};
pub use ormap::{ORMap, ORMapDelta};
pub use protocol::{
    is_replicator_reply_manifest, is_replicator_request_manifest, ReplicatorChanged,
    ReplicatorDataEnvelope, ReplicatorDelta, ReplicatorDeltaAck, ReplicatorDeltaNack,
    ReplicatorDeltaPropagation, ReplicatorGet, ReplicatorGossip, ReplicatorGossipDigest,
    ReplicatorGossipEntry, ReplicatorGossipStatus, ReplicatorPruningEntry, ReplicatorPruningState,
    ReplicatorRead, ReplicatorReadResult, ReplicatorSubscribe, ReplicatorUpdate, ReplicatorWrite,
    ReplicatorWriteAck, ReplicatorWriteNack,
};
pub use settings::{DistributedDataBootstrapError, DistributedDataSettings, InvalidSettingsReason};

verus! {
}
