//! Stable distributed-data wire records.
//!
//! These records are the codec boundary used by remoting and system actors;
//! they are not the primary typed replicator API.
use vstd::prelude::*;

use crate::order::{compare_str, KeyOrder};
use crate::replica::{copy_ids, ids_view, ReplicaId};
use crate::sorted_map::Duplicate;
use crate::text::{decimal, decimal_text};

verus! {

/// Low-level correlated request to read a replicated key.
#[derive(Debug, Clone, PartialEq, Eq)]
pub struct ReplicatorGet {
    /// Stable typed-namespace key string.
    pub key: String,
    /// Caller-owned correlation identifier echoed by the integration layer.
    pub request_id: u64,
}

impl ReplicatorGet {
    /// Stable wire manifest.
    pub const MANIFEST: &'static str = "kairo.ddata.replicator-get";
    /// Wire schema version.
    pub const VERSION: u16 = 1;
}

/// Low-level correlated request to update a replicated key.
#[derive(Debug, Clone, PartialEq, Eq)]
pub struct ReplicatorUpdate {
    /// Stable typed-namespace key string.
    pub key: String,
    /// Caller-owned correlation identifier echoed by the integration layer.
    pub request_id: u64,
}

impl ReplicatorUpdate {
    /// Stable wire manifest.
    pub const MANIFEST: &'static str = "kairo.ddata.replicator-update";
    /// Wire schema version.
    pub const VERSION: u16 = 1;
}

/// Low-level request to subscribe an actor reference to a replicated key.
#[derive(Debug, Clone, PartialEq, Eq)]
pub struct ReplicatorSubscribe {
    /// Stable typed-namespace key string.
    pub key: String,
    /// Path of the serialized subscriber actor reference.
    pub subscriber: String,
}

impl ReplicatorSubscribe {
    /// Stable wire manifest.
    pub const MANIFEST: &'static str = "kairo.ddata.replicator-subscribe";
    /// Wire schema version.
    pub const VERSION: u16 = 1;
}

/// Low-level notification that a replicated key has changed.
#[derive(Debug, Clone, PartialEq, Eq)]
pub struct ReplicatorChanged {
    /// Stable typed-namespace key string.
    pub key: String,
}

impl ReplicatorChanged {
    /// Stable wire manifest.
    pub const MANIFEST: &'static str = "kairo.ddata.replicator-changed";
    /// Wire schema version.
    pub const VERSION: u16 = 1;
}

/// Direct full-state write sent to a peer replicator.
#[derive(Debug, Clone, PartialEq, Eq)]
pub struct ReplicatorWrite {
    /// Stable typed-namespace key string.
    pub key: String,
    /// Optional source replica used for request/reply routing and diagnostics.
    pub from: Option<ReplicaId>,
    /// Serialized CRDT value and removed-replica pruning metadata.
    pub envelope: ReplicatorDataEnvelope,
}

impl ReplicatorWrite {
    /// Stable wire manifest.
    pub const MANIFEST: &'static str = "kairo.ddata.write";
    /// Wire schema version.
    pub const VERSION: u16 = 2;
}

/// Successful acknowledgement of a direct full-state write.
#[derive(Debug, Clone, Copy, PartialEq, Eq)]
pub struct ReplicatorWriteAck;

impl ReplicatorWriteAck {
    /// Stable wire manifest.
    pub const MANIFEST: &'static str = "kairo.ddata.write-ack";
    /// Wire schema version.
    pub const VERSION: u16 = 1;
}

/// Rejection of a direct full-state write.
#[derive(Debug, Clone, Copy, PartialEq, Eq)]
pub struct ReplicatorWriteNack;

impl ReplicatorWriteNack {
    /// Stable wire manifest.
    pub const MANIFEST: &'static str = "kairo.ddata.write-nack";
    /// Wire schema version.
    pub const VERSION: u16 = 1;
}

/// Direct request for a peer's current full-state envelope.
#[derive(Debug, Clone, PartialEq, Eq)]
pub struct ReplicatorRead {
    /// Stable typed-namespace key string.
    pub key: String,
    /// Optional source replica used for request/reply routing and diagnostics.
    pub from: Option<ReplicaId>,
}

impl ReplicatorRead {
    /// Stable wire manifest.
    pub const MANIFEST: &'static str = "kairo.ddata.read";
    /// Wire schema version.
    pub const VERSION: u16 = 1;
}

/// Direct read reply containing a current envelope or successful absence.
#[derive(Debug, Clone, PartialEq, Eq)]
pub struct ReplicatorReadResult {
    /// Current full-state envelope, or `None` when the key is absent.
    pub envelope: Option<ReplicatorDataEnvelope>,
}

impl ReplicatorReadResult {
    /// Stable wire manifest.
    pub const MANIFEST: &'static str = "kairo.ddata.read-result";
    /// Wire schema version.
    pub const VERSION: u16 = 2;
}

/// Digest summary for one key in a gossip status chunk.
#[derive(Debug, Clone, PartialEq, Eq)]
pub struct ReplicatorGossipDigest {
    /// Stable typed-namespace key string.
    pub key: String,
    /// Stable hash of the serialized data envelope.
    pub digest: u64,
    /// Last-use wall-clock timestamp carried for expiry coordination.
    pub used_timestamp_millis: u64,
}

/// Chunked digest status used to negotiate full-state gossip differences.
#[derive(Debug, Clone, PartialEq, Eq)]
pub struct ReplicatorGossipStatus {
    /// Digest entries assigned to this chunk.
    pub entries: Vec<ReplicatorGossipDigest>,
    /// Zero-based chunk index.
    pub chunk: u32,
    /// Total number of chunks in the status cycle.
    pub total_chunks: u32,
    /// Optional destination ActorSystem incarnation UID.
    pub to_system_uid: Option<u64>,
    /// Optional source ActorSystem incarnation UID.
    pub from_system_uid: Option<u64>,
}

impl ReplicatorGossipStatus {
    /// Stable wire manifest.
    pub const MANIFEST: &'static str = "kairo.ddata.gossip-status";
    /// Wire schema version.
    pub const VERSION: u16 = 1;
}

/// One full-state key entry carried by gossip.
#[derive(Debug, Clone, PartialEq, Eq)]
pub struct ReplicatorGossipEntry {
    /// Stable typed-namespace key string.
    pub key: String,
    /// Serialized CRDT value and removed-replica pruning metadata.
    pub envelope: ReplicatorDataEnvelope,
    /// Last-use wall-clock timestamp carried for expiry coordination.
    pub used_timestamp_millis: u64,
}

/// Full-state gossip payload exchanged after status comparison.
#[derive(Debug, Clone, PartialEq, Eq)]
pub struct ReplicatorGossip {
    /// Full-state entries selected for the peer.
    pub entries: Vec<ReplicatorGossipEntry>,
    /// Whether the receiver should return its corresponding differing entries.
    pub send_back: bool,
    /// Optional destination ActorSystem incarnation UID.
    pub to_system_uid: Option<u64>,
    /// Optional source ActorSystem incarnation UID.
    pub from_system_uid: Option<u64>,
}

impl ReplicatorGossip {
    /// Stable wire manifest.
    pub const MANIFEST: &'static str = "kairo.ddata.gossip";
    /// Wire schema version.
    pub const VERSION: u16 = 1;
}

/// Serialized CRDT value and its removed-replica pruning state.
#[derive(Debug, Clone, PartialEq, Eq)]
pub struct ReplicatorDataEnvelope {
    /// Stable CRDT codec manifest.
    pub crdt_manifest: String,
    /// CRDT codec schema version.
    pub crdt_version: u16,
    /// Codec-owned CRDT payload bytes.
    pub payload: Vec<u8>,
    /// Pruning entries associated with the value.
    pub pruning: Vec<ReplicatorPruningEntry>,
}

impl ReplicatorDataEnvelope {
    /// Replaces the envelope's pruning entries.
    pub fn with_pruning(self, pruning: Vec<ReplicatorPruningEntry>) -> (r: Self)
        ensures
            r.crdt_manifest == self.crdt_manifest,
            r.crdt_version == self.crdt_version,
            r.payload == self.payload,
            r.pruning == pruning,
    {
        let mut r = self;
        r.pruning = pruning;
        r
    }
}

/// Wire pruning state for one removed replica.
#[derive(Debug, Clone, PartialEq, Eq)]
pub struct ReplicatorPruningEntry {
    /// Replica whose CRDT contribution is being or has been pruned.
    pub removed: ReplicaId,
    /// Current pruning lifecycle state.
    pub state: ReplicatorPruningState,
}

/// Stable tagged representation of removed-replica pruning state.
#[derive(Debug, Clone, PartialEq, Eq)]
pub enum ReplicatorPruningState {
    /// Pruning is owned and waiting for dissemination acknowledgements.
    Initialized {
        /// Replica responsible for performing the prune.
        owner: ReplicaId,
        /// Replicas that have observed initialization, in ascending order.
        seen: Vec<ReplicaId>,
    },
    /// Pruning completed and suppresses late removed-replica data until expiry.
    Performed {
        /// Inclusive obsolete deadline in Unix-epoch milliseconds.
        obsolete_at_millis: u64,
    },
}

/// Abstract wire pruning state.
pub enum WirePruningState {
    Initialized(Seq<char>, Seq<Seq<char>>),
    Performed(u64),
}

impl View for ReplicatorPruningState {
    type V = WirePruningState;

    open spec fn view(&self) -> WirePruningState {
        match self {
            ReplicatorPruningState::Initialized { owner, seen } => WirePruningState::Initialized(
                owner@,
                ids_view(seen@),
            ),
            ReplicatorPruningState::Performed { obsolete_at_millis } => WirePruningState::Performed(
                *obsolete_at_millis,
            ),
        }
    }
}

impl View for ReplicatorPruningEntry {
    type V = (Seq<char>, WirePruningState);

    open spec fn view(&self) -> (Seq<char>, WirePruningState) {
        (self.removed@, self.state@)
    }
}

/// Abstract values of a list of wire pruning entries.
pub open spec fn wire_entries_view(s: Seq<ReplicatorPruningEntry>) -> Seq<(Seq<char>, WirePruningState)> {
    s.map_values(|e: ReplicatorPruningEntry| e@)
}

/// Abstract encoded envelope: manifest, version, payload and pruning entries.
pub struct EnvelopeView {
    pub manifest: Seq<char>,
    pub version: u16,
    pub payload: Seq<u8>,
    pub pruning: Seq<(Seq<char>, WirePruningState)>,
}

impl View for ReplicatorDataEnvelope {
    type V = EnvelopeView;

    open spec fn view(&self) -> EnvelopeView {
        EnvelopeView {
            manifest: self.crdt_manifest@,
            version: self.crdt_version,
            payload: self.payload@,
            pruning: wire_entries_view(self.pruning@),
        }
    }
}

impl Duplicate for ReplicatorDataEnvelope {
    /// A copy of the envelope.
    fn duplicate(&self) -> (r: Self) {
        let mut payload: Vec<u8> = Vec::new();
        let n = self.payload.len();
        let mut i: usize = 0;
        while i < n
            invariant
                n == self.payload@.len(),
                i <= n,
                payload@ == self.payload@.take(i as int),
            decreases n - i,
        {
            payload.push(self.payload[i]);
            proof {
                assert(self.payload@.take(i as int + 1) =~= self.payload@.take(i as int).push(
                    self.payload@[i as int],
                ));
            }
            i = i + 1;
        }
        let mut pruning: Vec<ReplicatorPruningEntry> = Vec::new();
        let m = self.pruning.len();
        let mut j: usize = 0;
        while j < m
            invariant
                m == self.pruning@.len(),
                j <= m,
                wire_entries_view(pruning@) == wire_entries_view(self.pruning@).take(j as int),
            decreases m - j,
        {
            let e = self.pruning[j].duplicate();
            let ghost prev = pruning@;
            pruning.push(e);
            proof {
                assert(wire_entries_view(pruning@) =~= wire_entries_view(prev).push(e@));
                assert(wire_entries_view(self.pruning@).take(j as int + 1) =~= wire_entries_view(
                    self.pruning@,
                ).take(j as int).push(self.pruning@[j as int]@));
            }
            j = j + 1;
        }
        proof {
            assert(self.payload@.take(n as int) =~= self.payload@);
            assert(wire_entries_view(self.pruning@).take(m as int) =~= wire_entries_view(self.pruning@));
        }
        ReplicatorDataEnvelope {
            crdt_manifest: self.crdt_manifest.clone(),
            crdt_version: self.crdt_version,
            payload,
            pruning,
        }
    }
}

impl ReplicatorPruningEntry {
    /// A copy of the entry.
    pub fn duplicate(&self) -> (r: Self)
        ensures
            r@ == self@,
    {
        ReplicatorPruningEntry { removed: self.removed.duplicate(), state: self.state.duplicate() }
    }
}

impl ReplicatorPruningState {
    /// A copy of the state.
    pub fn duplicate(&self) -> (r: Self)
        ensures
            r@ == self@,
    {
        match self {
            ReplicatorPruningState::Initialized { owner, seen } => ReplicatorPruningState::Initialized {
                owner: owner.duplicate(),
                seen: copy_ids(seen),
            },
            ReplicatorPruningState::Performed { obsolete_at_millis } => ReplicatorPruningState::Performed {
                obsolete_at_millis: *obsolete_at_millis,
            },
        }
    }
}

/// Successful acknowledgement of a causally acceptable delta propagation.
#[derive(Debug, Clone, Copy, PartialEq, Eq)]
pub struct ReplicatorDeltaAck;

impl ReplicatorDeltaAck {
    /// Stable wire manifest.
    pub const MANIFEST: &'static str = "kairo.ddata.delta-ack";
    /// Wire schema version.
    pub const VERSION: u16 = 1;
}

/// Rejection requesting convergence through a later full-state path.
#[derive(Debug, Clone, Copy, PartialEq, Eq)]
pub struct ReplicatorDeltaNack;

impl ReplicatorDeltaNack {
    /// Stable wire manifest.
    pub const MANIFEST: &'static str = "kairo.ddata.delta-nack";
    /// Wire schema version.
    pub const VERSION: u16 = 1;
}

/// Versioned delta ranges sent from one replica to a peer.
#[derive(Debug, Clone, PartialEq, Eq)]
pub struct ReplicatorDeltaPropagation {
    /// Source replica whose per-key versions the ranges belong to.
    pub from: ReplicaId,
    /// Whether the receiver must reply with delta acknowledgement or rejection.
    pub reply: bool,
    /// Per-key delta ranges in deterministic key order when canonically encoded.
    pub deltas: Vec<ReplicatorDelta>,
}

impl ReplicatorDeltaPropagation {
    /// Stable wire manifest.
    pub const MANIFEST: &'static str = "kairo.ddata.delta-propagation";
    /// Wire schema version.
    pub const VERSION: u16 = 1;
}

/// Serialized CRDT delta and its inclusive per-source version range.
#[derive(Debug, Clone, PartialEq, Eq)]
pub struct ReplicatorDelta {
    /// Stable typed-namespace key string.
    pub key: String,
    /// Stable CRDT delta codec manifest.
    pub crdt_manifest: String,
    /// CRDT delta codec schema version.
    pub crdt_version: u16,
    /// Codec-owned delta payload bytes.
    pub payload: Vec<u8>,
    /// First source version represented by the payload.
    pub from_version: u64,
    /// Last source version represented by the payload.
    pub to_version: u64,
    /// Removed-replica pruning entries of the key at publication.
    pub pruning: Vec<ReplicatorPruningEntry>,
}

/// Whether `manifest` is one of the five replicator request manifests.
pub open spec fn request_manifest(manifest: Seq<char>) -> bool {
    ||| manifest == ReplicatorDeltaPropagation::MANIFEST@
    ||| manifest == ReplicatorWrite::MANIFEST@
    ||| manifest == ReplicatorRead::MANIFEST@
    ||| manifest == ReplicatorGossipStatus::MANIFEST@
    ||| manifest == ReplicatorGossip::MANIFEST@
}

/// Whether `manifest` is one of the five replicator reply manifests.
pub open spec fn reply_manifest(manifest: Seq<char>) -> bool {
    ||| manifest == ReplicatorDeltaAck::MANIFEST@
    ||| manifest == ReplicatorDeltaNack::MANIFEST@
    ||| manifest == ReplicatorWriteAck::MANIFEST@
    ||| manifest == ReplicatorWriteNack::MANIFEST@
    ||| manifest == ReplicatorReadResult::MANIFEST@
}

fn same_str(a: &str, b: &str) -> (r: bool)
    ensures
        r == (a@ == b@),
{
    match compare_str(a, b) {
        KeyOrder::Equal => true,
        _ => false,
    }
}

/// Whether `manifest` is one of the five stable replicator request manifests.
pub fn is_replicator_request_manifest(manifest: &str) -> (r: bool)
    ensures
        r == request_manifest(manifest@),
{
    same_str(manifest, ReplicatorDeltaPropagation::MANIFEST) || same_str(manifest, ReplicatorWrite::MANIFEST)
        || same_str(manifest, ReplicatorRead::MANIFEST) || same_str(
        manifest,
        ReplicatorGossipStatus::MANIFEST,
    ) || same_str(manifest, ReplicatorGossip::MANIFEST)
}

/// Whether `manifest` is one of the five stable replicator reply manifests.
pub fn is_replicator_reply_manifest(manifest: &str) -> (r: bool)
    ensures
        r == reply_manifest(manifest@),
{
    same_str(manifest, ReplicatorDeltaAck::MANIFEST) || same_str(manifest, ReplicatorDeltaNack::MANIFEST)
        || same_str(manifest, ReplicatorWriteAck::MANIFEST) || same_str(
        manifest,
        ReplicatorWriteNack::MANIFEST,
    ) || same_str(manifest, ReplicatorReadResult::MANIFEST)
}

/// Which receiver an inbound replicator envelope is handed to.
#[derive(Debug, Clone, Copy, PartialEq, Eq, Structural)]
pub enum InboundLane {
    /// The request receiver: propagation, write, read and gossip messages.
    Request,
    /// The reply receiver: acknowledgements, rejections and read results.
    Reply,
}

/// Why an inbound replicator envelope is refused before any receiver sees it.
#[derive(Debug, Clone, PartialEq, Eq)]
pub enum InboundRefusal {
    /// Replicator messages never travel on the control lane.
    UnexpectedControlLane { manifest: String },
    /// The manifest names no replicator request or reply.
    UnsupportedManifest { manifest: String },
}

/// Routes an inbound envelope by its lane and manifest: the control lane is
/// refused, request manifests go to the request receiver, reply manifests to
/// the reply receiver, and any other manifest is refused.
pub fn route_inbound(control_lane: bool, manifest: &str) -> (r: Result<InboundLane, InboundRefusal>)
    ensures
        control_lane ==> (r matches Err(InboundRefusal::UnexpectedControlLane { manifest: m })
            && m@ == manifest@),
        !control_lane && request_manifest(manifest@) ==> r == Ok::<InboundLane, InboundRefusal>(
            InboundLane::Request,
        ),
        !control_lane && !request_manifest(manifest@) && reply_manifest(manifest@) ==> r == Ok::<
            InboundLane,
            InboundRefusal,
        >(InboundLane::Reply),
        !control_lane && !request_manifest(manifest@) && !reply_manifest(manifest@) ==> (
        r matches Err(InboundRefusal::UnsupportedManifest { manifest: m }) && m@ == manifest@),
{
    if control_lane {
        Err(InboundRefusal::UnexpectedControlLane { manifest: manifest.to_string() })
    } else if is_replicator_request_manifest(manifest) {
        Ok(InboundLane::Request)
    } else if is_replicator_reply_manifest(manifest) {
        Ok(InboundLane::Reply)
    } else {
        Err(InboundRefusal::UnsupportedManifest { manifest: manifest.to_string() })
    }
}

/// Envelope wire version from which pruning entries are carried.
pub const DATA_ENVELOPE_PRUNING_WIRE_VERSION: u16 = 2;

/// Schema version that the CRDT payload codecs write and read.
pub const CRDT_CODEC_VERSION: u16 = 1;

/// Whether an envelope written with wire `version` carries pruning entries.
pub fn carries_pruning(version: u16) -> (r: bool)
    ensures
        r == (version >= DATA_ENVELOPE_PRUNING_WIRE_VERSION),
{
    version >= DATA_ENVELOPE_PRUNING_WIRE_VERSION
}

/// Whether schema `version` lies in `min..=max`.
pub fn version_accepted(version: u16, min: u16, max: u16) -> (r: bool)
    ensures
        r == (min <= version && version <= max),
{
    min <= version && version <= max
}

/// Why a record of `manifest` written with schema `version` is refused.
pub open spec fn unsupported_version_reason(manifest: Seq<char>, version: u16) -> Seq<char> {
    "unsupported "@ + manifest + " version "@ + decimal(version as nat)
}

/// The refusal text for a record of `manifest` with an unsupported schema
/// `version`.
pub fn unsupported_version_message(manifest: &str, version: u16) -> (r: String)
    ensures
        r@ == unsupported_version_reason(manifest@, version),
{
    let mut r = "unsupported ".to_owned();
    r.append(manifest);
    r.append(" version ");
    r.append(decimal_text(version as u64).as_str());
    r
}

} // verus!
