//! Results of serving direct peer reads and writes.
use vstd::prelude::*;

use crate::pruning::PTable;
use crate::data::ReplicatedData;
use crate::envelope::{DataEnvelope, EnvelopeStore};
use crate::key::ReplicatorKey;
use crate::lww_register::wall_clock_millis;
use crate::protocol::{
    ReplicatorRead, ReplicatorReadResult, ReplicatorWrite, ReplicatorWriteAck, ReplicatorWriteNack,
};
use crate::replica::{copy_opt_id, opt_id_view, ReplicaId};
use crate::sorted_map::Duplicate;
use crate::wire_codec::{
    decode_data_envelope, decode_error_message, decoded_by, encode_read_result, encoded_by,
    envelope_refusal, CrdtDataCodec, WireDecodeError, WireErrorView,
};

verus! {

/// Outcome of applying one direct peer write request.
#[derive(Debug, Clone, PartialEq, Eq)]
pub enum DirectWriteResult {
    /// The wire envelope decoded and merged successfully.
    Ack {
        /// Logical key carried by the request.
        key: ReplicatorKey,
        /// Optional request source used to correlate the reply.
        from: Option<ReplicaId>,
        /// Whether the merge changed local replicated state or pruning metadata.
        changed: bool,
        /// Stable acknowledgement message for the remote reply boundary.
        message: ReplicatorWriteAck,
    },
    /// The wire envelope could not be decoded and local state was unchanged.
    Nack {
        /// Logical key carried by the request.
        key: ReplicatorKey,
        /// Optional request source used to correlate the reply.
        from: Option<ReplicaId>,
        /// Human-readable decoding failure.
        reason: String,
        /// Stable negative-acknowledgement message for the remote reply boundary.
        message: ReplicatorWriteNack,
    },
}

impl DirectWriteResult {
    /// The key carried by the request.
    pub open spec fn key_spec(&self) -> Seq<char> {
        match self {
            DirectWriteResult::Ack { key, .. } => key@,
            DirectWriteResult::Nack { key, .. } => key@,
        }
    }

    /// The request source, if any.
    pub open spec fn from_spec(&self) -> Option<Seq<char>> {
        let from = match self {
            DirectWriteResult::Ack { from, .. } => *from,
            DirectWriteResult::Nack { from, .. } => *from,
        };
        match from {
            Some(r) => Some(r@),
            None => None,
        }
    }

    /// The logical key carried by the request.
    pub fn key(&self) -> (r: &ReplicatorKey)
        ensures
            r@ == self.key_spec(),
    {
        match self {
            DirectWriteResult::Ack { key, .. } => key,
            DirectWriteResult::Nack { key, .. } => key,
        }
    }

    /// The optional source replica used to correlate the reply.
    pub fn from(&self) -> (r: Option<&ReplicaId>)
        ensures
            match r {
                Some(id) => self.from_spec() == Some(id@),
                None => self.from_spec() is None,
            },
    {
        match self {
            DirectWriteResult::Ack { from, .. } => from.as_ref(),
            DirectWriteResult::Nack { from, .. } => from.as_ref(),
        }
    }

    /// Whether the write decoded and merged successfully.
    pub fn is_ack(&self) -> (r: bool)
        ensures
            r == (self is Ack),
    {
        match self {
            DirectWriteResult::Ack { .. } => true,
            DirectWriteResult::Nack { .. } => false,
        }
    }
}

/// Encoded result of serving one direct peer read request.
#[derive(Debug, Clone, PartialEq, Eq)]
pub struct DirectReadResult {
    key: ReplicatorKey,
    from: Option<ReplicaId>,
    message: ReplicatorReadResult,
}

impl DirectReadResult {
    /// The requested key.
    pub closed spec fn key_spec(&self) -> Seq<char> {
        self.key@
    }

    /// The request source, if any.
    pub closed spec fn from_spec(&self) -> Option<ReplicaId> {
        self.from
    }

    /// The wire read-result message.
    pub closed spec fn message_spec(&self) -> ReplicatorReadResult {
        self.message
    }

    /// Creates a read result for `key` and its optional request source.
    pub fn new(key: ReplicatorKey, from: Option<ReplicaId>, message: ReplicatorReadResult) -> (r: Self)
        ensures
            r.key_spec() == key@,
            r.from_spec() == from,
            r.message_spec() == message,
    {
        DirectReadResult { key, from, message }
    }

    /// The requested logical key.
    pub fn key(&self) -> (r: &ReplicatorKey)
        ensures
            r@ == self.key_spec(),
    {
        &self.key
    }

    /// The optional source replica used to correlate the reply.
    pub fn from(&self) -> (r: Option<&ReplicaId>)
        ensures
            match r {
                Some(id) => self.from_spec() == Some(*id),
                None => self.from_spec() is None,
            },
    {
        self.from.as_ref()
    }

    /// The stable wire read-result message.
    pub fn message(&self) -> (r: &ReplicatorReadResult)
        ensures
            *r == self.message_spec(),
    {
        &self.message
    }

    /// Consumes this result and returns its stable wire message.
    pub fn into_message(self) -> (r: ReplicatorReadResult)
        ensures
            r == self.message_spec(),
    {
        self.message
    }
}

/// Failure to hand an envelope to a replica's remote association.
#[derive(Debug, Clone, PartialEq, Eq)]
pub enum ReplicatorRemoteAssociationError {
    /// No explicitly registered transport route exists for the target replica.
    MissingRoute {
        /// Logical replica whose route was absent.
        target: ReplicaId,
    },
    /// The selected transport route rejected the envelope.
    Send {
        /// Logical replica whose send failed.
        target: ReplicaId,
        /// Underlying remoting diagnostic.
        reason: String,
    },
}

impl ReplicatorRemoteAssociationError {
    /// The replica the failed send was addressed to.
    pub fn target(&self) -> (r: &ReplicaId)
        ensures
            r@ == match self {
                ReplicatorRemoteAssociationError::MissingRoute { target } => target@,
                ReplicatorRemoteAssociationError::Send { target, .. } => target@,
            },
    {
        match self {
            ReplicatorRemoteAssociationError::MissingRoute { target } => target,
            ReplicatorRemoteAssociationError::Send { target, .. } => target,
        }
    }
}

/// Serves a direct read: `envelope` is what the local state holds for the
/// requested key; it is encoded with `codec`, absence included, and the
/// request's key and source are kept for correlation. An encoding failure is
/// passed on.
pub fn serve_read<D: ReplicatedData, C: CrdtDataCodec<D>>(
    envelope: Option<&DataEnvelope<D>>,
    read: &ReplicatorRead,
    codec: &C,
) -> (r: Result<DirectReadResult, String>)
    ensures
        r matches Ok(res) ==> {
            &&& res.key_spec() == read.key@
            &&& opt_id_view(res.from_spec()) == opt_id_view(read.from)
            &&& (res.message_spec().envelope is Some <==> envelope is Some)
        },
        envelope is None ==> (r matches Ok(res) && res.message_spec() == (ReplicatorReadResult {
            envelope: None,
        })),
        match envelope {
            Some(env) => match r {
                Ok(res) => encoded_by::<D, C>(*codec, env@, res.message_spec().envelope->Some_0),
                Err(e) => codec.refuses_data(env@.0, e@),
            },
            None => true,
        },
{
    let key = ReplicatorKey::new(read.key.as_str());
    match encode_read_result(envelope, codec) {
        Ok(message) => Ok(DirectReadResult::new(key, copy_opt_id(&read.from), message)),
        Err(e) => Err(e),
    }
}

/// The reply to a direct write given what decoding its envelope produced:
/// a failure is refused with its message; a decoded envelope is merged into
/// `store` with pruning applied at `now_millis`, and acknowledged with
/// whether the store changed.
pub fn apply_decoded_write<D: ReplicatedData, S: EnvelopeStore<D>>(
    store: &mut S,
    write: &ReplicatorWrite,
    decoded: Result<DataEnvelope<D>, WireDecodeError>,
    now_millis: u64,
) -> (r: DirectWriteResult)
    ensures
        r.key_spec() == write.key@,
        r.from_spec() == opt_id_view(write.from),
        match decoded {
            Err(e) => {
                &&& r matches DirectWriteResult::Nack { reason, .. } && reason@ == decode_error_message(e@)
                &&& *final(store) == *old(store)
            },
            Ok(env) => r matches DirectWriteResult::Ack { changed, .. } && S::full_merged(
                *old(store),
                write.key@,
                env@,
                Some(now_millis),
                *final(store),
                changed,
            ),
        },
{
    let key = ReplicatorKey::new(write.key.as_str());
    let from = copy_opt_id(&write.from);
    match decoded {
        Ok(envelope) => {
            let changed = store.write_full_pruned(key.duplicate(), envelope, now_millis);
            DirectWriteResult::Ack { key, from, changed, message: ReplicatorWriteAck }
        },
        Err(error) => DirectWriteResult::Nack {
            key,
            from,
            reason: error.message(),
            message: ReplicatorWriteNack,
        },
    }
}

/// Applies a direct peer write: its envelope is decoded with `codec` and,
/// when it decodes, merged into `store` at the current wall-clock time and
/// acknowledged; otherwise the write is refused with the decoding failure.
pub fn apply_write<D: ReplicatedData, S: EnvelopeStore<D>, C: CrdtDataCodec<D>>(
    store: &mut S,
    write: &ReplicatorWrite,
    codec: &C,
) -> (r: DirectWriteResult)
    ensures
        r.key_spec() == write.key@,
        r.from_spec() == opt_id_view(write.from),
        match r {
            DirectWriteResult::Nack { reason, .. } => {
                &&& exists|e: WireErrorView|
                    #[trigger] envelope_refusal::<D, C>(*codec, write.envelope, e) && reason@
                        == decode_error_message(e)
                &&& *final(store) == *old(store)
            },
            DirectWriteResult::Ack { changed, .. } => exists|env: (D::V, PTable), now_millis: u64|
                #[trigger] S::full_merged(*old(store), write.key@, env, Some(now_millis), *final(store), changed)
                    && decoded_by::<D, C>(*codec, write.envelope, env),
        },
{
    let decoded = decode_data_envelope(&write.envelope, codec);
    let now_millis = wall_clock_millis();
    let ghost d = decoded;
    let r = apply_decoded_write(store, write, decoded, now_millis);
    proof {
        match d {
            Ok(env) => {
                assert(decoded_by::<D, C>(*codec, write.envelope, env@));
            },
            Err(e) => {
                assert(envelope_refusal::<D, C>(*codec, write.envelope, e@));
            },
        }
    }
    r
}

} // verus!
