//! Conversion between in-memory CRDT envelopes and delta ranges and their
//! stable wire records.
//!
//! CRDT payload bytes come from a user-supplied [`CrdtDataCodec`]; the
//! manifest check, the pruning tables and the order of the ranges are decided
//! here. Decoding is all-or-error, and its failures are reported in a fixed
//! order: a foreign manifest first, then a pruning table naming a removed
//! replica twice, then the codec's own payload failure.
use vstd::prelude::*;

use crate::aggregation_wire::{
    decode_entries, decode_pruning_table, encode_pruning_table, encoded_pruning, PruningDecodeError,
};
use crate::data::ReplicatedData;
use crate::delta::DeltaPropagation;
use crate::delta_wire::{DecodedDeltaView, DecodedReplicatorDelta};
use crate::envelope::DataEnvelope;
use crate::key::{keys_view, ReplicatorKey};
use crate::order::{compare_str, KeyOrder};
use crate::protocol::{
    wire_entries_view, ReplicatorDataEnvelope, ReplicatorDelta, ReplicatorDeltaPropagation,
    ReplicatorReadResult, ReplicatorWrite,
};
use crate::pruning::{PTable, PruningTable};
use crate::replica::ReplicaId;
use crate::sorted_map::Duplicate;

verus! {

/// Encoded CRDT value: its codec manifest, schema version and payload bytes.
#[derive(Debug, Clone, PartialEq, Eq)]
pub struct SerializedCrdt {
    manifest: String,
    version: u16,
    payload: Vec<u8>,
}

impl SerializedCrdt {
    /// Codec manifest.
    pub closed spec fn manifest_spec(&self) -> Seq<char> {
        self.manifest@
    }

    /// Codec schema version.
    pub closed spec fn version_spec(&self) -> u16 {
        self.version
    }

    /// Payload bytes.
    pub closed spec fn payload_spec(&self) -> Seq<u8> {
        self.payload@
    }

    /// An encoded value with the given manifest, version and payload.
    pub fn new(manifest: &str, version: u16, payload: Vec<u8>) -> (r: Self)
        ensures
            r.manifest_spec() == manifest@,
            r.version_spec() == version,
            r.payload_spec() == payload@,
    {
        SerializedCrdt { manifest: manifest.to_string(), version, payload }
    }

    /// The codec manifest.
    pub fn manifest(&self) -> (r: &str)
        ensures
            r@ == self.manifest_spec(),
    {
        self.manifest.as_str()
    }

    /// The codec schema version.
    pub fn version(&self) -> (r: u16)
        ensures
            r == self.version_spec(),
    {
        self.version
    }

    /// The payload bytes.
    pub fn payload(&self) -> (r: &Vec<u8>)
        ensures
            r@ == self.payload_spec(),
    {
        &self.payload
    }

    /// Consumes the value and returns its payload bytes.
    pub fn into_payload(self) -> (r: Vec<u8>)
        ensures
            r@ == self.payload_spec(),
    {
        self.payload
    }
}

/// Encodes and decodes the payload of one CRDT type.
///
/// Implementations are supplied by users. A codec may name, as spec
/// relations, its manifest, the version it writes, and which payloads
/// encode and decode which values; its methods are held to them, and what
/// this module builds on a codec's answers is stated over them. A codec
/// that names none keeps the defaults, which constrain nothing.
pub trait CrdtDataCodec<D: View> {
    /// Whether `manifest` is this codec's manifest.
    open spec fn names(&self, manifest: Seq<char>) -> bool {
        true
    }

    /// Whether `version` is the schema version this codec writes.
    open spec fn writes_version(&self, version: u16) -> bool {
        true
    }

    /// Whether `payload` is an encoding of `data`.
    open spec fn encodes(&self, data: D::V, payload: Seq<u8>) -> bool {
        true
    }

    /// Whether `reason` is a refusal to encode `data`.
    open spec fn refuses_data(&self, data: D::V, reason: Seq<char>) -> bool {
        true
    }

    /// Whether `data` is what `payload`, written with schema `version`,
    /// decodes to.
    open spec fn decodes(&self, payload: Seq<u8>, version: u16, data: D::V) -> bool {
        true
    }

    /// Whether `reason` is a refusal to decode `payload` written with
    /// schema `version`.
    open spec fn refuses_payload(&self, payload: Seq<u8>, version: u16, reason: Seq<char>) -> bool {
        true
    }

    /// Stable manifest naming the payload format.
    fn manifest(&self) -> (r: &'static str)
        ensures
            self.names(r@),
    ;

    /// Schema version written with new payloads.
    fn version(&self) -> (r: u16)
        ensures
            self.writes_version(r),
    ;

    /// Encodes a value's payload.
    fn encode_payload(&self, data: &D) -> (r: Result<Vec<u8>, String>)
        ensures
            match r {
                Ok(p) => self.encodes(data@, p@),
                Err(e) => self.refuses_data(data@, e@),
            },
    ;

    /// Decodes a payload written with schema `version`.
    fn decode_payload(&self, payload: &Vec<u8>, version: u16) -> (r: Result<D, String>)
        ensures
            match r {
                Ok(d) => self.decodes(payload@, version, d@),
                Err(e) => self.refuses_payload(payload@, version, e@),
            },
    ;
}

/// Whether `s` is what `codec` makes of `data`: tagged with the codec's
/// manifest and version, its payload an encoding of `data`.
pub open spec fn serialized_by<D: View, C: CrdtDataCodec<D>>(
    codec: C,
    data: D::V,
    manifest: Seq<char>,
    version: u16,
    payload: Seq<u8>,
) -> bool {
    &&& codec.names(manifest)
    &&& codec.writes_version(version)
    &&& codec.encodes(data, payload)
}

/// Whether `w` is a wire record of the envelope `env` encoded with `codec`:
/// its value serialized by the codec, its pruning table in ascending
/// removed-replica order.
pub open spec fn encoded_by<D: View, C: CrdtDataCodec<D>>(
    codec: C,
    env: (D::V, PTable),
    w: ReplicatorDataEnvelope,
) -> bool {
    &&& serialized_by::<D, C>(codec, env.0, w.crdt_manifest@, w.crdt_version, w.payload@)
    &&& wire_entries_view(w.pruning@) == encoded_pruning(env.1)
}

/// Whether `env` is what `codec` decodes the record `w` to: the record
/// carries the codec's manifest, its payload decodes to the value, and its
/// pruning entries to the table.
pub open spec fn decoded_by<D: View, C: CrdtDataCodec<D>>(
    codec: C,
    w: ReplicatorDataEnvelope,
    env: (D::V, PTable),
) -> bool {
    &&& codec.names(w.crdt_manifest@)
    &&& codec.decodes(w.payload@, w.crdt_version, env.0)
    &&& Ok::<PTable, Seq<char>>(env.1) == decode_entries(wire_entries_view(w.pruning@))
}

/// Whether `e` is how decoding a record with `manifest`, pruning entries
/// `pruning`, `payload` and `version` with `codec` can fail, in this
/// order: a manifest the codec does not own, then a pruning table naming a
/// removed replica twice, then the codec refusing the payload.
pub open spec fn record_refusal<D: View, C: CrdtDataCodec<D>>(
    codec: C,
    manifest: Seq<char>,
    pruning: Seq<(Seq<char>, crate::protocol::WirePruningState)>,
    payload: Seq<u8>,
    version: u16,
    e: WireErrorView,
) -> bool {
    match e {
        WireErrorView::ManifestMismatch(expected, actual) => {
            &&& actual == manifest
            &&& expected != actual
            &&& codec.names(expected)
        },
        WireErrorView::DuplicatePruningEntry(removed) => {
            &&& codec.names(manifest)
            &&& decode_entries(pruning) == Err::<PTable, Seq<char>>(removed)
        },
        WireErrorView::Payload(reason) => {
            &&& codec.names(manifest)
            &&& decode_entries(pruning) is Ok
            &&& codec.refuses_payload(payload, version, reason)
        },
    }
}

/// Whether `e` is how decoding the envelope record `w` with `codec` can fail.
pub open spec fn envelope_refusal<D: View, C: CrdtDataCodec<D>>(
    codec: C,
    w: ReplicatorDataEnvelope,
    e: WireErrorView,
) -> bool {
    record_refusal::<D, C>(codec, w.crdt_manifest@, wire_entries_view(w.pruning@), w.payload@, w.crdt_version, e)
}

/// Tags an encoded payload with its manifest and version; an encoding
/// failure is passed on.
pub fn serialize_with(manifest: &str, version: u16, payload: Result<Vec<u8>, String>) -> (r: Result<
    SerializedCrdt,
    String,
>)
    ensures
        match payload {
            Ok(p) => r matches Ok(s) && s.manifest_spec() == manifest@ && s.version_spec() == version
                && s.payload_spec() == p@,
            Err(e) => r == Err::<SerializedCrdt, String>(e),
        },
{
    match payload {
        Ok(p) => Ok(SerializedCrdt::new(manifest, version, p)),
        Err(e) => Err(e),
    }
}

/// Encodes `data` with `codec`, tagged with the codec's manifest and version.
pub fn serialize<D: View, C: CrdtDataCodec<D>>(codec: &C, data: &D) -> (r: Result<SerializedCrdt, String>)
    ensures
        match r {
            Ok(s) => serialized_by::<D, C>(*codec, data@, s.manifest_spec(), s.version_spec(), s.payload_spec()),
            Err(e) => codec.refuses_data(data@, e@),
        },
{
    let manifest = codec.manifest();
    let version = codec.version();
    let payload = codec.encode_payload(data);
    serialize_with(manifest, version, payload)
}

/// Why a wire record could not be decoded.
#[derive(Debug, Clone, PartialEq, Eq)]
pub enum WireDecodeError {
    /// The record was written by another codec.
    ManifestMismatch { expected: String, actual: String },
    /// The pruning table names one removed replica twice.
    DuplicatePruningEntry { removed: ReplicaId },
    /// The codec refused the payload.
    Payload(String),
}

/// Abstract decoding failure.
pub enum WireErrorView {
    ManifestMismatch(Seq<char>, Seq<char>),
    DuplicatePruningEntry(Seq<char>),
    Payload(Seq<char>),
}

impl View for WireDecodeError {
    type V = WireErrorView;

    open spec fn view(&self) -> WireErrorView {
        match self {
            WireDecodeError::ManifestMismatch { expected, actual } => WireErrorView::ManifestMismatch(
                expected@,
                actual@,
            ),
            WireDecodeError::DuplicatePruningEntry { removed } => WireErrorView::DuplicatePruningEntry(
                removed@,
            ),
            WireDecodeError::Payload(reason) => WireErrorView::Payload(reason@),
        }
    }
}

/// Human-readable text of a decoding failure.
pub open spec fn decode_error_message(e: WireErrorView) -> Seq<char> {
    match e {
        WireErrorView::ManifestMismatch(expected, actual) => "expected CRDT manifest "@ + expected
            + ", got "@ + actual,
        WireErrorView::DuplicatePruningEntry(removed) => "duplicate pruning entry for removed replica "@
            + removed,
        WireErrorView::Payload(reason) => reason,
    }
}

/// The four texts one after another.
fn joined(a: &str, b: &str, c: &str, d: &str) -> (r: String)
    ensures
        r@ == a@ + b@ + c@ + d@,
{
    let mut r = a.to_owned();
    r.append(b);
    r.append(c);
    r.append(d);
    r
}

impl WireDecodeError {
    /// Human-readable description of the failure.
    pub fn message(&self) -> (r: String)
        ensures
            r@ == decode_error_message(self@),
    {
        match self {
            WireDecodeError::ManifestMismatch { expected, actual } => {
                let r = joined("expected CRDT manifest ", expected.as_str(), ", got ", actual.as_str());
                proof {
                    reveal_strlit("expected CRDT manifest ");
                    reveal_strlit(", got ");
                }
                r
            },
            WireDecodeError::DuplicatePruningEntry { removed } => {
                let r = joined("duplicate pruning entry for removed replica ", removed.as_str(), "", "");
                proof {
                    reveal_strlit("duplicate pruning entry for removed replica ");
                    reveal_strlit("");
                    assert(r@ == "duplicate pruning entry for removed replica "@ + removed@);
                }
                r
            },
            WireDecodeError::Payload(reason) => reason.clone(),
        }
    }
}

fn same_str(a: &str, b: &str) -> (r: bool)
    ensures
        r == (a@ == b@),
{
    match compare_str(a, b) {
        KeyOrder::Equal => true,
        _ => false,
    }
}

/// Decodes an encoded value with `codec`; a value written by another codec
/// is refused before the codec sees it.
pub fn deserialize<D: View, C: CrdtDataCodec<D>>(codec: &C, data: &SerializedCrdt) -> (r: Result<
    D,
    WireDecodeError,
>)
    ensures
        match r {
            Ok(d) => codec.names(data.manifest_spec()) && codec.decodes(
                data.payload_spec(),
                data.version_spec(),
                d@,
            ),
            Err(e) => record_refusal::<D, C>(
                *codec,
                data.manifest_spec(),
                Seq::empty(),
                data.payload_spec(),
                data.version_spec(),
                e@,
            ),
        },
{
    let expected = codec.manifest();
    if !same_str(data.manifest(), expected) {
        return Err(
            WireDecodeError::ManifestMismatch {
                expected: expected.to_string(),
                actual: data.manifest().to_string(),
            },
        );
    }
    proof {
        assert(decode_entries(Seq::<(Seq<char>, crate::protocol::WirePruningState)>::empty()) is Ok);
    }
    match codec.decode_payload(data.payload(), data.version()) {
        Ok(d) => Ok(d),
        Err(reason) => Err(WireDecodeError::Payload(reason)),
    }
}

/// The wire record of an envelope whose value `codec` encoded as `data`.
pub fn encode_data_envelope_with(data: SerializedCrdt, pruning: &PruningTable) -> (r: ReplicatorDataEnvelope)
    ensures
        r.crdt_manifest@ == data.manifest_spec(),
        r.crdt_version == data.version_spec(),
        r.payload@ == data.payload_spec(),
        wire_entries_view(r.pruning@) == encoded_pruning(pruning@),
{
    let manifest = data.manifest().to_string();
    let version = data.version();
    ReplicatorDataEnvelope {
        crdt_manifest: manifest,
        crdt_version: version,
        payload: data.into_payload(),
        pruning: encode_pruning_table(pruning),
    }
}

/// Encodes an envelope: its value with `codec`, its pruning table in
/// ascending removed-replica order.
pub fn encode_data_envelope<D: ReplicatedData, C: CrdtDataCodec<D>>(
    envelope: &DataEnvelope<D>,
    codec: &C,
) -> (r: Result<ReplicatorDataEnvelope, String>)
    ensures
        match r {
            Ok(w) => encoded_by::<D, C>(*codec, envelope@, w),
            Err(e) => codec.refuses_data(envelope@.0, e@),
        },
{
    match serialize(codec, envelope.data()) {
        Ok(data) => Ok(encode_data_envelope_with(data, envelope.pruning())),
        Err(e) => Err(e),
    }
}

/// The envelope of a record whose manifest and pruning table were
/// accepted, given its decoded table and what the codec made of its
/// payload: a payload refusal is passed on.
pub fn decode_data_envelope_with<D: ReplicatedData>(pruning: PruningTable, payload: Result<D, String>) -> (r:
    Result<DataEnvelope<D>, WireDecodeError>)
    ensures
        match payload {
            Ok(d) => r matches Ok(env) && env@ == (d@, pruning@),
            Err(e) => r matches Err(WireDecodeError::Payload(reason)) && reason@ == e@,
        },
{
    match payload {
        Ok(data) => Ok(DataEnvelope::with_pruning(data, pruning)),
        Err(reason) => Err(WireDecodeError::Payload(reason)),
    }
}

/// Decodes an envelope record with `codec`: a manifest the codec does not
/// own is refused first, then a pruning table naming a removed replica
/// twice, and only then is the payload handed to the codec.
pub fn decode_data_envelope<D: ReplicatedData, C: CrdtDataCodec<D>>(
    envelope: &ReplicatorDataEnvelope,
    codec: &C,
) -> (r: Result<DataEnvelope<D>, WireDecodeError>)
    ensures
        match r {
            Ok(env) => decoded_by::<D, C>(*codec, *envelope, env@),
            Err(e) => envelope_refusal::<D, C>(*codec, *envelope, e@),
        },
        decode_entries(wire_entries_view(envelope.pruning@)) is Err ==> r is Err,
{
    let expected = codec.manifest();
    if !same_str(envelope.crdt_manifest.as_str(), expected) {
        return Err(
            WireDecodeError::ManifestMismatch {
                expected: expected.to_string(),
                actual: envelope.crdt_manifest.clone(),
            },
        );
    }
    let pruning = match decode_pruning_table(envelope.pruning.as_slice()) {
        Ok(t) => t,
        Err(PruningDecodeError::DuplicateEntry { removed }) => {
            return Err(WireDecodeError::DuplicatePruningEntry { removed });
        },
    };
    let payload = codec.decode_payload(&envelope.payload, envelope.crdt_version);
    decode_data_envelope_with(pruning, payload)
}

/// A direct full-state write of `envelope` under `key`.
pub fn encode_write<D: ReplicatedData, C: CrdtDataCodec<D>>(
    key: &ReplicatorKey,
    from: Option<ReplicaId>,
    envelope: &DataEnvelope<D>,
    codec: &C,
) -> (r: Result<ReplicatorWrite, String>)
    ensures
        match r {
            Ok(w) => w.key@ == key@ && w.from == from && encoded_by::<D, C>(*codec, envelope@, w.envelope),
            Err(e) => codec.refuses_data(envelope@.0, e@),
        },
{
    match encode_data_envelope(envelope, codec) {
        Ok(env) => Ok(ReplicatorWrite { key: key.as_str().to_string(), from, envelope: env }),
        Err(e) => Err(e),
    }
}

/// A read reply carrying `envelope` when the key is present.
pub fn encode_read_result<D: ReplicatedData, C: CrdtDataCodec<D>>(
    envelope: Option<&DataEnvelope<D>>,
    codec: &C,
) -> (r: Result<ReplicatorReadResult, String>)
    ensures
        envelope is None ==> r == Ok::<ReplicatorReadResult, String>(
            ReplicatorReadResult { envelope: None },
        ),
        r matches Ok(res) ==> (res.envelope is Some <==> envelope is Some),
        match envelope {
            Some(env) => match r {
                Ok(res) => encoded_by::<D, C>(*codec, env@, res.envelope->Some_0),
                Err(e) => codec.refuses_data(env@.0, e@),
            },
            None => true,
        },
{
    match envelope {
        None => Ok(ReplicatorReadResult { envelope: None }),
        Some(env) => match encode_data_envelope(env, codec) {
            Ok(w) => Ok(ReplicatorReadResult { envelope: Some(w) }),
            Err(e) => Err(e),
        },
    }
}

/// Decodes a read reply: absent stays absent, a present envelope is decoded.
pub fn decode_read_result<D: ReplicatedData, C: CrdtDataCodec<D>>(
    result: &ReplicatorReadResult,
    codec: &C,
) -> (r: Result<Option<DataEnvelope<D>>, WireDecodeError>)
    ensures
        result.envelope is None ==> r == Ok::<Option<DataEnvelope<D>>, WireDecodeError>(None),
        r matches Ok(o) ==> (o is Some <==> result.envelope is Some),
        match result.envelope {
            Some(w) => match r {
                Ok(o) => decoded_by::<D, C>(*codec, w, o->Some_0@),
                Err(e) => envelope_refusal::<D, C>(*codec, w, e@),
            },
            None => true,
        },
{
    match &result.envelope {
        None => Ok(None),
        Some(env) => match decode_data_envelope(env, codec) {
            Ok(d) => Ok(Some(d)),
            Err(e) => Err(e),
        },
    }
}

/// The range of a record whose manifest and pruning table were accepted,
/// given its decoded table and what the codec made of its payload: a
/// payload refusal is passed on.
pub fn decode_delta_with<Delta: View>(
    delta: &ReplicatorDelta,
    pruning: PruningTable,
    payload: Result<Delta, String>,
) -> (r: Result<DecodedReplicatorDelta<Delta>, WireDecodeError>)
    ensures
        match payload {
            Ok(p) => r matches Ok(d) && d@ == (DecodedDeltaView {
                key: delta.key@,
                delta: p@,
                pruning: pruning@,
                from_version: delta.from_version,
                to_version: delta.to_version,
            }),
            Err(e) => r matches Err(WireDecodeError::Payload(reason)) && reason@ == e@,
        },
{
    match payload {
        Ok(d) => Ok(
            DecodedReplicatorDelta::new(
                ReplicatorKey::new(delta.key.as_str()),
                d,
                delta.from_version,
                delta.to_version,
            ).with_pruning(pruning),
        ),
        Err(reason) => Err(WireDecodeError::Payload(reason)),
    }
}

/// Whether `d` is what `codec` decodes the range record `delta` to: the
/// record carries the codec's manifest, its payload decodes to the delta,
/// its pruning entries to the table, and key and versions are kept.
pub open spec fn delta_decoded_by<Delta: View, C: CrdtDataCodec<Delta>>(
    codec: C,
    delta: ReplicatorDelta,
    d: DecodedDeltaView<Delta::V>,
) -> bool {
    &&& codec.names(delta.crdt_manifest@)
    &&& codec.decodes(delta.payload@, delta.crdt_version, d.delta)
    &&& Ok::<PTable, Seq<char>>(d.pruning) == decode_entries(wire_entries_view(delta.pruning@))
    &&& d.key == delta.key@
    &&& d.from_version == delta.from_version
    &&& d.to_version == delta.to_version
}

/// Whether `e` is how decoding the range record `delta` with `codec` can fail.
pub open spec fn delta_refusal<Delta: View, C: CrdtDataCodec<Delta>>(
    codec: C,
    delta: ReplicatorDelta,
    e: WireErrorView,
) -> bool {
    record_refusal::<Delta, C>(
        codec,
        delta.crdt_manifest@,
        wire_entries_view(delta.pruning@),
        delta.payload@,
        delta.crdt_version,
        e,
    )
}

/// Decodes one manifest-tagged delta range with `codec`: a manifest the
/// codec does not own is refused first, then a pruning table naming a
/// removed replica twice, and only then is the payload handed to the codec.
pub fn decode_delta<Delta: View, C: CrdtDataCodec<Delta>>(delta: &ReplicatorDelta, codec: &C) -> (r: Result<
    DecodedReplicatorDelta<Delta>,
    WireDecodeError,
>)
    ensures
        match r {
            Ok(d) => delta_decoded_by::<Delta, C>(*codec, *delta, d@),
            Err(e) => delta_refusal::<Delta, C>(*codec, *delta, e@),
        },
        decode_entries(wire_entries_view(delta.pruning@)) is Err ==> r is Err,
{
    let expected = codec.manifest();
    if !same_str(delta.crdt_manifest.as_str(), expected) {
        return Err(
            WireDecodeError::ManifestMismatch {
                expected: expected.to_string(),
                actual: delta.crdt_manifest.clone(),
            },
        );
    }
    let pruning = match decode_pruning_table(delta.pruning.as_slice()) {
        Ok(t) => t,
        Err(PruningDecodeError::DuplicateEntry { removed }) => {
            return Err(WireDecodeError::DuplicatePruningEntry { removed });
        },
    };
    let payload = codec.decode_payload(&delta.payload, delta.crdt_version);
    decode_delta_with(delta, pruning, payload)
}

/// Decodes every range of a propagation in order; the first failing range
/// decides the error and no partial result is returned.
pub fn decode_delta_propagation<Delta: View, C: CrdtDataCodec<Delta>>(
    propagation: &ReplicatorDeltaPropagation,
    codec: &C,
) -> (r: Result<Vec<DecodedReplicatorDelta<Delta>>, WireDecodeError>)
    ensures
        r matches Ok(ds) ==> ds@.len() == propagation.deltas@.len() && forall|i: int|
            0 <= i < ds@.len() ==> delta_decoded_by::<Delta, C>(
                *codec,
                propagation.deltas@[i],
                (#[trigger] ds@[i])@,
            ),
        r matches Err(e) ==> exists|i: int|
            0 <= i < propagation.deltas@.len() && delta_refusal::<Delta, C>(
                *codec,
                #[trigger] propagation.deltas@[i],
                e@,
            ),
        propagation.deltas@.len() == 0 ==> (r matches Ok(ds) && ds@.len() == 0),
        (exists|i: int|
            0 <= i < propagation.deltas@.len() && (decode_entries(
                wire_entries_view(#[trigger] propagation.deltas@[i].pruning@),
            ) is Err)) ==> r is Err,
{
    let mut out: Vec<DecodedReplicatorDelta<Delta>> = Vec::new();
    let n = propagation.deltas.len();
    let mut i: usize = 0;
    while i < n
        invariant
            n == propagation.deltas@.len(),
            i <= n,
            out@.len() == i,
            forall|j: int|
                0 <= j < i ==> delta_decoded_by::<Delta, C>(*codec, propagation.deltas@[j], (#[trigger] out@[j])@),
        decreases n - i,
    {
        match decode_delta(&propagation.deltas[i], codec) {
            Ok(d) => out.push(d),
            Err(e) => {
                proof {
                    assert(delta_refusal::<Delta, C>(*codec, propagation.deltas@[i as int], e@));
                }
                return Err(e);
            },
        }
        i = i + 1;
    }
    proof {
        assert forall|i: int| 0 <= i < propagation.deltas@.len() implies (decode_entries(
            wire_entries_view(#[trigger] propagation.deltas@[i].pruning@),
        ) is Ok) by {
            assert(Ok::<PTable, Seq<char>>(out@[i]@.pruning) == decode_entries(
                wire_entries_view(propagation.deltas@[i].pruning@),
            ));
        }
    }
    Ok(out)
}

/// The wire pruning entries attached to a range: the encoded table when one
/// is attached, none otherwise.
pub open spec fn attached_pruning(t: Option<PTable>) -> Seq<(Seq<char>, crate::protocol::WirePruningState)> {
    match t {
        Some(t) => encoded_pruning(t),
        None => Seq::empty(),
    }
}

/// The delta range record of one selected entry.
fn range_record(
    key: &ReplicatorKey,
    data: SerializedCrdt,
    from_version: u64,
    to_version: u64,
    pruning: Option<&PruningTable>,
) -> (r: ReplicatorDelta)
    ensures
        r.key@ == key@,
        r.crdt_manifest@ == data.manifest_spec(),
        r.crdt_version == data.version_spec(),
        r.payload@ == data.payload_spec(),
        r.from_version == from_version,
        r.to_version == to_version,
        wire_entries_view(r.pruning@) == attached_pruning(
            match pruning {
                Some(t) => Some(t@),
                None => None,
            },
        ),
{
    let manifest = data.manifest().to_string();
    let version = data.version();
    let wire_pruning = match pruning {
        Some(table) => encode_pruning_table(table),
        None => Vec::new(),
    };
    proof {
        if pruning is None {
            assert(wire_entries_view(wire_pruning@) =~= Seq::empty());
        }
    }
    ReplicatorDelta {
        key: key.as_str().to_string(),
        crdt_manifest: manifest,
        crdt_version: version,
        payload: data.into_payload(),
        from_version,
        to_version,
        pruning: wire_pruning,
    }
}

/// Encodes one selected per-replica batch: every entry, in ascending key
/// order, with `codec`; the first encoding failure is returned.
pub fn encode_delta_propagation<D: ReplicatedData, C: CrdtDataCodec<D>>(
    from: ReplicaId,
    reply: bool,
    propagation: &DeltaPropagation<D>,
    codec: &C,
) -> (r: Result<ReplicatorDeltaPropagation, String>)
    ensures
        propagation@.dom().len() == 0 ==> r is Ok,
        r matches Err(e) ==> exists|k: Seq<char>|
            #[trigger] propagation@.contains_key(k) && codec.refuses_data(propagation@[k].0, e@),
        r matches Ok(m) ==> {
            &&& m.from@ == from@
            &&& m.reply == reply
            &&& m.deltas@.len() == propagation@.dom().len()
            &&& forall|i: int|
                0 <= i < m.deltas@.len() ==> {
                    &&& propagation@.contains_key((#[trigger] m.deltas@[i]).key@)
                    &&& m.deltas@[i].from_version == propagation@[m.deltas@[i].key@].1
                    &&& m.deltas@[i].to_version == propagation@[m.deltas@[i].key@].2
                    &&& serialized_by::<D, C>(
                        *codec,
                        propagation@[m.deltas@[i].key@].0,
                        m.deltas@[i].crdt_manifest@,
                        m.deltas@[i].crdt_version,
                        m.deltas@[i].payload@,
                    )
                &&& wire_entries_view(m.deltas@[i].pruning@) == attached_pruning(
                    if propagation.pruning_view().contains_key(m.deltas@[i].key@) {
                        Some(propagation.pruning_view()[m.deltas@[i].key@])
                    } else {
                        None
                    },
                )
                }
            &&& forall|i: int, j: int|
                0 <= i < j < m.deltas@.len() ==> crate::order::key_lt(
                    (#[trigger] m.deltas@[i]).key@,
                    (#[trigger] m.deltas@[j]).key@,
                )
        },
{
    let entries = propagation.entries();
    let ghost ks = entries.key_seq();
    proof {
        entries.lemma_wf();
    }
    let n = entries.len();
    let mut deltas: Vec<ReplicatorDelta> = Vec::new();
    let mut i: usize = 0;
    while i < n
        invariant
            entries.wf(),
            entries@ == propagation@,
            ks == entries.key_seq(),
            n == ks.len(),
            crate::sorted_map::strictly_sorted(ks),
            i <= n,
            deltas@.len() == i,
            forall|j: int| 0 <= j < i ==> (#[trigger] deltas@[j]).key@ == ks[j],
            forall|j: int|
                0 <= j < i ==> (#[trigger] deltas@[j]).from_version == entries@[ks[j]].1
                    && deltas@[j].to_version == entries@[ks[j]].2
                    && serialized_by::<D, C>(
                    *codec,
                    entries@[ks[j]].0,
                    deltas@[j].crdt_manifest@,
                    deltas@[j].crdt_version,
                    deltas@[j].payload@,
                ),
            forall|j: int|
                0 <= j < i ==> wire_entries_view((#[trigger] deltas@[j]).pruning@) == attached_pruning(
                    if propagation.pruning_view().contains_key(ks[j]) {
                        Some(propagation.pruning_view()[ks[j]])
                    } else {
                        None
                    },
                ),
        decreases n - i,
    {
        proof {
            entries.lemma_wf();
        }
        let key = entries.key_at(i);
        let entry = entries.value_at(i);
        match serialize(codec, entry.delta()) {
            Ok(data) => {
                let record = range_record(
                    key,
                    data,
                    entry.from_version(),
                    entry.to_version(),
                    propagation.pruning_for(key),
                );
                deltas.push(record);
            },
            Err(e) => {
                proof {
                    assert(propagation@.contains_key(ks[i as int]));
                }
                return Err(e);
            },
        }
        i = i + 1;
    }
    proof {
        entries.lemma_wf();
        assert forall|i: int, j: int| 0 <= i < j < deltas@.len() implies crate::order::key_lt(
            (#[trigger] deltas@[i]).key@,
            (#[trigger] deltas@[j]).key@,
        ) by {
            assert(deltas@[i].key@ == ks[i]);
            assert(deltas@[j].key@ == ks[j]);
        }
    }
    Ok(ReplicatorDeltaPropagation { from, reply, deltas })
}

} // verus!
