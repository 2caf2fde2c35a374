//! Full-state gossip planning: stable digests, key chunks and status responses.
//!
//! Status exchange compares deterministic envelope digests within stable key
//! chunks. Different or remotely missing keys produce bounded full-state
//! gossip, while locally missing keys produce a status carrying the
//! not-found sentinel.
use vstd::prelude::*;

use crate::key::{keys_view, ReplicatorKey};
use crate::protocol::{
    wire_entries_view, EnvelopeView, ReplicatorDataEnvelope, ReplicatorGossip, ReplicatorGossipDigest,
    ReplicatorGossipEntry, ReplicatorGossipStatus, ReplicatorPruningEntry, ReplicatorPruningState,
    WirePruningState,
};
use crate::replica::{ids_view, ReplicaId};
use crate::sorted_map::{
    lemma_prefix_map_ends, lemma_prefix_map_step, lemma_push_contains, lemma_sorted_keys_of,
    lemma_sorted_pos, pos_of, prefix_map, sorted_keys, strictly_sorted, Duplicate, SortedMap,
};
use crate::sorted_set::SortedSet;
use vstd::utf8::encode_utf8;

verus! {

/// Reserved digest meaning that the status sender does not hold the key.
///
/// Real envelope digests are normalized away from this value.
pub const REPLICATOR_GOSSIP_NOT_FOUND_DIGEST: u64 = 0;

/// Offset basis of the 64-bit FNV-1a hash.
pub const FNV_OFFSET_BASIS: u64 = 0xcbf29ce484222325;

/// Prime of the 64-bit FNV-1a hash.
pub const FNV_PRIME: u64 = 0x100000001b3;

/// 64-bit FNV-1a hash of `bytes`, continuing from `hash`.
pub open spec fn fnv(hash: u64, bytes: Seq<u8>) -> u64
    decreases bytes.len(),
{
    if bytes.len() == 0 {
        hash
    } else {
        (fnv(hash, bytes.drop_last()) ^ (bytes.last() as u64)).wrapping_mul(FNV_PRIME)
    }
}

/// Big-endian bytes of a `u64`.
pub open spec fn be64(x: u64) -> Seq<u8> {
    seq![
        (x >> 56u64) as u8,
        (x >> 48u64) as u8,
        (x >> 40u64) as u8,
        (x >> 32u64) as u8,
        (x >> 24u64) as u8,
        (x >> 16u64) as u8,
        (x >> 8u64) as u8,
        x as u8,
    ]
}

/// Big-endian bytes of a `u16`.
pub open spec fn be16(x: u16) -> Seq<u8> {
    seq![(x >> 8u16) as u8, x as u8]
}

/// Hash of a length-prefixed field.
pub open spec fn fnv_field(hash: u64, bytes: Seq<u8>) -> u64 {
    fnv(fnv(hash, be64(bytes.len() as u64)), bytes)
}

/// Hash of a replica identity, as a length-prefixed UTF-8 field.
pub open spec fn fnv_replica(hash: u64, r: Seq<char>) -> u64 {
    fnv_field(hash, encode_utf8(r))
}

/// Hash of a sequence of replica identities, in order.
pub open spec fn fnv_replicas(hash: u64, rs: Seq<Seq<char>>) -> u64
    decreases rs.len(),
{
    if rs.len() == 0 {
        hash
    } else {
        fnv_replica(fnv_replicas(hash, rs.drop_last()), rs.last())
    }
}

/// Hash of a wire pruning state: a tag, then its fields.
pub open spec fn fnv_pruning_state(hash: u64, s: ReplicatorPruningState) -> u64 {
    match s {
        ReplicatorPruningState::Initialized { owner, seen } => fnv_replicas(
            fnv(fnv_replica(fnv(hash, seq![1u8]), owner@), be64(seen@.len() as u64)),
            ids_view(seen@),
        ),
        ReplicatorPruningState::Performed { obsolete_at_millis } => fnv(
            fnv(hash, seq![2u8]),
            be64(obsolete_at_millis),
        ),
    }
}

/// Hash of wire pruning entries, in order.
pub open spec fn fnv_pruning(hash: u64, es: Seq<ReplicatorPruningEntry>) -> u64
    decreases es.len(),
{
    if es.len() == 0 {
        hash
    } else {
        fnv_pruning_state(fnv_replica(fnv_pruning(hash, es.drop_last()), es.last().removed@), es.last().state)
    }
}

/// A digest never equal to the not-found sentinel.
pub open spec fn non_zero(hash: u64) -> u64 {
    if hash == REPLICATOR_GOSSIP_NOT_FOUND_DIGEST {
        1
    } else {
        hash
    }
}

/// Digest of an encoded envelope: manifest, version, payload and pruning.
pub open spec fn envelope_digest(e: ReplicatorDataEnvelope) -> u64 {
    non_zero(
        fnv_pruning(
            fnv_field(
                fnv(fnv_field(FNV_OFFSET_BASIS, encode_utf8(e.crdt_manifest@)), be16(e.crdt_version)),
                e.payload@,
            ),
            e.pruning@,
        ),
    )
}

/// Stable hash of a key.
pub open spec fn key_hash(k: Seq<char>) -> u64 {
    non_zero(fnv(FNV_OFFSET_BASIS, encode_utf8(k)))
}

/// Whether key `k` belongs to chunk `chunk` of `total_chunks`.
pub open spec fn in_chunk(k: Seq<char>, chunk: u32, total_chunks: u32) -> bool {
    total_chunks == 1 || key_hash(k) % (total_chunks as u64) == chunk as u64
}

/// Continues an FNV-1a hash over `bytes`.
fn stable_hash_bytes(hash: u64, bytes: &[u8]) -> (r: u64)
    ensures
        r == fnv(hash, bytes@),
{
    let mut h = hash;
    let n = bytes.len();
    let mut i: usize = 0;
    while i < n
        invariant
            n == bytes@.len(),
            i <= n,
            h == fnv(hash, bytes@.take(i as int)),
        decreases n - i,
    {
        proof {
            assert(bytes@.take(i as int + 1).drop_last() =~= bytes@.take(i as int));
            assert(bytes@.take(i as int + 1).last() == bytes@[i as int]);
        }
        h = (h ^ (bytes[i] as u64)).wrapping_mul(FNV_PRIME);
        i = i + 1;
    }
    proof {
        assert(bytes@.take(n as int) =~= bytes@);
    }
    h
}

/// Big-endian bytes of a `u64`.
fn be_bytes_u64(x: u64) -> (r: Vec<u8>)
    ensures
        r@ == be64(x),
{
    let r = vec![
        (x >> 56u64) as u8,
        (x >> 48u64) as u8,
        (x >> 40u64) as u8,
        (x >> 32u64) as u8,
        (x >> 24u64) as u8,
        (x >> 16u64) as u8,
        (x >> 8u64) as u8,
        x as u8,
    ];
    proof {
        assert(r@ =~= be64(x));
    }
    r
}

/// Big-endian bytes of a `u16`.
fn be_bytes_u16(x: u16) -> (r: Vec<u8>)
    ensures
        r@ == be16(x),
{
    let r = vec![(x >> 8u16) as u8, x as u8];
    proof {
        assert(r@ =~= be16(x));
    }
    r
}

/// Hash of a length-prefixed field.
fn stable_hash_field(hash: u64, bytes: &[u8]) -> (r: u64)
    ensures
        r == fnv_field(hash, bytes@),
{
    let len = be_bytes_u64(bytes.len() as u64);
    let h = stable_hash_bytes(hash, len.as_slice());
    stable_hash_bytes(h, bytes)
}

fn stable_hash_replica_id(hash: u64, replica_id: &ReplicaId) -> (r: u64)
    ensures
        r == fnv_replica(hash, replica_id@),
{
    stable_hash_field(hash, replica_id.as_str().as_bytes())
}

fn stable_hash_pruning_state(hash: u64, state: &ReplicatorPruningState) -> (r: u64)
    ensures
        r == fnv_pruning_state(hash, *state),
{
    match state {
        ReplicatorPruningState::Initialized { owner, seen } => {
            let tag: Vec<u8> = vec![1u8];
            let mut h = stable_hash_bytes(hash, tag.as_slice());
            proof {
                assert(tag@ =~= seq![1u8]);
            }
            h = stable_hash_replica_id(h, owner);
            let count = be_bytes_u64(seen.len() as u64);
            h = stable_hash_bytes(h, count.as_slice());
            let ghost h0 = h;
            let ghost ids = ids_view(seen@);
            let n = seen.len();
            let mut i: usize = 0;
            while i < n
                invariant
                    n == seen@.len(),
                    ids == ids_view(seen@),
                    i <= n,
                    h == fnv_replicas(h0, ids.take(i as int)),
                decreases n - i,
            {
                proof {
                    assert(ids.take(i as int + 1).drop_last() =~= ids.take(i as int));
                    assert(ids.take(i as int + 1).last() == seen@[i as int]@);
                }
                h = stable_hash_replica_id(h, &seen[i]);
                i = i + 1;
            }
            proof {
                assert(ids.take(n as int) =~= ids);
            }
            h
        },
        ReplicatorPruningState::Performed { obsolete_at_millis } => {
            let tag: Vec<u8> = vec![2u8];
            let h = stable_hash_bytes(hash, tag.as_slice());
            proof {
                assert(tag@ =~= seq![2u8]);
            }
            let millis = be_bytes_u64(*obsolete_at_millis);
            stable_hash_bytes(h, millis.as_slice())
        },
    }
}

fn non_zero_digest(hash: u64) -> (r: u64)
    ensures
        r == non_zero(hash),
{
    if hash == REPLICATOR_GOSSIP_NOT_FOUND_DIGEST {
        1
    } else {
        hash
    }
}

/// Computes the deterministic non-zero digest of an encoded envelope.
///
/// The fixed FNV-1a digest covers the CRDT manifest, version and payload
/// bytes and the ordered pruning metadata. It detects differences; it is not
/// a cryptographic integrity proof.
pub fn digest_envelope(envelope: &ReplicatorDataEnvelope) -> (r: u64)
    ensures
        r == envelope_digest(*envelope),
        r != REPLICATOR_GOSSIP_NOT_FOUND_DIGEST,
{
    let mut hash = FNV_OFFSET_BASIS;
    hash = stable_hash_field(hash, envelope.crdt_manifest.as_str().as_bytes());
    let version = be_bytes_u16(envelope.crdt_version);
    hash = stable_hash_bytes(hash, version.as_slice());
    hash = stable_hash_field(hash, envelope.payload.as_slice());
    let ghost h0 = hash;
    let n = envelope.pruning.len();
    let mut i: usize = 0;
    while i < n
        invariant
            n == envelope.pruning@.len(),
            i <= n,
            hash == fnv_pruning(h0, envelope.pruning@.take(i as int)),
        decreases n - i,
    {
        proof {
            assert(envelope.pruning@.take(i as int + 1).drop_last() =~= envelope.pruning@.take(i as int));
            assert(envelope.pruning@.take(i as int + 1).last() == envelope.pruning@[i as int]);
        }
        hash = stable_hash_replica_id(hash, &envelope.pruning[i].removed);
        hash = stable_hash_pruning_state(hash, &envelope.pruning[i].state);
        i = i + 1;
    }
    proof {
        assert(envelope.pruning@.take(n as int) =~= envelope.pruning@);
    }
    non_zero_digest(hash)
}

fn stable_hash_key(key: &ReplicatorKey) -> (r: u64)
    ensures
        r == key_hash(key@),
{
    non_zero_digest(stable_hash_bytes(FNV_OFFSET_BASIS, key.as_str().as_bytes()))
}

/// Whether `key` belongs to chunk `chunk` of `total_chunks`.
pub fn key_belongs_to_chunk(key: &ReplicatorKey, chunk: u32, total_chunks: u32) -> (r: bool)
    requires
        total_chunks > 0,
    ensures
        r == in_chunk(key@, chunk, total_chunks),
{
    total_chunks == 1 || stable_hash_key(key) % (total_chunks as u64) == chunk as u64
}

/// A failure while planning or answering full-state gossip.
#[derive(Debug, Clone, PartialEq, Eq)]
pub enum ReplicatorGossipError {
    /// A CRDT envelope could not be encoded or decoded, for the given reason.
    Serialization(String),
    /// A chunk index was outside the declared non-empty chunk range.
    InvalidChunk { chunk: u32, total_chunks: u32 },
    /// A status response was requested with a zero entry limit.
    ZeroMaxEntries,
}

/// Checks that `chunk` is within a non-empty range of `total_chunks`.
pub fn ensure_valid_chunk(chunk: u32, total_chunks: u32) -> (r: Result<(), ReplicatorGossipError>)
    ensures
        r is Ok <==> (total_chunks != 0 && chunk < total_chunks),
        r matches Err(e) ==> e == (ReplicatorGossipError::InvalidChunk { chunk, total_chunks }),
{
    if total_chunks == 0 || chunk >= total_chunks {
        Err(ReplicatorGossipError::InvalidChunk { chunk, total_chunks })
    } else {
        Ok(())
    }
}

/// Abstract digest entries: key, digest and last-use timestamp.
pub open spec fn digests_view(s: Seq<ReplicatorGossipDigest>) -> Seq<(Seq<char>, u64, u64)> {
    s.map_values(|d: ReplicatorGossipDigest| (d.key@, d.digest, d.used_timestamp_millis))
}

/// Digest entries of the keys `ks` that belong to a chunk, in order.
pub open spec fn chunk_entries(
    ks: Seq<Seq<char>>,
    local: Map<Seq<char>, u64>,
    chunk: u32,
    total_chunks: u32,
) -> Seq<(Seq<char>, u64, u64)>
    decreases ks.len(),
{
    if ks.len() == 0 {
        Seq::empty()
    } else {
        let rest = chunk_entries(ks.drop_last(), local, chunk, total_chunks);
        if in_chunk(ks.last(), chunk, total_chunks) {
            rest.push((ks.last(), local[ks.last()], 0u64))
        } else {
            rest
        }
    }
}

/// Builds one chunk of the local digest summary from the digest of every
/// local key.
///
/// `chunk` is zero-based and must be less than a non-zero `total_chunks`.
/// Incarnation metadata is copied unchanged into the resulting status.
pub fn build_gossip_status(
    local: &SortedMap<ReplicatorKey, u64>,
    chunk: u32,
    total_chunks: u32,
    to_system_uid: Option<u64>,
    from_system_uid: Option<u64>,
) -> (r: Result<ReplicatorGossipStatus, ReplicatorGossipError>)
    requires
        local.wf(),
    ensures
        r is Ok <==> (total_chunks != 0 && chunk < total_chunks),
        r matches Err(e) ==> e == (ReplicatorGossipError::InvalidChunk { chunk, total_chunks }),
        r matches Ok(st) ==> {
            &&& digests_view(st.entries@) == chunk_entries(
                sorted_keys(local@.dom()),
                local@,
                chunk,
                total_chunks,
            )
            &&& st.chunk == chunk
            &&& st.total_chunks == total_chunks
            &&& st.to_system_uid == to_system_uid
            &&& st.from_system_uid == from_system_uid
        },
{
    match ensure_valid_chunk(chunk, total_chunks) {
        Ok(()) => {},
        Err(e) => {
            return Err(e);
        },
    }
    let ghost ks = local.key_seq();
    proof {
        local.lemma_wf();
        lemma_sorted_keys_of(ks);
    }
    let n = local.len();
    let mut entries: Vec<ReplicatorGossipDigest> = Vec::new();
    let mut i: usize = 0;
    while i < n
        invariant
            local.wf(),
            ks == local.key_seq(),
            n == ks.len(),
            strictly_sorted(ks),
            total_chunks > 0,
            i <= n,
            digests_view(entries@) == chunk_entries(ks.take(i as int), local@, chunk, total_chunks),
        decreases n - i,
    {
        let key = local.key_at(i);
        proof {
            local.lemma_wf();
            assert(ks.take(i as int + 1).drop_last() =~= ks.take(i as int));
            assert(ks.take(i as int + 1).last() == ks[i as int]);
            assert(local@[ks[i as int]] == local.value_seq()[i as int]);
        }
        if key_belongs_to_chunk(key, chunk, total_chunks) {
            let entry = ReplicatorGossipDigest {
                key: key.as_str().to_string(),
                digest: *local.value_at(i),
                used_timestamp_millis: 0,
            };
            let ghost prev = entries@;
            entries.push(entry);
            proof {
                assert(digests_view(entries@) =~= digests_view(prev).push(
                    (entry.key@, entry.digest, entry.used_timestamp_millis),
                ));
            }
        }
        i = i + 1;
    }
    proof {
        assert(ks.take(n as int) =~= ks);
    }
    Ok(ReplicatorGossipStatus { entries, chunk, total_chunks, to_system_uid, from_system_uid })
}

/// Keys of status entries whose local digest differs, in entry order.
pub open spec fn differing(es: Seq<(Seq<char>, u64, u64)>, local: Map<Seq<char>, u64>) -> Seq<
    Seq<char>,
>
    decreases es.len(),
{
    if es.len() == 0 {
        Seq::empty()
    } else {
        let rest = differing(es.drop_last(), local);
        let e = es.last();
        if local.contains_key(e.0) && local[e.0] != e.1 {
            rest.push(e.0)
        } else {
            rest
        }
    }
}

/// Local keys of a chunk.
pub open spec fn chunk_keys(local: Map<Seq<char>, u64>, chunk: u32, total_chunks: u32) -> Set<
    Seq<char>,
> {
    Set::new(|k: Seq<char>| local.contains_key(k) && in_chunk(k, chunk, total_chunks))
}

/// Keys named by status entries.
pub open spec fn named_keys(es: Seq<(Seq<char>, u64, u64)>) -> Set<Seq<char>> {
    Set::new(|k: Seq<char>| exists|i: int| 0 <= i < es.len() && #[trigger] es[i].0 == k)
}

/// Keys to send in full: the differing ones, then local keys the peer did
/// not name, at most `max_entries`.
pub open spec fn keys_to_send(
    es: Seq<(Seq<char>, u64, u64)>,
    local: Map<Seq<char>, u64>,
    chunk: u32,
    total_chunks: u32,
    max_entries: usize,
) -> Seq<Seq<char>> {
    let all = differing(es, local) + sorted_keys(
        chunk_keys(local, chunk, total_chunks).difference(named_keys(es)),
    );
    if all.len() <= max_entries {
        all
    } else {
        all.take(max_entries as int)
    }
}

/// Keys the peer named that are not local to the chunk, ascending.
pub open spec fn keys_missing(
    es: Seq<(Seq<char>, u64, u64)>,
    local: Map<Seq<char>, u64>,
    chunk: u32,
    total_chunks: u32,
) -> Seq<Seq<char>> {
    sorted_keys(named_keys(es).difference(chunk_keys(local, chunk, total_chunks)))
}

/// The plan answering a peer's gossip status.
pub struct GossipStatusResponse {
    /// Keys whose full state the peer needs, in send order.
    pub send_keys: Vec<ReplicatorKey>,
    /// Whether the peer should send its differing entries back.
    pub send_back: bool,
    /// Status asking the peer for keys absent locally, if any.
    pub missing_status: Option<ReplicatorGossipStatus>,
}

/// Plans full-state and missing-key responses to a peer's gossip status,
/// given the digest of every local key.
///
/// Different digests, including the peer's not-found sentinel, request
/// full-state gossip. Local keys of the chunk absent from the peer status are
/// also sent; peer keys absent locally produce a status carrying the
/// not-found sentinel. `max_entries` bounds the full-state response and must
/// be greater than zero.
pub fn plan_status_response(
    local: &SortedMap<ReplicatorKey, u64>,
    status: &ReplicatorGossipStatus,
    max_entries: usize,
) -> (r: Result<GossipStatusResponse, ReplicatorGossipError>)
    requires
        local.wf(),
    ensures
        match r {
            Err(e) => if !(status.total_chunks != 0 && status.chunk < status.total_chunks) {
                e == (ReplicatorGossipError::InvalidChunk {
                    chunk: status.chunk,
                    total_chunks: status.total_chunks,
                })
            } else {
                max_entries == 0 && e == ReplicatorGossipError::ZeroMaxEntries
            },
            Ok(p) => {
                let es = digests_view(status.entries@);
                &&& status.total_chunks != 0 && status.chunk < status.total_chunks
                &&& max_entries != 0
                &&& keys_view(p.send_keys@) == keys_to_send(
                    es,
                    local@,
                    status.chunk,
                    status.total_chunks,
                    max_entries,
                )
                &&& p.send_back == (differing(es, local@).len() > 0)
                &&& match p.missing_status {
                    None => keys_missing(es, local@, status.chunk, status.total_chunks).len() == 0,
                    Some(m) => {
                        &&& keys_missing(es, local@, status.chunk, status.total_chunks).len() > 0
                        &&& digests_view(m.entries@) == keys_missing(
                            es,
                            local@,
                            status.chunk,
                            status.total_chunks,
                        ).map_values(|k: Seq<char>| (k, REPLICATOR_GOSSIP_NOT_FOUND_DIGEST, 0u64))
                        &&& m.chunk == status.chunk
                        &&& m.total_chunks == status.total_chunks
                        &&& m.to_system_uid == status.from_system_uid
                        &&& m.from_system_uid == status.to_system_uid
                    },
                }
            },
        },
{
    let chunk = status.chunk;
    let total_chunks = status.total_chunks;
    match ensure_valid_chunk(chunk, total_chunks) {
        Ok(()) => {},
        Err(e) => {
            return Err(e);
        },
    }
    if max_entries == 0 {
        return Err(ReplicatorGossipError::ZeroMaxEntries);
    }
    let ghost es = digests_view(status.entries@);
    let ghost lk = local.key_seq();
    proof {
        local.lemma_wf();
    }
    // local keys of the chunk
    let mut my_keys: SortedSet<ReplicatorKey> = SortedSet::new();
    let n = local.len();
    let mut i: usize = 0;
    while i < n
        invariant
            local.wf(),
            lk == local.key_seq(),
            n == lk.len(),
            total_chunks > 0,
            i <= n,
            my_keys.wf(),
            my_keys@ == Set::new(
                |k: Seq<char>| lk.take(i as int).contains(k) && in_chunk(k, chunk, total_chunks),
            ),
        decreases n - i,
    {
        let key = local.key_at(i);
        proof {
            assert(lk.take(i as int + 1) =~= lk.take(i as int).push(lk[i as int]));
        }
        if key_belongs_to_chunk(key, chunk, total_chunks) {
            my_keys.insert(key.duplicate());
        }
        proof {
            assert(my_keys@ =~= Set::new(
                |k: Seq<char>| lk.take(i as int + 1).contains(k) && in_chunk(k, chunk, total_chunks),
            )) by {
                assert forall|k: Seq<char>| #![auto] lk.take(i as int + 1).contains(k) <==> (lk.take(
                    i as int,
                ).contains(k) || k == lk[i as int]) by {
                    lemma_push_contains(lk.take(i as int), lk[i as int], k);
                }
            }
        }
        i = i + 1;
    }
    proof {
        assert(lk.take(n as int) =~= lk);
        assert(my_keys@ =~= chunk_keys(local@, chunk, total_chunks)) by {
            assert forall|k: Seq<char>| lk.contains(k) <==> local@.contains_key(k) by {
                if local@.contains_key(k) {
                    assert(local@.dom().contains(k));
                }
            }
        }
    }
    // keys named by the peer, and the differing ones in entry order
    let mut other_keys: SortedSet<ReplicatorKey> = SortedSet::new();
    let mut different: Vec<ReplicatorKey> = Vec::new();
    let m = status.entries.len();
    let mut j: usize = 0;
    while j < m
        invariant
            local.wf(),
            m == status.entries@.len(),
            es == digests_view(status.entries@),
            j <= m,
            other_keys.wf(),
            other_keys@ == named_keys(es.take(j as int)),
            keys_view(different@) == differing(es.take(j as int), local@),
        decreases m - j,
    {
        let entry = &status.entries[j];
        let key = ReplicatorKey::new(entry.key.as_str());
        proof {
            assert(es.take(j as int + 1).drop_last() =~= es.take(j as int));
            assert(es.take(j as int + 1).last() == es[j as int]);
        }
        let ghost prev = different@;
        match local.get(key.as_str()) {
            Some(d) => {
                if *d != entry.digest {
                    different.push(key.duplicate());
                    proof {
                        assert(keys_view(different@) =~= keys_view(prev).push(key@));
                    }
                }
            },
            None => {},
        }
        other_keys.insert(key);
        proof {
            assert(other_keys@ =~= named_keys(es.take(j as int + 1))) by {
                assert forall|k: Seq<char>| named_keys(es.take(j as int + 1)).contains(k) <==> (
                named_keys(es.take(j as int)).contains(k) || k == es[j as int].0) by {
                    if named_keys(es.take(j as int + 1)).contains(k) {
                        let q = choose|q: int| 0 <= q < j + 1 && #[trigger] es.take(j as int + 1)[q].0 == k;
                        if q < j {
                            assert(es.take(j as int)[q].0 == k);
                        }
                    }
                    if named_keys(es.take(j as int)).contains(k) {
                        let q = choose|q: int| 0 <= q < j && #[trigger] es.take(j as int)[q].0 == k;
                        assert(es.take(j as int + 1)[q].0 == k);
                    }
                    if k == es[j as int].0 {
                        assert(es.take(j as int + 1)[j as int].0 == k);
                    }
                }
            }
        }
        j = j + 1;
    }
    proof {
        assert(es.take(m as int) =~= es);
    }
    let send_back = different.len() > 0;
    // local keys the peer did not name, ascending
    let ghost mk = my_keys.key_seq();
    proof {
        my_keys.lemma_wf();
    }
    let mut send_keys = different;
    let ghost diff_part = keys_view(send_keys@);
    let mk_len = my_keys.len();
    let mut q: usize = 0;
    while q < mk_len
        invariant
            my_keys.wf(),
            mk == my_keys.key_seq(),
            mk_len == mk.len(),
            strictly_sorted(mk),
            other_keys.wf(),
            q <= mk_len,
            keys_view(send_keys@) == diff_part + mk.take(q as int).filter(
                |k: Seq<char>| !other_keys@.contains(k),
            ),
        decreases mk_len - q,
    {
        let key = my_keys.key_at(q);
        proof {
            assert(mk.take(q as int + 1).drop_last() =~= mk.take(q as int));
            lemma_filter_step(mk.take(q as int + 1), |k: Seq<char>| !other_keys@.contains(k));
        }
        let ghost prev = send_keys@;
        if !other_keys.contains(key.as_str()) {
            send_keys.push(key.duplicate());
            proof {
                assert(keys_view(send_keys@) =~= keys_view(prev).push(key@));
            }
        }
        q = q + 1;
    }
    proof {
        assert(mk.take(mk_len as int) =~= mk);
        lemma_sorted_filter_keys(mk, my_keys@, other_keys@);
    }
    let ghost all = keys_view(send_keys@);
    send_keys.truncate(max_entries);
    proof {
        if all.len() <= max_entries {
            assert(keys_view(send_keys@) =~= all);
        } else {
            assert(keys_view(send_keys@) =~= all.take(max_entries as int));
        }
    }
    // peer keys not local to the chunk, ascending
    let ghost ok = other_keys.key_seq();
    proof {
        other_keys.lemma_wf();
    }
    let ok_len = other_keys.len();
    let mut missing: Vec<ReplicatorGossipDigest> = Vec::new();
    let mut t: usize = 0;
    while t < ok_len
        invariant
            other_keys.wf(),
            ok == other_keys.key_seq(),
            ok_len == ok.len(),
            strictly_sorted(ok),
            my_keys.wf(),
            t <= ok_len,
            digests_view(missing@) == ok.take(t as int).filter(
                |k: Seq<char>| !my_keys@.contains(k),
            ).map_values(|k: Seq<char>| (k, REPLICATOR_GOSSIP_NOT_FOUND_DIGEST, 0u64)),
        decreases ok_len - t,
    {
        let key = other_keys.key_at(t);
        proof {
            assert(ok.take(t as int + 1).drop_last() =~= ok.take(t as int));
            lemma_filter_step(ok.take(t as int + 1), |k: Seq<char>| !my_keys@.contains(k));
        }
        let ghost prev = missing@;
        if !my_keys.contains(key.as_str()) {
            let entry = ReplicatorGossipDigest {
                key: key.as_str().to_string(),
                digest: REPLICATOR_GOSSIP_NOT_FOUND_DIGEST,
                used_timestamp_millis: 0,
            };
            missing.push(entry);
            proof {
                assert(digests_view(missing@) =~= digests_view(prev).push(
                    (key@, REPLICATOR_GOSSIP_NOT_FOUND_DIGEST, 0u64),
                ));
            }
        }
        t = t + 1;
    }
    proof {
        assert(ok.take(ok_len as int) =~= ok);
        lemma_sorted_filter_keys(ok, other_keys@, my_keys@);
    }
    let missing_status = if missing.len() > 0 {
        Some(
            ReplicatorGossipStatus {
                entries: missing,
                chunk,
                total_chunks,
                to_system_uid: status.from_system_uid,
                from_system_uid: status.to_system_uid,
            },
        )
    } else {
        None
    };
    Ok(GossipStatusResponse { send_keys, send_back, missing_status })
}

/// Filtering a sequence extended by one element.
proof fn lemma_filter_step(s: Seq<Seq<char>>, p: spec_fn(Seq<char>) -> bool)
    requires
        s.len() > 0,
    ensures
        s.filter(p) == if p(s.last()) {
            s.drop_last().filter(p).push(s.last())
        } else {
            s.drop_last().filter(p)
        },
{
    reveal(Seq::filter);
}

/// The members of an ascending enumeration of `a` outside `b`, in order,
/// enumerate `a` minus `b`.
proof fn lemma_sorted_filter_keys(q: Seq<Seq<char>>, a: Set<Seq<char>>, b: Set<Seq<char>>)
    requires
        strictly_sorted(q),
        q.to_set() == a,
    ensures
        q.filter(|k: Seq<char>| !b.contains(k)) == sorted_keys(a.difference(b)),
{
    let p = |k: Seq<char>| !b.contains(k);
    let f = q.filter(p);
    lemma_filter_sorted(q, p);
    q.filter_lemma(p);
    assert(f.to_set() =~= a.difference(b)) by {
        assert forall|k: Seq<char>| f.to_set().contains(k) <==> a.difference(b).contains(k) by {
            if f.to_set().contains(k) {
                assert(f.contains(k));
                q.lemma_filter_contains_rev(p, k);
                let i = choose|i: int| 0 <= i < f.len() && f[i] == k;
                assert(p(f[i]));
            }
            if a.difference(b).contains(k) {
                assert(q.to_set().contains(k));
                let i = choose|i: int| 0 <= i < q.len() && q[i] == k;
                q.lemma_filter_contains(p, i);
            }
        }
    }
    lemma_sorted_keys_of(f);
}

/// Filtering keeps a sequence ascending.
proof fn lemma_filter_sorted(q: Seq<Seq<char>>, p: spec_fn(Seq<char>) -> bool)
    requires
        strictly_sorted(q),
    ensures
        strictly_sorted(q.filter(p)),
    decreases q.len(),
{
    if q.len() > 0 {
        let d = q.drop_last();
        assert(strictly_sorted(d));
        lemma_filter_sorted(d, p);
        lemma_filter_step(q, p);
        let r = d.filter(p);
        assert forall|k: Seq<char>| r.contains(k) implies crate::order::key_lt(k, q.last()) by {
            d.lemma_filter_contains_rev(p, k);
            let i = choose|i: int| 0 <= i < d.len() && d[i] == k;
            assert(q[i] == k);
            assert(crate::order::key_lt(q[i], q[q.len() - 1]));
        }
        if p(q.last()) {
            let t = r.push(q.last());
            assert forall|i: int, j: int| 0 <= i < j < t.len() implies crate::order::key_lt(
                #[trigger] t[i],
                #[trigger] t[j],
            ) by {
                if j == t.len() - 1 {
                    assert(r.contains(t[i]));
                } else {
                    assert(t[i] == r[i] && t[j] == r[j]);
                }
            }
        }
    }
}


/// Hash of an abstract pruning state, as [`fnv_pruning_state`] hashes its wire form.
pub open spec fn fnv_wire_state(hash: u64, s: WirePruningState) -> u64 {
    match s {
        WirePruningState::Initialized(owner, seen) => fnv_replicas(
            fnv(fnv_replica(fnv(hash, seq![1u8]), owner), be64(seen.len() as u64)),
            seen,
        ),
        WirePruningState::Performed(obsolete_at_millis) => fnv(fnv(hash, seq![2u8]), be64(obsolete_at_millis)),
    }
}

/// Hash of abstract pruning entries, in order.
pub open spec fn fnv_wire(hash: u64, es: Seq<(Seq<char>, WirePruningState)>) -> u64
    decreases es.len(),
{
    if es.len() == 0 {
        hash
    } else {
        fnv_wire_state(fnv_replica(fnv_wire(hash, es.drop_last()), es.last().0), es.last().1)
    }
}

/// Digest of an abstract encoded envelope.
pub open spec fn digest_of(v: EnvelopeView) -> u64 {
    non_zero(
        fnv_wire(
            fnv_field(fnv(fnv_field(FNV_OFFSET_BASIS, encode_utf8(v.manifest)), be16(v.version)), v.payload),
            v.pruning,
        ),
    )
}

proof fn lemma_fnv_pruning_wire(hash: u64, es: Seq<ReplicatorPruningEntry>)
    ensures
        fnv_pruning(hash, es) == fnv_wire(hash, wire_entries_view(es)),
    decreases es.len(),
{
    if es.len() > 0 {
        lemma_fnv_pruning_wire(hash, es.drop_last());
        assert(wire_entries_view(es).drop_last() =~= wire_entries_view(es.drop_last()));
        let last = es.last();
        match last.state {
            ReplicatorPruningState::Initialized { owner, seen } => {
                assert(ids_view(seen@).len() == seen@.len());
            },
            _ => {},
        }
    }
}

/// The digest of an envelope depends only on its abstract value.
pub proof fn lemma_digest_of_view(e: ReplicatorDataEnvelope)
    ensures
        envelope_digest(e) == digest_of(e@),
{
    let h = fnv_field(fnv(fnv_field(FNV_OFFSET_BASIS, encode_utf8(e.crdt_manifest@)), be16(e.crdt_version)), e.payload@);
    lemma_fnv_pruning_wire(h, e.pruning@);
}

/// A length-prefixed field: its byte count in big-endian order, then its bytes.
pub open spec fn field_bytes(bytes: Seq<u8>) -> Seq<u8> {
    be64(bytes.len() as u64) + bytes
}

/// Replica identities one after another, each as a UTF-8 field.
pub open spec fn replica_list_bytes(rs: Seq<Seq<char>>) -> Seq<u8>
    decreases rs.len(),
{
    if rs.len() == 0 {
        Seq::empty()
    } else {
        replica_list_bytes(rs.drop_last()) + field_bytes(encode_utf8(rs.last()))
    }
}

/// The bytes a pruning state is hashed as: tag 1, the owner field, the
/// big-endian count of the replicas that saw it and each of them in order;
/// or tag 2 and the big-endian deadline.
pub open spec fn pruning_state_bytes(s: WirePruningState) -> Seq<u8> {
    match s {
        WirePruningState::Initialized(owner, seen) => seq![1u8] + field_bytes(encode_utf8(owner)) + be64(
            seen.len() as u64,
        ) + replica_list_bytes(seen),
        WirePruningState::Performed(obsolete_at_millis) => seq![2u8] + be64(obsolete_at_millis),
    }
}

/// The bytes of pruning entries, in order: the removed replica's field,
/// then its state.
pub open spec fn pruning_entries_bytes(es: Seq<(Seq<char>, WirePruningState)>) -> Seq<u8>
    decreases es.len(),
{
    if es.len() == 0 {
        Seq::empty()
    } else {
        pruning_entries_bytes(es.drop_last()) + field_bytes(encode_utf8(es.last().0))
            + pruning_state_bytes(es.last().1)
    }
}

/// The bytes an envelope is hashed as: the manifest field, the big-endian
/// schema version, the payload field and the pruning entries.
pub open spec fn envelope_bytes(v: EnvelopeView) -> Seq<u8> {
    field_bytes(encode_utf8(v.manifest)) + be16(v.version) + field_bytes(v.payload) + pruning_entries_bytes(
        v.pruning,
    )
}

/// FNV-1a takes each byte in turn: the hash is XORed with the byte, then
/// multiplied by the FNV prime, wrapping.
pub proof fn lemma_fnv_one_byte(hash: u64, b: u8)
    ensures
        fnv(hash, seq![b]) == (hash ^ (b as u64)).wrapping_mul(FNV_PRIME),
        fnv(hash, Seq::empty()) == hash,
{
    reveal_with_fuel(fnv, 2);
    assert(seq![b].drop_last() =~= Seq::<u8>::empty());
    assert(seq![b].last() == b);
    assert(fnv(hash, seq![b].drop_last()) == hash);
}

/// Hashing two byte strings in turn is hashing them joined.
pub proof fn lemma_fnv_concat(hash: u64, a: Seq<u8>, b: Seq<u8>)
    ensures
        fnv(hash, a + b) == fnv(fnv(hash, a), b),
    decreases b.len(),
{
    if b.len() == 0 {
        assert(a + b =~= a);
    } else {
        lemma_fnv_concat(hash, a, b.drop_last());
        assert((a + b).drop_last() =~= a + b.drop_last());
        assert((a + b).last() == b.last());
    }
}

proof fn lemma_fnv_replicas_bytes(hash: u64, rs: Seq<Seq<char>>)
    ensures
        fnv_replicas(hash, rs) == fnv(hash, replica_list_bytes(rs)),
    decreases rs.len(),
{
    if rs.len() > 0 {
        lemma_fnv_replicas_bytes(hash, rs.drop_last());
        let f = encode_utf8(rs.last());
        lemma_fnv_concat(hash, replica_list_bytes(rs.drop_last()), field_bytes(f));
        lemma_fnv_concat(fnv(hash, replica_list_bytes(rs.drop_last())), be64(f.len() as u64), f);
    }
}

proof fn lemma_fnv_state_bytes(hash: u64, s: WirePruningState)
    ensures
        fnv_wire_state(hash, s) == fnv(hash, pruning_state_bytes(s)),
{
    match s {
        WirePruningState::Initialized(owner, seen) => {
            let f = encode_utf8(owner);
            let h1 = fnv(hash, seq![1u8]);
            lemma_fnv_concat(h1, be64(f.len() as u64), f);
            let h2 = fnv_replica(h1, owner);
            lemma_fnv_replicas_bytes(fnv(h2, be64(seen.len() as u64)), seen);
            lemma_fnv_concat(hash, seq![1u8], field_bytes(f));
            lemma_fnv_concat(hash, seq![1u8] + field_bytes(f), be64(seen.len() as u64));
            lemma_fnv_concat(
                hash,
                seq![1u8] + field_bytes(f) + be64(seen.len() as u64),
                replica_list_bytes(seen),
            );
        },
        WirePruningState::Performed(at) => {
            lemma_fnv_concat(hash, seq![2u8], be64(at));
        },
    }
}

proof fn lemma_fnv_entries_bytes(hash: u64, es: Seq<(Seq<char>, WirePruningState)>)
    ensures
        fnv_wire(hash, es) == fnv(hash, pruning_entries_bytes(es)),
    decreases es.len(),
{
    if es.len() > 0 {
        lemma_fnv_entries_bytes(hash, es.drop_last());
        let prev = pruning_entries_bytes(es.drop_last());
        let f = encode_utf8(es.last().0);
        lemma_fnv_concat(fnv(hash, prev), be64(f.len() as u64), f);
        lemma_fnv_concat(hash, prev, field_bytes(f));
        lemma_fnv_state_bytes(fnv(hash, prev + field_bytes(f)), es.last().1);
        lemma_fnv_concat(hash, prev + field_bytes(f), pruning_state_bytes(es.last().1));
    }
}

/// The digest of an encoded envelope is the 64-bit FNV-1a hash, from the
/// offset basis, of its bytes laid out as [`envelope_bytes`] says (moved off
/// the not-found sentinel): manifest, version, payload, and every pruning
/// entry with its state, an initialized marker's owner and observers
/// included. This holds of the abstract envelope and of its record.
pub proof fn lemma_digest_is_fnv_of_bytes(e: ReplicatorDataEnvelope)
    ensures
        digest_of(e@) == non_zero(fnv(FNV_OFFSET_BASIS, envelope_bytes(e@))),
        envelope_digest(e) == non_zero(fnv(FNV_OFFSET_BASIS, envelope_bytes(e@))),
{
    let v = e@;
    let m = encode_utf8(v.manifest);
    let a = field_bytes(m);
    let b = a + be16(v.version);
    let c = b + field_bytes(v.payload);
    lemma_fnv_concat(FNV_OFFSET_BASIS, be64(m.len() as u64), m);
    lemma_fnv_concat(FNV_OFFSET_BASIS, a, be16(v.version));
    lemma_fnv_concat(fnv(FNV_OFFSET_BASIS, b), be64(v.payload.len() as u64), v.payload);
    lemma_fnv_concat(FNV_OFFSET_BASIS, b, field_bytes(v.payload));
    lemma_fnv_entries_bytes(fnv(FNV_OFFSET_BASIS, c), v.pruning);
    lemma_fnv_concat(FNV_OFFSET_BASIS, c, pruning_entries_bytes(v.pruning));
    lemma_digest_of_view(e);
}

/// The digest of every local envelope, by key.
pub fn digests_of(local: &SortedMap<ReplicatorKey, ReplicatorDataEnvelope>) -> (r: SortedMap<
    ReplicatorKey,
    u64,
>)
    requires
        local.wf(),
    ensures
        r.wf(),
        r@ == local@.map_values(|v: EnvelopeView| digest_of(v)),
{
    let ghost ks = local.key_seq();
    let ghost vs = local.value_seq();
    proof {
        local.lemma_wf();
        lemma_prefix_map_ends(ks, vs);
    }
    let mut out: SortedMap<ReplicatorKey, u64> = SortedMap::new();
    let n = local.len();
    let mut i: usize = 0;
    proof {
        assert(out@ =~= prefix_map(ks, vs, 0).map_values(|v: EnvelopeView| digest_of(v)));
    }
    while i < n
        invariant
            local.wf(),
            out.wf(),
            ks == local.key_seq(),
            vs == local.value_seq(),
            n == ks.len(),
            n == vs.len(),
            strictly_sorted(ks),
            i <= n,
            out@ == prefix_map(ks, vs, i as int).map_values(|v: EnvelopeView| digest_of(v)),
        decreases n - i,
    {
        proof {
            lemma_prefix_map_step(ks, vs, i as int);
        }
        let env = local.value_at(i);
        let d = digest_envelope(env);
        proof {
            lemma_digest_of_view(*env);
        }
        out.insert(local.key_at(i).duplicate(), d);
        proof {
            assert(out@ =~= prefix_map(ks, vs, i as int + 1).map_values(|v: EnvelopeView| digest_of(v)));
        }
        i = i + 1;
    }
    proof {
        lemma_prefix_map_ends(ks, vs);
    }
    out
}

/// Abstract gossip entries: key, envelope and last-use timestamp.
pub open spec fn gossip_entries_view(s: Seq<ReplicatorGossipEntry>) -> Seq<(Seq<char>, EnvelopeView, u64)> {
    s.map_values(|e: ReplicatorGossipEntry| (e.key@, e.envelope@, e.used_timestamp_millis))
}

/// Gossip entries for the keys `ks` held locally, in order; absent keys are skipped.
pub open spec fn entries_for(ks: Seq<Seq<char>>, local: Map<Seq<char>, EnvelopeView>) -> Seq<
    (Seq<char>, EnvelopeView, u64),
>
    decreases ks.len(),
{
    if ks.len() == 0 {
        Seq::empty()
    } else {
        let rest = entries_for(ks.drop_last(), local);
        if local.contains_key(ks.last()) {
            rest.push((ks.last(), local[ks.last()], 0u64))
        } else {
            rest
        }
    }
}

/// Encodes the existing envelopes for `keys` as one full-state gossip message.
///
/// Requested keys that are absent locally are skipped. The supplied
/// incarnation metadata and `send_back` flag are kept unchanged.
pub fn create_gossip(
    local: &SortedMap<ReplicatorKey, ReplicatorDataEnvelope>,
    keys: &Vec<ReplicatorKey>,
    send_back: bool,
    to_system_uid: Option<u64>,
    from_system_uid: Option<u64>,
) -> (r: ReplicatorGossip)
    requires
        local.wf(),
    ensures
        gossip_entries_view(r.entries@) == entries_for(keys_view(keys@), local@),
        r.send_back == send_back,
        r.to_system_uid == to_system_uid,
        r.from_system_uid == from_system_uid,
{
    let ghost ks = keys_view(keys@);
    let mut entries: Vec<ReplicatorGossipEntry> = Vec::new();
    let n = keys.len();
    let mut i: usize = 0;
    while i < n
        invariant
            local.wf(),
            n == keys@.len(),
            ks == keys_view(keys@),
            i <= n,
            gossip_entries_view(entries@) == entries_for(ks.take(i as int), local@),
        decreases n - i,
    {
        proof {
            assert(ks.take(i as int + 1).drop_last() =~= ks.take(i as int));
            assert(ks.take(i as int + 1).last() == ks[i as int]);
        }
        let key = &keys[i];
        match local.get(key.as_str()) {
            Some(env) => {
                let entry = ReplicatorGossipEntry {
                    key: key.as_str().to_string(),
                    envelope: env.duplicate(),
                    used_timestamp_millis: 0,
                };
                let ghost prev = entries@;
                entries.push(entry);
                proof {
                    assert(gossip_entries_view(entries@) =~= gossip_entries_view(prev).push(
                        (entry.key@, entry.envelope@, 0u64),
                    ));
                }
            },
            None => {},
        }
        i = i + 1;
    }
    proof {
        assert(ks.take(n as int) =~= ks);
    }
    ReplicatorGossip { entries, send_back, to_system_uid, from_system_uid }
}

/// Plans the full-state and missing-key responses to a peer's gossip status.
///
/// Different digests, including the peer's not-found sentinel, request
/// bounded full-state gossip, flagged for send-back; local keys of the chunk
/// absent from the status are also sent. Peer keys absent locally produce a
/// status carrying the not-found sentinel. Both responses are addressed back
/// to the status sender. `max_entries` must be greater than zero.
pub fn respond_to_gossip_status(
    local: &SortedMap<ReplicatorKey, ReplicatorDataEnvelope>,
    status: &ReplicatorGossipStatus,
    max_entries: usize,
) -> (r: Result<ReplicatorGossipStatusPlan, ReplicatorGossipError>)
    requires
        local.wf(),
    ensures
        match r {
            Err(e) => if !(status.total_chunks != 0 && status.chunk < status.total_chunks) {
                e == (ReplicatorGossipError::InvalidChunk {
                    chunk: status.chunk,
                    total_chunks: status.total_chunks,
                })
            } else {
                max_entries == 0 && e == ReplicatorGossipError::ZeroMaxEntries
            },
            Ok(p) => {
                let es = digests_view(status.entries@);
                let digests = local@.map_values(|v: EnvelopeView| digest_of(v));
                let send = keys_to_send(es, digests, status.chunk, status.total_chunks, max_entries);
                let missing = keys_missing(es, digests, status.chunk, status.total_chunks);
                &&& status.total_chunks != 0 && status.chunk < status.total_chunks
                &&& max_entries != 0
                &&& match p.gossip_spec() {
                    None => send.len() == 0,
                    Some(g) => {
                        &&& send.len() > 0
                        &&& gossip_entries_view(g.entries@) == entries_for(send, local@)
                        &&& g.send_back == (differing(es, digests).len() > 0)
                        &&& g.to_system_uid == status.from_system_uid
                        &&& g.from_system_uid == status.to_system_uid
                    },
                }
                &&& match p.missing_status_spec() {
                    None => missing.len() == 0,
                    Some(m) => {
                        &&& missing.len() > 0
                        &&& digests_view(m.entries@) == missing.map_values(
                            |k: Seq<char>| (k, REPLICATOR_GOSSIP_NOT_FOUND_DIGEST, 0u64),
                        )
                        &&& m.chunk == status.chunk
                        &&& m.total_chunks == status.total_chunks
                        &&& m.to_system_uid == status.from_system_uid
                        &&& m.from_system_uid == status.to_system_uid
                    },
                }
            },
        },
{
    let digests = digests_of(local);
    match plan_status_response(&digests, status, max_entries) {
        Err(e) => Err(e),
        Ok(response) => {
            let gossip = if response.send_keys.len() > 0 {
                Some(
                    create_gossip(
                        local,
                        &response.send_keys,
                        response.send_back,
                        status.from_system_uid,
                        status.to_system_uid,
                    ),
                )
            } else {
                None
            };
            Ok(ReplicatorGossipStatusPlan::new(gossip, response.missing_status))
        },
    }
}

/// The two independent responses that may result from a gossip status.
///
/// `gossip` supplies values the peer lacks or holds differently;
/// `missing_status` asks the peer for values absent locally.
#[derive(Debug, Clone, PartialEq, Eq)]
pub struct ReplicatorGossipStatusPlan {
    gossip: Option<ReplicatorGossip>,
    missing_status: Option<ReplicatorGossipStatus>,
}

impl ReplicatorGossipStatusPlan {
    /// Planned full-state response.
    pub closed spec fn gossip_spec(&self) -> Option<ReplicatorGossip> {
        self.gossip
    }

    /// Planned missing-key status response.
    pub closed spec fn missing_status_spec(&self) -> Option<ReplicatorGossipStatus> {
        self.missing_status
    }

    /// Creates a status-response plan from optional full-state and missing-key messages.
    pub fn new(gossip: Option<ReplicatorGossip>, missing_status: Option<ReplicatorGossipStatus>) -> (r:
        Self)
        ensures
            r.gossip_spec() == gossip,
            r.missing_status_spec() == missing_status,
    {
        ReplicatorGossipStatusPlan { gossip, missing_status }
    }

    /// The planned full-state gossip response, if any.
    pub fn gossip(&self) -> (r: Option<&ReplicatorGossip>)
        ensures
            match r {
                Some(g) => self.gossip_spec() == Some(*g),
                None => self.gossip_spec() is None,
            },
    {
        self.gossip.as_ref()
    }

    /// The planned missing-key status response, if any.
    pub fn missing_status(&self) -> (r: Option<&ReplicatorGossipStatus>)
        ensures
            match r {
                Some(m) => self.missing_status_spec() == Some(*m),
                None => self.missing_status_spec() is None,
            },
    {
        self.missing_status.as_ref()
    }

    /// Consumes the plan into its independent response messages.
    pub fn into_parts(self) -> (r: (Option<ReplicatorGossip>, Option<ReplicatorGossipStatus>))
        ensures
            r == (self.gossip_spec(), self.missing_status_spec()),
    {
        (self.gossip, self.missing_status)
    }
}

/// The observable result of applying one full-state gossip message.
pub struct ReplicatorGossipApplyReport {
    changed_keys: SortedSet<ReplicatorKey>,
    reply: Option<ReplicatorGossip>,
}

impl ReplicatorGossipApplyReport {
    /// Keys changed by the merge.
    pub closed spec fn changed_spec(&self) -> Set<Seq<char>> {
        self.changed_keys@
    }

    /// Full-state send-back response.
    pub closed spec fn reply_spec(&self) -> Option<ReplicatorGossip> {
        self.reply
    }

    /// Whether the report's key set is well formed.
    pub closed spec fn wf(&self) -> bool {
        self.changed_keys.wf()
    }

    /// Creates an apply report from changed keys and an optional reply.
    pub fn new(changed_keys: SortedSet<ReplicatorKey>, reply: Option<ReplicatorGossip>) -> (r: Self)
        requires
            changed_keys.wf(),
        ensures
            r.wf(),
            r.changed_spec() == changed_keys@,
            r.reply_spec() == reply,
    {
        ReplicatorGossipApplyReport { changed_keys, reply }
    }

    /// The keys changed by the merge, in ascending order.
    pub fn changed_keys(&self) -> (r: &SortedSet<ReplicatorKey>)
        requires
            self.wf(),
        ensures
            r.wf(),
            r@ == self.changed_spec(),
    {
        &self.changed_keys
    }

    /// The full-state send-back response, if one was requested and needed.
    pub fn reply(&self) -> (r: Option<&ReplicatorGossip>)
        ensures
            match r {
                Some(g) => self.reply_spec() == Some(*g),
                None => self.reply_spec() is None,
            },
    {
        self.reply.as_ref()
    }
}

} // verus!
