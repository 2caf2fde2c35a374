//! Merging received full-state gossip into local replicated state.
//!
//! Each entry is decoded with the value codec and merged under its key, in
//! order; the first entry that does not decode ends the pass with an error.
//! When the sender asked for a send-back, keys the receiver already held, or
//! that carry pruning markers after the merge, are returned in one
//! full-state reply addressed back to the sender.
use vstd::prelude::*;

use crate::aggregation_wire::encoded_pruning;
use crate::data::ReplicatedData;
use crate::envelope::EnvelopeStore;
use crate::gossip::{ReplicatorGossipApplyReport, ReplicatorGossipError};
use crate::key::ReplicatorKey;
use crate::protocol::{wire_entries_view, ReplicatorGossip, ReplicatorGossipEntry, WirePruningState};
use crate::pruning::PTable;
use crate::sorted_map::Duplicate;
use crate::sorted_set::SortedSet;
use crate::wire_codec::{
    decode_data_envelope, decode_error_message, decoded_by, encode_data_envelope, envelope_refusal,
    CrdtDataCodec, WireErrorView,
};

verus! {

/// The keys named by gossip entries.
pub open spec fn gossip_keys(entries: Seq<ReplicatorGossipEntry>) -> Set<Seq<char>> {
    Set::new(|k: Seq<char>| exists|i: int| 0 <= i < entries.len() && entries[i].key@ == k)
}

/// The keys of the entries whose write reported a change.
pub open spec fn flagged_keys(entries: Seq<ReplicatorGossipEntry>, flags: Seq<bool>) -> Set<Seq<char>> {
    Set::new(|k: Seq<char>| exists|j: int| 0 <= j < flags.len() && flags[j] && entries[j].key@ == k)
}

/// Whether `states` is a merge pass over the first `envs.len()` gossip
/// entries: `envs[j]` is what `codec` decodes entry `j`'s record to, and it
/// was merged under the entry's key into `states[j]` by a full-state write,
/// giving `states[j + 1]` and reporting `flags[j]`.
pub open spec fn gossip_pass<D: View, S: EnvelopeStore<D>, C: CrdtDataCodec<D>>(
    codec: C,
    entries: Seq<ReplicatorGossipEntry>,
    envs: Seq<(D::V, PTable)>,
    flags: Seq<bool>,
    states: Seq<S>,
) -> bool {
    &&& envs.len() <= entries.len()
    &&& flags.len() == envs.len()
    &&& states.len() == envs.len() + 1
    &&& forall|j: int|
        0 <= j < envs.len() ==> decoded_by::<D, C>(codec, entries[j].envelope, #[trigger] envs[j])
    &&& forall|j: int|
        #![trigger flags[j]]
        0 <= j < envs.len() ==> S::full_merged(states[j], entries[j].key@, envs[j], None, states[j + 1], flags[j])
}

/// What a pass saw of each merged entry's key: `held[j]`, whether
/// `states[j]` held a value under it before the write, and `stored[j]`, the
/// envelope `states[j + 1]` holds under it after.
pub open spec fn gossip_seen<D: View, S: EnvelopeStore<D>>(
    entries: Seq<ReplicatorGossipEntry>,
    states: Seq<S>,
    held: Seq<bool>,
    stored: Seq<Option<(D::V, PTable)>>,
) -> bool {
    &&& held.len() + 1 == states.len()
    &&& stored.len() == held.len()
    &&& forall|j: int| 0 <= j < held.len() ==> S::holds_key(states[j], entries[j].key@, #[trigger] held[j])
    &&& forall|j: int| 0 <= j < held.len() ==> S::stored_as(states[j + 1], entries[j].key@, #[trigger] stored[j])
}

/// The keys a send-back returns, in entry order: those held before their
/// write, or carrying pruning markers after it.
pub open spec fn send_back_keys<V>(
    entries: Seq<ReplicatorGossipEntry>,
    held: Seq<bool>,
    stored: Seq<Option<(V, PTable)>>,
) -> Seq<Seq<char>>
    decreases held.len(),
{
    if held.len() == 0 {
        Seq::empty()
    } else {
        let j = held.len() - 1;
        let rest = send_back_keys(entries, held.drop_last(), stored.drop_last());
        if held[j] || (stored[j] matches Some(e) && e.1 != PTable::empty()) {
            rest.push(entries[j].key@)
        } else {
            rest
        }
    }
}

/// Key and encoded pruning markers of each gossip entry.
pub open spec fn entry_records(es: Seq<ReplicatorGossipEntry>) -> Seq<(Seq<char>, Seq<(Seq<char>, WirePruningState)>)> {
    Seq::new(es.len(), |i: int| (es[i].key@, wire_entries_view(es[i].envelope.pruning@)))
}

/// Key and encoded pruning markers of each key of `keys` that is stored,
/// in order, `found[i]` being what is stored under `keys[i]`.
pub open spec fn held_records<V>(keys: Seq<Seq<char>>, found: Seq<Option<(V, PTable)>>) -> Seq<
    (Seq<char>, Seq<(Seq<char>, WirePruningState)>),
>
    decreases keys.len(),
{
    if keys.len() == 0 {
        Seq::empty()
    } else {
        let i = keys.len() - 1;
        let rest = held_records(keys.drop_last(), found.take(i));
        match found[i] {
            Some(e) => rest.push((keys[i], encoded_pruning(e.1))),
            None => rest,
        }
    }
}

/// Whether `es` are the entries that encoding the envelopes `store` holds
/// under `keys` gives: `found[i]` is what it holds under `keys[i]`, and the
/// entries are the stored keys, in order, with their pruning markers.
pub open spec fn encoded_from<D: View, S: EnvelopeStore<D>>(
    store: S,
    keys: Seq<Seq<char>>,
    found: Seq<Option<(D::V, PTable)>>,
    es: Seq<ReplicatorGossipEntry>,
) -> bool {
    &&& found.len() == keys.len()
    &&& forall|i: int| 0 <= i < keys.len() ==> S::stored_as(store, keys[i], #[trigger] found[i])
    &&& entry_records(es) == held_records(keys, found)
    &&& forall|i: int| 0 <= i < es.len() ==> (#[trigger] es[i]).used_timestamp_millis == 0
}

/// Whether a pass merged the first `envs.len()` entries as `gossip_pass`
/// says and, when a send-back was asked for, saw their keys as
/// `gossip_seen` says.
pub open spec fn gossip_applied<D: View, S: EnvelopeStore<D>, C: CrdtDataCodec<D>>(
    codec: C,
    entries: Seq<ReplicatorGossipEntry>,
    send_back: bool,
    envs: Seq<(D::V, PTable)>,
    flags: Seq<bool>,
    states: Seq<S>,
    held: Seq<bool>,
    stored: Seq<Option<(D::V, PTable)>>,
) -> bool {
    &&& gossip_pass::<D, S, C>(codec, entries, envs, flags, states)
    &&& send_back ==> gossip_seen::<D, S>(entries, states, held, stored)
}

/// The characters of each key.
pub open spec fn key_views(keys: Seq<ReplicatorKey>) -> Seq<Seq<char>> {
    keys.map_values(|k: ReplicatorKey| k@)
}

/// Encodes the stored envelopes of `keys` with `codec` as gossip entries,
/// in order, skipping keys with nothing stored.
fn encode_entries<D: ReplicatedData, S: EnvelopeStore<D>, C: CrdtDataCodec<D>>(
    store: &S,
    keys: &Vec<ReplicatorKey>,
    codec: &C,
) -> (r: Result<Vec<ReplicatorGossipEntry>, ReplicatorGossipError>)
    ensures
        r matches Ok(es) ==> exists|found: Seq<Option<(D::V, PTable)>>|
            #[trigger] encoded_from::<D, S>(*store, key_views(keys@), found, es@),
        r matches Err(e) ==> e is Serialization,
        r matches Err(ReplicatorGossipError::Serialization(reason)) ==> exists|k: Seq<char>, env: (D::V, PTable)|
            #[trigger] S::stored_as(*store, k, Some(env)) && codec.refuses_data(env.0, reason@),
        keys@.len() == 0 ==> (r matches Ok(es) && es@.len() == 0),
{
    let ghost kv = key_views(keys@);
    let ghost mut found: Seq<Option<(D::V, PTable)>> = Seq::empty();
    let mut entries: Vec<ReplicatorGossipEntry> = Vec::new();
    let n = keys.len();
    let mut i: usize = 0;
    proof {
        assert(entry_records(entries@) =~= held_records::<D::V>(kv.take(0), found));
    }
    while i < n
        invariant
            n == keys@.len(),
            kv == key_views(keys@),
            i <= n,
            found.len() == i,
            forall|j: int| 0 <= j < i ==> S::stored_as(*store, kv[j], #[trigger] found[j]),
            entry_records(entries@) == held_records::<D::V>(kv.take(i as int), found),
            forall|j: int| 0 <= j < entries@.len() ==> (#[trigger] entries@[j]).used_timestamp_millis == 0,
        decreases n - i,
    {
        let key = &keys[i];
        let looked = store.envelope(key);
        let ghost f = match looked {
            Some(e) => Some(e@),
            None => None,
        };
        let ghost before = entries@;
        match looked {
            Some(envelope) => match encode_data_envelope(envelope, codec) {
                Ok(wire) => {
                    entries.push(
                        ReplicatorGossipEntry {
                            key: key.as_str().to_string(),
                            envelope: wire,
                            used_timestamp_millis: 0,
                        },
                    );
                },
                Err(reason) => {
                    proof {
                        assert(S::stored_as(*store, key@, Some(envelope@)));
                    }
                    return Err(ReplicatorGossipError::Serialization(reason));
                },
            },
            None => {},
        }
        proof {
            let found2 = found.push(f);
            let t2 = kv.take(i + 1);
            assert(t2.drop_last() =~= kv.take(i as int));
            assert(found2.take(i as int) =~= found);
            assert(t2[i as int] == key@);
            match f {
                Some(e) => {
                    assert(entry_records(entries@) =~= entry_records(before).push((key@, encoded_pruning(e.1))));
                },
                None => {
                    assert(entry_records(entries@) =~= entry_records(before));
                },
            }
            assert(held_records::<D::V>(t2, found2) == entry_records(entries@));
            found = found2;
        }
        i = i + 1;
    }
    proof {
        assert(kv.take(n as int) =~= kv);
        assert(encoded_from::<D, S>(*store, key_views(keys@), found, entries@));
    }
    let r: Result<Vec<ReplicatorGossipEntry>, ReplicatorGossipError> = Ok(entries);
    proof {
        assert(r matches Ok(es) && es@ == entries@);
    }
    r
}

/// Decodes and merges full-state gossip into `store`.
///
/// Entries are merged in order by full-state writes. The report names the
/// keys whose write reported a change and, only when the sender asked for
/// a send-back and some key was already held before its write or carries
/// pruning markers after it, a reply with the envelopes the store then
/// holds under those keys, itself not asking for a send-back and addressed
/// back to the sender. A decoding or encoding failure is reported as a
/// serialization error; entries before it stay merged.
pub fn apply_gossip<D: ReplicatedData, S: EnvelopeStore<D>, C: CrdtDataCodec<D>>(
    store: &mut S,
    gossip: &ReplicatorGossip,
    codec: &C,
) -> (r: Result<ReplicatorGossipApplyReport, ReplicatorGossipError>)
    ensures
        r matches Err(e) ==> e is Serialization,
        r matches Ok(report) ==> {
            &&& report.wf()
            &&& report.changed_spec().subset_of(gossip_keys(gossip.entries@))
            &&& match report.reply_spec() {
                None => true,
                Some(reply) => {
                    &&& gossip.send_back
                    &&& !reply.send_back
                    &&& reply.to_system_uid == gossip.from_system_uid
                    &&& reply.from_system_uid == gossip.to_system_uid
                },
            }
        },
        gossip.entries@.len() == 0 ==> (r matches Ok(report) && report.changed_spec().is_empty()
            && report.reply_spec() is None),
        exists|
            envs: Seq<(D::V, PTable)>,
            flags: Seq<bool>,
            states: Seq<S>,
            held: Seq<bool>,
            stored: Seq<Option<(D::V, PTable)>>,
        |
            {
                &&& #[trigger] gossip_applied::<D, S, C>(
                    *codec,
                    gossip.entries@,
                    gossip.send_back,
                    envs,
                    flags,
                    states,
                    held,
                    stored,
                )
                &&& states[0] == *old(store)
                &&& states.last() == *final(store)
                &&& r is Ok ==> envs.len() == gossip.entries@.len()
                &&& r matches Err(ReplicatorGossipError::Serialization(reason)) ==> {
                    ||| envs.len() < gossip.entries@.len() && exists|e: WireErrorView|
                        #[trigger] envelope_refusal::<D, C>(*codec, gossip.entries@[envs.len() as int].envelope, e)
                            && reason@ == decode_error_message(e)
                    ||| envs.len() == gossip.entries@.len() && exists|k: Seq<char>, env: (D::V, PTable)|
                        #[trigger] S::stored_as(*final(store), k, Some(env)) && codec.refuses_data(env.0, reason@)
                }
                &&& r matches Ok(report) ==> {
                    &&& report.changed_spec() == flagged_keys(gossip.entries@, flags)
                    &&& (report.reply_spec() is Some <==> gossip.send_back && send_back_keys(
                        gossip.entries@,
                        held,
                        stored,
                    ).len() > 0)
                    &&& report.reply_spec() matches Some(reply) ==> exists|
                        found: Seq<Option<(D::V, PTable)>>,
                    |
                        #[trigger] encoded_from::<D, S>(
                            *final(store),
                            send_back_keys(gossip.entries@, held, stored),
                            found,
                            reply.entries@,
                        )
                }
            },
{
    let ghost mut envs: Seq<(D::V, PTable)> = Seq::empty();
    let ghost mut flags: Seq<bool> = Seq::empty();
    let ghost mut states: Seq<S> = seq![*store];
    let ghost mut held: Seq<bool> = Seq::empty();
    let ghost mut stored: Seq<Option<(D::V, PTable)>> = Seq::empty();
    let mut changed = SortedSet::new();
    let mut reply_keys: Vec<ReplicatorKey> = Vec::new();
    let n = gossip.entries.len();
    let mut i: usize = 0;
    proof {
        assert(key_views(reply_keys@) =~= send_back_keys(gossip.entries@, held, stored));
    }
    while i < n
        invariant
            n == gossip.entries@.len(),
            i <= n,
            changed.wf(),
            forall|k: Seq<char>|
                changed@.contains(k) ==> exists|j: int| 0 <= j < i && gossip.entries@[j].key@ == k,
            !gossip.send_back ==> reply_keys@.len() == 0,
            envs.len() == i,
            held.len() == i,
            states[0] == *old(store),
            states.last() == *store,
            gossip_applied::<D, S, C>(*codec, gossip.entries@, gossip.send_back, envs, flags, states, held, stored),
            changed@ == flagged_keys(gossip.entries@, flags),
            gossip.send_back ==> key_views(reply_keys@) == send_back_keys(gossip.entries@, held, stored),
        decreases n - i,
    {
        let entry = &gossip.entries[i];
        let key = ReplicatorKey::new(entry.key.as_str());
        let had_data = store.contains_key(&key);
        let envelope = match decode_data_envelope(&entry.envelope, codec) {
            Ok(envelope) => envelope,
            Err(error) => {
                proof {
                    assert(gossip_applied::<D, S, C>(
                        *codec,
                        gossip.entries@,
                        gossip.send_back,
                        envs,
                        flags,
                        states,
                        held,
                        stored,
                    ));
                }
                return Err(ReplicatorGossipError::Serialization(error.message()));
            },
        };
        let ghost e = envelope@;
        let ghost mid = *store;
        let wrote = store.write_full(key.duplicate(), envelope);
        if wrote {
            changed.insert(key.duplicate());
        }
        let ghost mut seen: Option<(D::V, PTable)> = None;
        let ghost old_reply = reply_keys@;
        if gossip.send_back {
            let looked = store.envelope(&key);
            proof {
                seen = match looked {
                    Some(x) => Some(x@),
                    None => None,
                };
            }
            let has_pruning = match looked {
                Some(stored_envelope) => !stored_envelope.pruning().is_empty(),
                None => false,
            };
            if had_data || has_pruning {
                reply_keys.push(key);
            }
        }
        proof {
            let envs2 = envs.push(e);
            let flags2 = flags.push(wrote);
            let states2 = states.push(*store);
            let held2 = held.push(had_data);
            let stored2 = stored.push(seen);
            assert(states2[i as int] == mid);
            assert forall|j: int| 0 <= j < envs2.len() implies decoded_by::<D, C>(
                *codec,
                gossip.entries@[j].envelope,
                #[trigger] envs2[j],
            ) by {
                if j < envs.len() {
                    assert(envs2[j] == envs[j]);
                }
            }
            assert forall|j: int|
                #![trigger flags2[j]]
                0 <= j < envs2.len() implies S::full_merged(
                states2[j],
                gossip.entries@[j].key@,
                envs2[j],
                None,
                states2[j + 1],
                flags2[j],
            ) by {
                if j < envs.len() {
                    assert(flags2[j] == flags[j]);
                    assert(states2[j] == states[j]);
                    assert(states2[j + 1] == states[j + 1]);
                    assert(envs2[j] == envs[j]);
                }
            }
            if gossip.send_back {
                assert forall|j: int| 0 <= j < held2.len() implies S::holds_key(
                    states2[j],
                    gossip.entries@[j].key@,
                    #[trigger] held2[j],
                ) by {
                    if j < held.len() {
                        assert(held2[j] == held[j]);
                        assert(states2[j] == states[j]);
                    }
                }
                assert forall|j: int| 0 <= j < held2.len() implies S::stored_as(
                    states2[j + 1],
                    gossip.entries@[j].key@,
                    #[trigger] stored2[j],
                ) by {
                    if j < held.len() {
                        assert(stored2[j] == stored[j]);
                        assert(states2[j + 1] == states[j + 1]);
                    }
                }
                assert(held2.drop_last() =~= held);
                assert(stored2.drop_last() =~= stored);
                assert(key_views(reply_keys@) =~= send_back_keys(gossip.entries@, held2, stored2));
            }
            assert(gossip_applied::<D, S, C>(*codec, gossip.entries@, gossip.send_back, envs2, flags2, states2, held2, stored2));
            assert(changed@ =~= flagged_keys(gossip.entries@, flags2)) by {
                assert forall|k: Seq<char>| changed@.contains(k) implies flagged_keys(gossip.entries@, flags2).contains(k) by {
                    if k != key@ || !wrote {
                        let j = choose|j: int| 0 <= j < flags.len() && flags[j] && gossip.entries@[j].key@ == k;
                        assert(flags2[j] == flags[j]);
                    } else {
                        assert(flags2[i as int] && gossip.entries@[i as int].key@ == k);
                    }
                }
                assert forall|k: Seq<char>| flagged_keys(gossip.entries@, flags2).contains(k) implies changed@.contains(k) by {
                    let j = choose|j: int| 0 <= j < flags2.len() && flags2[j] && gossip.entries@[j].key@ == k;
                    if j < flags.len() {
                        assert(flags2[j] == flags[j]);
                        assert(flagged_keys(gossip.entries@, flags).contains(k));
                    }
                }
            }
            envs = envs2;
            flags = flags2;
            states = states2;
            held = held2;
            stored = stored2;
        }
        i = i + 1;
    }
    proof {
        if n == 0 {
            assert(changed@ =~= Set::<Seq<char>>::empty());
        }
        assert forall|k: Seq<char>| changed@.contains(k) implies gossip_keys(gossip.entries@).contains(k) by {
            let j = choose|j: int| 0 <= j < n && gossip.entries@[j].key@ == k;
        }
        assert(gossip_applied::<D, S, C>(*codec, gossip.entries@, gossip.send_back, envs, flags, states, held, stored));
    }
    if reply_keys.len() == 0 {
        return Ok(ReplicatorGossipApplyReport::new(changed, None));
    }
    let entries = match encode_entries(store, &reply_keys, codec) {
        Ok(entries) => entries,
        Err(e) => {
            return Err(e);
        },
    };
    let ghost found = choose|found: Seq<Option<(D::V, PTable)>>|
        #[trigger] encoded_from::<D, S>(*store, key_views(reply_keys@), found, entries@);
    let ghost sbk = send_back_keys(gossip.entries@, held, stored);
    proof {
        assert(encoded_from::<D, S>(*store, sbk, found, entries@));
        assert(sbk.len() > 0);
    }
    let reply = ReplicatorGossip {
        entries,
        send_back: false,
        to_system_uid: gossip.from_system_uid,
        from_system_uid: gossip.to_system_uid,
    };
    let report = ReplicatorGossipApplyReport::new(changed, Some(reply));
    proof {
        let rep = report.reply_spec()->Some_0;
        assert(encoded_from::<D, S>(*store, sbk, found, rep.entries@));
        assert(exists|f: Seq<Option<(D::V, PTable)>>|
            #[trigger] encoded_from::<D, S>(*store, sbk, f, rep.entries@));
    }
    Ok(report)
}

} // verus!
