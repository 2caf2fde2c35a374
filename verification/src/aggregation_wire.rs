//! Wire records for direct reads and removed-replica pruning metadata.
//!
//! Pruning tables travel as entries in ascending removed-replica order; an
//! initialized marker lists its seen replicas in ascending order. Decoding
//! rejects a table that names a removed replica twice.
use vstd::prelude::*;

use crate::key::ReplicatorKey;
use crate::protocol::{
    wire_entries_view, ReplicatorPruningEntry, ReplicatorPruningState, ReplicatorRead,
    WirePruningState,
};
use crate::pruning::{pstate_seen, PState, PTable, PruningState, PruningTable};
use crate::replica::{ids_view, ReplicaId};
use crate::sorted_map::{
    lemma_sorted_keys_exist, lemma_sorted_keys_of, lemma_sorted_no_duplicates, sorted_keys,
    strictly_sorted, Duplicate,
};

verus! {

/// Builds the direct read request for `key`.
pub fn encode_read(key: &ReplicatorKey, from: Option<ReplicaId>) -> (r: ReplicatorRead)
    ensures
        r.key@ == key@,
        r.from == from,
{
    ReplicatorRead { key: key.as_str().to_string(), from }
}

/// Wire form of one marker: seen replicas in ascending order.
pub open spec fn wire_state(p: PState) -> WirePruningState {
    match p {
        PState::Initialized(o, s) => WirePruningState::Initialized(o, sorted_keys(s)),
        PState::Performed(m) => WirePruningState::Performed(m),
    }
}

/// Wire form of a pruning table: entries in ascending removed-replica order.
pub open spec fn encoded_pruning(t: PTable) -> Seq<(Seq<char>, WirePruningState)> {
    sorted_keys(t.dom()).map_values(|k: Seq<char>| (k, wire_state(t[k])))
}

/// Marker described by one wire state.
pub open spec fn decoded_state(w: WirePruningState) -> PState {
    match w {
        WirePruningState::Initialized(o, seen) => PState::Initialized(o, seen.to_set().remove(o)),
        WirePruningState::Performed(m) => PState::Performed(m),
    }
}

/// Table described by wire entries, or the first removed replica named twice.
pub open spec fn decode_entries(es: Seq<(Seq<char>, WirePruningState)>) -> Result<PTable, Seq<char>>
    decreases es.len(),
{
    if es.len() == 0 {
        Ok(PTable::empty())
    } else {
        match decode_entries(es.drop_last()) {
            Ok(t) => if t.contains_key(es.last().0) {
                Err(es.last().0)
            } else {
                Ok(t.insert(es.last().0, decoded_state(es.last().1)))
            },
            Err(e) => Err(e),
        }
    }
}

/// Encodes a pruning table in ascending removed-replica order.
pub fn encode_pruning_table(pruning: &PruningTable) -> (r: Vec<ReplicatorPruningEntry>)
    ensures
        wire_entries_view(r@) == encoded_pruning(pruning@),
{
    let states = pruning.states();
    let ghost ks = states.key_seq();
    let ghost t = pruning@;
    proof {
        states.lemma_wf();
        lemma_sorted_keys_of(ks);
    }
    let n = states.len();
    let mut out: Vec<ReplicatorPruningEntry> = Vec::new();
    let mut i: usize = 0;
    while i < n
        invariant
            states.wf(),
            t == states@,
            ks == states.key_seq(),
            n == ks.len(),
            sorted_keys(t.dom()) == ks,
            i <= n,
            wire_entries_view(out@) == encoded_pruning(t).take(i as int),
        decreases n - i,
    {
        proof {
            states.lemma_wf();
        }
        let removed = states.key_at(i).duplicate();
        let state = match states.value_at(i) {
            PruningState::Initialized(init) => {
                let seen_set = init.seen();
                let seen = seen_set.to_vec();
                proof {
                    seen_set.lemma_wf();
                    assert(ids_view(seen@) =~= seen_set.key_seq());
                    lemma_sorted_keys_of(seen_set.key_seq());
                }
                ReplicatorPruningState::Initialized { owner: init.owner().duplicate(), seen }
            },
            PruningState::Performed(p) => ReplicatorPruningState::Performed {
                obsolete_at_millis: p.obsolete_at_millis(),
            },
        };
        let entry = ReplicatorPruningEntry { removed, state };
        let ghost prev = out@;
        out.push(entry);
        proof {
            assert(entry@ == encoded_pruning(t)[i as int]);
            assert(wire_entries_view(out@) =~= wire_entries_view(prev).push(entry@));
            assert(encoded_pruning(t).take(i as int + 1) =~= encoded_pruning(t).take(i as int).push(
                encoded_pruning(t)[i as int],
            ));
        }
        i = i + 1;
    }
    proof {
        assert(encoded_pruning(t).take(n as int) =~= encoded_pruning(t));
    }
    out
}

/// A pruning table that names one removed replica twice.
#[derive(Debug, Clone, PartialEq, Eq)]
pub enum PruningDecodeError {
    /// `removed` has more than one entry.
    DuplicateEntry { removed: ReplicaId },
}

impl View for PruningDecodeError {
    type V = Seq<char>;

    open spec fn view(&self) -> Seq<char> {
        match self {
            PruningDecodeError::DuplicateEntry { removed } => removed@,
        }
    }
}

/// Decodes wire pruning entries; fails on the first removed replica named twice.
pub fn decode_pruning_table(entries: &[ReplicatorPruningEntry]) -> (r: Result<
    PruningTable,
    PruningDecodeError,
>)
    ensures
        match r {
            Ok(t) => decode_entries(wire_entries_view(entries@)) == Ok::<PTable, Seq<char>>(t@),
            Err(e) => decode_entries(wire_entries_view(entries@)) == Err::<PTable, Seq<char>>(e@),
        },
{
    let ghost es = wire_entries_view(entries@);
    let mut pruning = PruningTable::new();
    let n = entries.len();
    let mut i: usize = 0;
    while i < n
        invariant
            n == entries@.len(),
            es == wire_entries_view(entries@),
            i <= n,
            decode_entries(es.take(i as int)) == Ok::<PTable, Seq<char>>(pruning@),
        decreases n - i,
    {
        let entry = &entries[i];
        let ghost prefix = pruning@;
        proof {
            assert(es.take(i as int + 1).drop_last() =~= es.take(i as int));
            assert(es.take(i as int + 1).last() == entry@);
        }
        if pruning.get(&entry.removed).is_some() {
            proof {
                assert(es.take(i as int + 1).take(i + 1) =~= es.take(i as int + 1));
                lemma_decode_err_extends(es, i as int + 1);
            }
            return Err(PruningDecodeError::DuplicateEntry { removed: entry.removed.duplicate() });
        }
        match &entry.state {
            ReplicatorPruningState::Initialized { owner, seen } => {
                pruning.initialize(entry.removed.duplicate(), owner.duplicate());
                let ghost sv = ids_view(seen@);
                let m = seen.len();
                let mut j: usize = 0;
                proof {
                    assert(sv.take(0).to_set().remove(owner@) =~= Set::<Seq<char>>::empty());
                }
                while j < m
                    invariant
                        m == seen@.len(),
                        sv == ids_view(seen@),
                        j <= m,
                        pruning@ == prefix.insert(
                            entry.removed@,
                            PState::Initialized(owner@, sv.take(j as int).to_set().remove(owner@)),
                        ),
                    decreases m - j,
                {
                    pruning.mark_seen(&entry.removed, seen[j].duplicate());
                    proof {
                        assert(sv.take(j as int + 1) =~= sv.take(j as int).push(sv[j as int]));
                        sv.take(j as int).lemma_push_to_set_commute(sv[j as int]);
                        let before = sv.take(j as int).to_set().remove(owner@);
                        let after = sv.take(j as int + 1).to_set().remove(owner@);
                        if sv[j as int] == owner@ {
                            assert(after =~= before);
                        } else {
                            assert(after =~= before.insert(sv[j as int]));
                        }
                    }
                    j = j + 1;
                }
                proof {
                    assert(sv.take(m as int) =~= sv);
                }
            },
            ReplicatorPruningState::Performed { obsolete_at_millis } => {
                pruning.mark_performed(entry.removed.duplicate(), *obsolete_at_millis);
            },
        }
        i = i + 1;
    }
    proof {
        assert(es.take(n as int) =~= es);
    }
    Ok(pruning)
}

/// Once a prefix fails to decode, every longer prefix fails the same way.
proof fn lemma_decode_err_extends(es: Seq<(Seq<char>, WirePruningState)>, m: int)
    requires
        0 <= m <= es.len(),
        decode_entries(es.take(m)) is Err,
    ensures
        decode_entries(es) == decode_entries(es.take(m)),
    decreases es.len() - m,
{
    if m == es.len() {
        assert(es.take(m) =~= es);
    } else {
        assert(es.take(m + 1).drop_last() =~= es.take(m));
        lemma_decode_err_extends(es, m + 1);
    }
}

/// Abstract pruning marker that a table can hold: a finite seen set without
/// the owner.
pub open spec fn pstate_valid(p: PState) -> bool {
    match p {
        PState::Initialized(o, s) => s.finite() && !s.contains(o),
        PState::Performed(_) => true,
    }
}

/// Abstract pruning table that a replica can hold.
pub open spec fn ptable_valid(t: PTable) -> bool {
    &&& t.dom().finite()
    &&& forall|k: Seq<char>| #[trigger] t.contains_key(k) ==> pstate_valid(t[k])
}

/// Decoding the encoding of a pruning table gives back the same table.
pub proof fn lemma_pruning_round_trip(t: PTable)
    requires
        ptable_valid(t),
    ensures
        decode_entries(encoded_pruning(t)) == Ok::<PTable, Seq<char>>(t),
{
    let ks = sorted_keys(t.dom());
    lemma_sorted_keys_exist(t.dom());
    lemma_sorted_no_duplicates(ks);
    lemma_round_trip_prefix(t, ks.len() as int);
    assert(encoded_pruning(t).take(ks.len() as int) =~= encoded_pruning(t));
    assert(ks.take(ks.len() as int) =~= ks);
    assert(t.restrict(ks.to_set()) =~= t);
}

proof fn lemma_round_trip_prefix(t: PTable, i: int)
    requires
        ptable_valid(t),
        strictly_sorted(sorted_keys(t.dom())),
        sorted_keys(t.dom()).to_set() == t.dom(),
        sorted_keys(t.dom()).no_duplicates(),
        0 <= i <= sorted_keys(t.dom()).len(),
    ensures
        decode_entries(encoded_pruning(t).take(i)) == Ok::<PTable, Seq<char>>(
            t.restrict(sorted_keys(t.dom()).take(i).to_set()),
        ),
    decreases i,
{
    let ks = sorted_keys(t.dom());
    let es = encoded_pruning(t);
    if i == 0 {
        assert(es.take(0) =~= Seq::<(Seq<char>, WirePruningState)>::empty());
        assert(t.restrict(ks.take(0).to_set()) =~= PTable::empty());
    } else {
        lemma_round_trip_prefix(t, i - 1);
        let k = ks[i - 1];
        assert(es.take(i).drop_last() =~= es.take(i - 1));
        assert(es.take(i).last() == (k, wire_state(t[k])));
        assert(t.contains_key(k)) by {
            assert(ks.to_set().contains(k));
        }
        let prev = t.restrict(ks.take(i - 1).to_set());
        assert(!prev.contains_key(k)) by {
            if ks.take(i - 1).to_set().contains(k) {
                let j = choose|j: int| 0 <= j < i - 1 && #[trigger] ks.take(i - 1)[j] == k;
                assert(ks[j] == ks[i - 1]);
            }
        }
        assert(decoded_state(wire_state(t[k])) == t[k]) by {
            match t[k] {
                PState::Initialized(o, s) => {
                    lemma_sorted_keys_exist(s);
                    assert(sorted_keys(s).to_set().remove(o) =~= s);
                },
                PState::Performed(_) => {},
            }
        }
        assert(ks.take(i) =~= ks.take(i - 1).push(k));
        ks.take(i - 1).lemma_push_to_set_commute(k);
        assert(t.restrict(ks.take(i).to_set()) =~= prev.insert(k, t[k]));
    }
}

} // verus!
