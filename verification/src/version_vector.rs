//! Per-replica version counters used as causal contexts and element dots.
use vstd::prelude::*;

use crate::replica::ReplicaId;
use crate::sorted_map::{
    lemma_prefix_map_ends, lemma_prefix_map_step, prefix_map, strictly_sorted, Duplicate,
    SortedMap,
};
use crate::sorted_set::SortedSet;

verus! {

/// Abstract version vector: one positive version per replica.
pub type Versions = Map<Seq<char>, u64>;

/// Version of `r`, zero when absent.
pub open spec fn vget(m: Versions, r: Seq<char>) -> u64 {
    if m.contains_key(r) {
        m[r]
    } else {
        0
    }
}

/// `v + 1`, saturating at `u64::MAX`.
pub open spec fn sat_inc(v: u64) -> u64 {
    if v == u64::MAX {
        u64::MAX
    } else {
        (v + 1) as u64
    }
}

/// Versions present are positive.
pub open spec fn versions_valid(m: Versions) -> bool {
    forall|r: Seq<char>| #[trigger] m.contains_key(r) ==> m[r] > 0
}

/// The vector with `r` advanced by one.
pub open spec fn versions_inc(m: Versions, r: Seq<char>) -> Versions {
    m.insert(r, sat_inc(vget(m, r)))
}

/// Per-replica maximum.
pub open spec fn versions_max(a: Versions, b: Versions) -> Versions {
    Map::new(
        |r: Seq<char>| a.contains_key(r) || b.contains_key(r),
        |r: Seq<char>|
            if vget(a, r) >= vget(b, r) {
                vget(a, r)
            } else {
                vget(b, r)
            },
    )
}

/// Every version of `dots` is covered by `seen`.
pub open spec fn versions_dominate(seen: Versions, dots: Versions) -> bool {
    forall|r: Seq<char>| #[trigger] dots.contains_key(r) ==> vget(seen, r) >= dots[r]
}

/// A single dot, or nothing for version zero.
pub open spec fn versions_one(r: Seq<char>, version: u64) -> Versions {
    if version == 0 {
        Map::empty()
    } else {
        map![r => version]
    }
}

/// Keep-or-take rule for one replica when two dot sets meet.
///
/// `l`/`rr` are the dots of the left and right side (zero when absent) and
/// `lc`/`rc` their causal contexts.
pub open spec fn dot_merge(l: u64, lc: u64, rr: u64, rc: u64) -> u64 {
    if rr > 0 && lc < rr {
        rr
    } else if l > 0 && (rr == l || rc < l) {
        l
    } else {
        0
    }
}

/// Dots surviving when `left` (context `lc`) meets `right` (context `rc`).
pub open spec fn dots_merged(left: Versions, lc: Versions, right: Versions, rc: Versions) -> Versions {
    Map::new(
        |r: Seq<char>| dot_merge(vget(left, r), vget(lc, r), vget(right, r), vget(rc, r)) > 0,
        |r: Seq<char>| dot_merge(vget(left, r), vget(lc, r), vget(right, r), vget(rc, r)),
    )
}

/// Left dots kept before right dots are considered.
pub open spec fn kept_left(part: Versions, right: Versions, rc: Versions) -> Versions {
    Map::new(
        |r: Seq<char>| part.contains_key(r) && (vget(right, r) == part[r] || vget(rc, r) < part[r]),
        |r: Seq<char>| part[r],
    )
}

/// `base` overridden by the right dots that are newer than `lc`.
pub open spec fn taken_right(base: Versions, part: Versions, lc: Versions) -> Versions {
    Map::new(
        |r: Seq<char>| base.contains_key(r) || (part.contains_key(r) && vget(lc, r) < part[r]),
        |r: Seq<char>|
            if part.contains_key(r) && vget(lc, r) < part[r] {
                part[r]
            } else {
                base[r]
            },
    )
}

#[derive(Debug, PartialEq, Eq)]
/// Version vector: positive versions by replica, in replica order.
pub struct VersionVector {
    entries: SortedMap<ReplicaId, u64>,
}

impl View for VersionVector {
    type V = Versions;

    closed spec fn view(&self) -> Versions {
        self.entries@
    }
}

impl VersionVector {
    #[verifier::type_invariant]
    closed spec fn inv(&self) -> bool {
        &&& self.entries.wf()
        &&& versions_valid(self.entries@)
    }

    /// Versions held are positive and finitely many.
    pub fn lemma_valid(&self)
        ensures
            versions_valid(self@),
            self@.dom().finite(),
    {
        proof {
            use_type_invariant(self);
            self.entries.lemma_wf();
        }
    }

    pub fn new() -> (r: Self)
        ensures
            r@ == Versions::empty(),
    {
        VersionVector { entries: SortedMap::new() }
    }

    pub fn one(replica: ReplicaId, version: u64) -> (r: Self)
        ensures
            r@ == versions_one(replica@, version),
    {
        let mut entries = SortedMap::new();
        if version != 0 {
            entries.insert(replica, version);
            proof {
                assert(entries@ =~= map![replica@ => version]);
            }
        }
        VersionVector { entries }
    }

    /// Versions in replica order.
    /// The vector holding `entries`, when every version is positive.
    pub fn from_entries(entries: SortedMap<ReplicaId, u64>) -> (r: Option<Self>)
        requires
            entries.wf(),
        ensures
            r is Some <==> versions_valid(entries@),
            r matches Some(v) ==> v@ == entries@,
    {
        proof {
            entries.lemma_wf();
        }
        let n = entries.len();
        let mut i: usize = 0;
        while i < n
            invariant
                entries.wf(),
                n == entries.key_seq().len(),
                n == entries.value_seq().len(),
                i <= n,
                forall|j: int| 0 <= j < i ==> entries.value_seq()[j] > 0,
            decreases n - i,
        {
            if *entries.value_at(i) == 0 {
                proof {
                    entries.lemma_wf();
                    assert(entries@.contains_key(entries.key_seq()[i as int]));
                }
                return None;
            }
            i = i + 1;
        }
        proof {
            entries.lemma_wf();
            assert forall|r: Seq<char>| #[trigger] entries@.contains_key(r) implies entries@[r] > 0 by {
                let j = choose|j: int| 0 <= j < n && entries.key_seq()[j] == r;
                assert(entries.key_seq().contains(r));
                assert(entries@[entries.key_seq()[j]] == entries.value_seq()[j]);
            }
        }
        Some(VersionVector { entries })
    }

    pub fn entries(&self) -> (r: &SortedMap<ReplicaId, u64>)
        ensures
            r.wf(),
            r@ == self@,
    {
        proof {
            use_type_invariant(self);
        }
        &self.entries
    }

    pub fn is_empty(&self) -> (r: bool)
        ensures
            r == (self@ == Versions::empty()),
    {
        proof {
            use_type_invariant(self);
        }
        self.entries.is_empty()
    }

    pub fn version_at(&self, replica: &ReplicaId) -> (r: u64)
        ensures
            r == vget(self@, replica@),
    {
        proof {
            use_type_invariant(self);
        }
        match self.entries.get(replica.as_str()) {
            Some(v) => *v,
            None => 0,
        }
    }

    pub fn contains(&self, replica: &ReplicaId) -> (r: bool)
        ensures
            r == self@.contains_key(replica@),
    {
        proof {
            use_type_invariant(self);
        }
        self.entries.contains_key(replica.as_str())
    }

    /// Advances `replica` by one, saturating.
    pub fn increment(&self, replica: &ReplicaId) -> (r: Self)
        ensures
            r@ == versions_inc(self@, replica@),
    {
        proof {
            use_type_invariant(self);
        }
        let current = self.version_at(replica);
        let next = if current == u64::MAX {
            u64::MAX
        } else {
            current + 1
        };
        let mut entries = self.entries.duplicate();
        entries.insert(replica.duplicate(), next);
        VersionVector { entries }
    }

    /// Per-replica maximum.
    pub fn merge(&self, other: &Self) -> (r: Self)
        ensures
            r@ == versions_max(self@, other@),
    {
        proof {
            use_type_invariant(self);
            use_type_invariant(other);
            self.entries.lemma_wf();
            lemma_prefix_map_ends(self.entries.key_seq(), self.entries.value_seq());
        }
        let ghost ks = self.entries.key_seq();
        let ghost vs = self.entries.value_seq();
        let mut entries = other.entries.duplicate();
        let n = self.entries.len();
        let mut i: usize = 0;
        proof {
            assert forall|j: int| 0 <= j < vs.len() implies vs[j] > 0 by {
                assert(self@.contains_key(ks[j]));
            }
            assert(entries@ =~= versions_max(prefix_map(ks, vs, 0), other@));
        }
        while i < n
            invariant
                self.entries.wf(),
                ks == self.entries.key_seq(),
                vs == self.entries.value_seq(),
                strictly_sorted(ks),
                ks.len() == vs.len(),
                n == ks.len(),
                i <= n,
                forall|j: int| 0 <= j < vs.len() ==> vs[j] > 0,
                versions_valid(other@),
                entries.wf(),
                entries@ == versions_max(prefix_map(ks, vs, i as int), other@),
            decreases n - i,
        {
            proof {
                lemma_prefix_map_step(ks, vs, i as int);
            }
            let replica = self.entries.key_at(i);
            let version = *self.entries.value_at(i);
            let other_version = match entries.get(replica.as_str()) {
                Some(v) => *v,
                None => 0,
            };
            if version > other_version {
                entries.insert(replica.duplicate(), version);
            }
            proof {
                assert(entries@ =~= versions_max(prefix_map(ks, vs, i as int + 1), other@));
            }
            i = i + 1;
        }
        proof {
            lemma_prefix_map_ends(ks, vs);
        }
        VersionVector { entries }
    }

    /// Whether every version of `dots` is covered by this vector.
    pub fn dominates(&self, dots: &VersionVector) -> (r: bool)
        ensures
            r == versions_dominate(self@, dots@),
    {
        proof {
            use_type_invariant(dots);
            dots.entries.lemma_wf();
            lemma_prefix_map_ends(dots.entries.key_seq(), dots.entries.value_seq());
        }
        let ghost ks = dots.entries.key_seq();
        let ghost vs = dots.entries.value_seq();
        let n = dots.entries.len();
        let mut i: usize = 0;
        while i < n
            invariant
                dots.entries.wf(),
                ks == dots.entries.key_seq(),
                vs == dots.entries.value_seq(),
                strictly_sorted(ks),
                ks.len() == vs.len(),
                n == ks.len(),
                i <= n,
                versions_dominate(self@, prefix_map(ks, vs, i as int)),
            decreases n - i,
        {
            proof {
                lemma_prefix_map_step(ks, vs, i as int);
            }
            let replica = dots.entries.key_at(i);
            let version = *dots.entries.value_at(i);
            if self.version_at(replica) < version {
                proof {
                    lemma_prefix_map_ends(ks, vs);
                    assert(dots@.contains_key(ks[i as int]));
                }
                return false;
            }
            i = i + 1;
        }
        proof {
            lemma_prefix_map_ends(ks, vs);
        }
        true
    }

    /// Replicas with a version, in replica order.
    pub fn modified_by_replica_ids(&self) -> (r: SortedSet<ReplicaId>)
        ensures
            r.wf(),
            r@ == self@.dom(),
    {
        proof {
            use_type_invariant(self);
        }
        SortedSet::keys_of(&self.entries)
    }

    /// Drops the version of `removed`.
    pub fn pruning_cleanup(&self, removed: &ReplicaId) -> (r: Self)
        ensures
            r@ == self@.remove(removed@),
    {
        proof {
            use_type_invariant(self);
        }
        let mut entries = self.entries.duplicate();
        entries.remove(removed.as_str());
        VersionVector { entries }
    }

    /// Drops `removed` and advances `collapse_into`.
    pub fn prune(&self, removed: &ReplicaId, collapse_into: &ReplicaId) -> (r: Self)
        ensures
            r@ == versions_inc(self@.remove(removed@), collapse_into@),
    {
        let cleaned = self.pruning_cleanup(removed);
        cleaned.increment(collapse_into)
    }

    pub fn duplicate(&self) -> (r: Self)
        ensures
            r@ == self@,
    {
        proof {
            use_type_invariant(self);
        }
        VersionVector { entries: self.entries.duplicate() }
    }

    /// Dots of `left` and `right` that survive their meeting.
    pub fn merge_dots(left: &Self, right: &Self, left_context: &Self, right_context: &Self) -> (r:
        Self)
        ensures
            r@ == dots_merged(left@, left_context@, right@, right_context@),
    {
        proof {
            use_type_invariant(left);
            use_type_invariant(right);
            left.entries.lemma_wf();
            right.entries.lemma_wf();
            lemma_prefix_map_ends(left.entries.key_seq(), left.entries.value_seq());
            lemma_prefix_map_ends(right.entries.key_seq(), right.entries.value_seq());
        }
        let ghost lks = left.entries.key_seq();
        let ghost lvs = left.entries.value_seq();
        let ghost rks = right.entries.key_seq();
        let ghost rvs = right.entries.value_seq();
        let mut merged: SortedMap<ReplicaId, u64> = SortedMap::new();
        let n = left.entries.len();
        let mut i: usize = 0;
        proof {
            assert(merged@ =~= kept_left(prefix_map(lks, lvs, 0), right@, right_context@));
        }
        while i < n
            invariant
                left.entries.wf(),
                lks == left.entries.key_seq(),
                lvs == left.entries.value_seq(),
                strictly_sorted(lks),
                lks.len() == lvs.len(),
                n == lks.len(),
                i <= n,
                merged.wf(),
                merged@ == kept_left(prefix_map(lks, lvs, i as int), right@, right_context@),
            decreases n - i,
        {
            proof {
                lemma_prefix_map_step(lks, lvs, i as int);
            }
            let replica = left.entries.key_at(i);
            let version = *left.entries.value_at(i);
            if right.version_at(replica) == version || right_context.version_at(replica)
                < version {
                merged.insert(replica.duplicate(), version);
            }
            proof {
                assert(merged@ =~= kept_left(
                    prefix_map(lks, lvs, i as int + 1),
                    right@,
                    right_context@,
                ));
            }
            i = i + 1;
        }
        let ghost base = merged@;
        proof {
            lemma_prefix_map_ends(lks, lvs);
            assert(merged@ =~= taken_right(base, prefix_map(rks, rvs, 0), left_context@));
        }
        let m = right.entries.len();
        let mut j: usize = 0;
        while j < m
            invariant
                right.entries.wf(),
                rks == right.entries.key_seq(),
                rvs == right.entries.value_seq(),
                strictly_sorted(rks),
                rks.len() == rvs.len(),
                m == rks.len(),
                j <= m,
                merged.wf(),
                merged@ == taken_right(base, prefix_map(rks, rvs, j as int), left_context@),
            decreases m - j,
        {
            proof {
                lemma_prefix_map_step(rks, rvs, j as int);
            }
            let replica = right.entries.key_at(j);
            let version = *right.entries.value_at(j);
            if left_context.version_at(replica) < version {
                merged.insert(replica.duplicate(), version);
            }
            proof {
                assert(merged@ =~= taken_right(
                    base,
                    prefix_map(rks, rvs, j as int + 1),
                    left_context@,
                ));
            }
            j = j + 1;
        }
        proof {
            lemma_prefix_map_ends(rks, rvs);
            assert(merged@ =~= dots_merged(left@, left_context@, right@, right_context@));
        }
        VersionVector { entries: merged }
    }
}

impl Clone for VersionVector {
    fn clone(&self) -> (r: VersionVector)
        ensures
            r@ == self@,
    {
        self.duplicate()
    }
}

impl Duplicate for VersionVector {
    fn duplicate(&self) -> (r: VersionVector) {
        VersionVector::duplicate(self)
    }
}

} // verus!
