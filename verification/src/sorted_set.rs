//! Deterministically ordered sets of string identifiers.
use vstd::prelude::*;

use crate::order::key_lt;
use crate::sorted_map::{
    lemma_prefix_map_ends, lemma_prefix_map_step, prefix_map, strictly_sorted, Duplicate, Identifier,
    SortedMap,
};

verus! {

/// Ordered set of identifiers, ascending in `str` order.
#[derive(Debug, Clone, PartialEq, Eq)]
pub struct SortedSet<K: Identifier> {
    map: SortedMap<K, ()>,
}

impl<K: Identifier> View for SortedSet<K> {
    type V = Set<Seq<char>>;

    closed spec fn view(&self) -> Set<Seq<char>> {
        self.map@.dom()
    }
}

impl<K: Identifier> SortedSet<K> {
    /// Members in ascending order.
    pub closed spec fn key_seq(&self) -> Seq<Seq<char>> {
        self.map.key_seq()
    }

    /// Structural validity.
    pub closed spec fn wf(&self) -> bool {
        self.map.wf()
    }

    /// Members are ascending and enumerate the set.
    pub proof fn lemma_wf(&self)
        requires
            self.wf(),
        ensures
            strictly_sorted(self.key_seq()),
            self@ == self.key_seq().to_set(),
            self@.finite(),
            self@.len() == self.key_seq().len(),
            forall|i: int|
                0 <= i < self.key_seq().len() ==> #[trigger] self@.contains(self.key_seq()[i]),
    {
        self.map.lemma_wf();
        assert forall|i: int| 0 <= i < self.key_seq().len() implies #[trigger] self@.contains(
            self.key_seq()[i],
        ) by {
            assert(self.map@.contains_key(self.map.key_seq()[i]));
        }
    }

    pub fn new() -> (r: Self)
        ensures
            r.wf(),
            r@ == Set::<Seq<char>>::empty(),
            r.key_seq().len() == 0,
    {
        let r = SortedSet { map: SortedMap::new() };
        assert(r@ =~= Set::<Seq<char>>::empty());
        r
    }

    pub fn len(&self) -> (r: usize)
        requires
            self.wf(),
        ensures
            r == self@.len(),
            r == self.key_seq().len(),
    {
        self.map.len()
    }

    pub fn is_empty(&self) -> (r: bool)
        requires
            self.wf(),
        ensures
            r == (self@.len() == 0),
            r == (self@ == Set::<Seq<char>>::empty()),
    {
        let r = self.map.is_empty();
        proof {
            if r {
                assert(self@ =~= Set::<Seq<char>>::empty());
            } else if self@ == Set::<Seq<char>>::empty() {
                assert(self.map@ =~= Map::<Seq<char>, ()>::empty());
            }
        }
        r
    }

    pub fn contains(&self, key: &str) -> (r: bool)
        requires
            self.wf(),
        ensures
            r == self@.contains(key@),
    {
        self.map.contains_key(key)
    }

    pub fn key_at(&self, i: usize) -> (r: &K)
        requires
            self.wf(),
            i < self.key_seq().len(),
        ensures
            r@ == self.key_seq()[i as int],
    {
        self.map.key_at(i)
    }

    /// Adds `key`; returns whether it was absent.
    pub fn insert(&mut self, key: K) -> (r: bool)
        requires
            old(self).wf(),
        ensures
            final(self).wf(),
            final(self)@ == old(self)@.insert(key@),
            r == !old(self)@.contains(key@),
    {
        let present = self.map.contains_key(key.as_key());
        if present {
            proof {
                assert(self@.insert(key@) =~= self@);
            }
            false
        } else {
            self.map.insert(key, ());
            proof {
                assert(self@ =~= old(self)@.insert(key@));
            }
            true
        }
    }

    /// Removes `key`; returns whether it was present.
    pub fn remove(&mut self, key: &str) -> (r: bool)
        requires
            old(self).wf(),
        ensures
            final(self).wf(),
            final(self)@ == old(self)@.remove(key@),
            r == old(self)@.contains(key@),
    {
        let r = self.map.remove(key);
        proof {
            assert(self@ =~= old(self)@.remove(key@));
        }
        r.is_some()
    }

    pub fn duplicate(&self) -> (r: Self)
        requires
            self.wf(),
        ensures
            r.wf(),
            r@ == self@,
            r.key_seq() == self.key_seq(),
    {
        SortedSet { map: self.map.duplicate() }
    }

    /// Members in ascending order.
    pub fn to_vec(&self) -> (r: Vec<K>)
        requires
            self.wf(),
        ensures
            r@.len() == self.key_seq().len(),
            forall|i: int| 0 <= i < r@.len() ==> (#[trigger] r@[i])@ == self.key_seq()[i],
    {
        let n = self.map.len();
        let mut out: Vec<K> = Vec::new();
        let mut i: usize = 0;
        while i < n
            invariant
                self.wf(),
                n == self.key_seq().len(),
                i <= n,
                out@.len() == i,
                forall|j: int| 0 <= j < i ==> (#[trigger] out@[j])@ == self.key_seq()[j],
            decreases n - i,
        {
            out.push(self.map.key_at(i).duplicate());
            i = i + 1;
        }
        out
    }

    /// The keys of an ordered map.
    pub fn keys_of<V: Duplicate>(m: &SortedMap<K, V>) -> (r: Self)
        requires
            m.wf(),
        ensures
            r.wf(),
            r@ == m@.dom(),
    {
        let mut r = SortedSet::new();
        let n = m.len();
        let mut i: usize = 0;
        proof {
            m.lemma_wf();
            lemma_prefix_map_ends(m.key_seq(), m.value_seq());
        }
        while i < n
            invariant
                r.wf(),
                m.wf(),
                n == m.key_seq().len(),
                m.key_seq().len() == m.value_seq().len(),
                strictly_sorted(m.key_seq()),
                i <= n,
                r@ == prefix_map(m.key_seq(), m.value_seq(), i as int).dom(),
            decreases n - i,
        {
            proof {
                lemma_prefix_map_step(m.key_seq(), m.value_seq(), i as int);
            }
            r.insert(m.key_at(i).duplicate());
            i = i + 1;
        }
        proof {
            lemma_prefix_map_ends(m.key_seq(), m.value_seq());
        }
        r
    }

    /// Whether every member also belongs to `other`.
    pub fn is_subset_of(&self, other: &Self) -> (r: bool)
        requires
            self.wf(),
            other.wf(),
        ensures
            r == self@.subset_of(other@),
    {
        proof {
            self.lemma_wf();
        }
        let n = self.len();
        let mut i: usize = 0;
        while i < n
            invariant
                self.wf(),
                other.wf(),
                n == self.key_seq().len(),
                i <= n,
                self@ == self.key_seq().to_set(),
                forall|j: int| 0 <= j < i ==> other@.contains(#[trigger] self.key_seq()[j]),
            decreases n - i,
        {
            if !other.contains(self.key_at(i).as_key()) {
                proof {
                    assert(self@.contains(self.key_seq()[i as int]));
                }
                return false;
            }
            i = i + 1;
        }
        proof {
            assert forall|x: Seq<char>| self@.contains(x) implies other@.contains(x) by {
                let p = choose|p: int| 0 <= p < self.key_seq().len() && self.key_seq()[p] == x;
                assert(other@.contains(self.key_seq()[p]));
            }
        }
        true
    }

    /// Whether both sets have the same members.
    pub fn same_members(&self, other: &Self) -> (r: bool)
        requires
            self.wf(),
            other.wf(),
        ensures
            r == (self@ == other@),
    {
        let r = self.is_subset_of(other) && other.is_subset_of(self);
        proof {
            if r {
                assert(self@ =~= other@);
            }
        }
        r
    }

    /// Union of both sets.
    pub fn union(&self, other: &Self) -> (r: Self)
        requires
            self.wf(),
            other.wf(),
        ensures
            r.wf(),
            r@ == self@.union(other@),
    {
        let mut r = self.duplicate();
        let n = other.len();
        let mut i: usize = 0;
        while i < n
            invariant
                r.wf(),
                other.wf(),
                n == other.key_seq().len(),
                i <= n,
                r@ == self@.union(other.key_seq().take(i as int).to_set()),
            decreases n - i,
        {
            proof {
                other.lemma_wf();
            }
            r.insert(other.key_at(i).duplicate());
            proof {
                let t = other.key_seq().take(i as int);
                assert(other.key_seq().take(i as int + 1) =~= t + seq![other.key_seq()[i as int]]);
                Seq::<Seq<char>>::lemma_to_set_insert_commutes(t, other.key_seq()[i as int]);
            }
            i = i + 1;
        }
        proof {
            other.lemma_wf();
            assert(other.key_seq().take(n as int) =~= other.key_seq());
            assert(self@.union(Set::<Seq<char>>::empty()) =~= self@);
            assert(other.key_seq().take(0).to_set() =~= Set::<Seq<char>>::empty());
            assert(r@ =~= self@.union(other@));
        }
        r
    }
}

} // verus!
