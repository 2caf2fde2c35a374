//! Deterministically ordered maps keyed by string identifiers.
//!
//! Entries are kept strictly ascending in identifier order, which is the
//! iteration order that ordered maps of identifiers expose.
use vstd::prelude::*;

use crate::order::{compare_str, key_lt, lemma_key_lt_facts, lemma_key_lt_transitive, KeyOrder};

verus! {

broadcast use lemma_key_lt_facts, lemma_key_lt_transitive;

/// A value that can be copied with its abstract value preserved.
pub trait Duplicate: View + Sized {
    fn duplicate(&self) -> (r: Self)
        ensures
            r@ == self@,
    ;
}

/// A string-like identifier, viewed as its characters.
pub trait Identifier: Duplicate + View<V = Seq<char>> {
    fn as_key(&self) -> (r: &str)
        ensures
            r@ == self@,
    ;
}

impl Duplicate for u64 {
    fn duplicate(&self) -> (r: u64) {
        *self
    }
}

impl Duplicate for () {
    fn duplicate(&self) -> (r: ()) {
        ()
    }
}

impl Duplicate for u128 {
    fn duplicate(&self) -> (r: u128) {
        *self
    }
}

impl Duplicate for String {
    fn duplicate(&self) -> (r: String) {
        self.clone()
    }
}

impl Identifier for String {
    fn as_key(&self) -> (r: &str) {
        self.as_str()
    }
}

/// Keys of a sequence are strictly ascending.
pub open spec fn strictly_sorted(ks: Seq<Seq<char>>) -> bool {
    forall|i: int, j: int| 0 <= i < j < ks.len() ==> key_lt(#[trigger] ks[i], #[trigger] ks[j])
}

/// Position of `k` in a key sequence (meaningful when it occurs).
pub open spec fn pos_of(ks: Seq<Seq<char>>, k: Seq<char>) -> int {
    choose|i: int| 0 <= i < ks.len() && ks[i] == k
}

/// The map described by parallel key and value sequences.
pub open spec fn pairs_to_map<W>(ks: Seq<Seq<char>>, vs: Seq<W>) -> Map<Seq<char>, W> {
    Map::new(|k: Seq<char>| ks.contains(k), |k: Seq<char>| vs[pos_of(ks, k)])
}

/// Sorted keys are unique, so a position is determined by its key.
pub proof fn lemma_sorted_pos(ks: Seq<Seq<char>>, i: int)
    requires
        strictly_sorted(ks),
        0 <= i < ks.len(),
    ensures
        pos_of(ks, ks[i]) == i,
        ks.contains(ks[i]),
{
    assert(ks[i] == ks[i]);
    let p = pos_of(ks, ks[i]);
    if p < i {
        assert(key_lt(ks[p], ks[i]));
    } else if p > i {
        assert(key_lt(ks[i], ks[p]));
    }
}

pub proof fn lemma_sorted_lookup<W>(ks: Seq<Seq<char>>, vs: Seq<W>, i: int)
    requires
        strictly_sorted(ks),
        0 <= i < ks.len(),
    ensures
        pairs_to_map(ks, vs).contains_key(ks[i]),
        pairs_to_map(ks, vs)[ks[i]] == vs[i],
{
    lemma_sorted_pos(ks, i);
}

pub proof fn lemma_sorted_no_duplicates(ks: Seq<Seq<char>>)
    requires
        strictly_sorted(ks),
    ensures
        ks.no_duplicates(),
        ks.to_set().len() == ks.len(),
{
    assert forall|i: int, j: int| 0 <= i < ks.len() && 0 <= j < ks.len() && i != j implies ks[i]
        != ks[j] by {
        if i < j {
            assert(key_lt(ks[i], ks[j]));
        } else {
            assert(key_lt(ks[j], ks[i]));
        }
    }
    ks.unique_seq_to_set();
}

proof fn lemma_insert_at<W>(ks: Seq<Seq<char>>, vs: Seq<W>, i: int, kv: Seq<char>, vv: W)
    requires
        strictly_sorted(ks),
        ks.len() == vs.len(),
        0 <= i <= ks.len(),
        forall|j: int| 0 <= j < i ==> key_lt(#[trigger] ks[j], kv),
        forall|j: int| i <= j < ks.len() ==> key_lt(kv, #[trigger] ks[j]),
    ensures
        strictly_sorted(ks.insert(i, kv)),
        pairs_to_map(ks.insert(i, kv), vs.insert(i, vv)) == pairs_to_map(ks, vs).insert(kv, vv),
{
    let nks = ks.insert(i, kv);
    let nvs = vs.insert(i, vv);
    let old_map = pairs_to_map(ks, vs);
    let new_map = pairs_to_map(nks, nvs);
    assert forall|a: int, b: int| 0 <= a < b < nks.len() implies key_lt(
        #[trigger] nks[a],
        #[trigger] nks[b],
    ) by {
        if b < i {
            assert(key_lt(ks[a], ks[b]));
        } else if b == i {
        } else if a < i {
            assert(key_lt(ks[a], kv));
            assert(key_lt(kv, ks[b - 1]));
        } else if a == i {
        } else {
            assert(key_lt(ks[a - 1], ks[b - 1]));
        }
    }
    assert forall|k: Seq<char>| new_map.contains_key(k) <==> old_map.insert(kv, vv).contains_key(k) by {
        if nks.contains(k) {
            let p = choose|p: int| 0 <= p < nks.len() && nks[p] == k;
            if p < i {
                assert(ks[p] == k);
            } else if p > i {
                assert(ks[p - 1] == k);
            }
        }
        if ks.contains(k) {
            let p = choose|p: int| 0 <= p < ks.len() && ks[p] == k;
            if p < i {
                assert(nks[p] == k);
            } else {
                assert(nks[p + 1] == k);
            }
        }
        if k == kv {
            assert(nks[i] == k);
        }
    }
    assert forall|k: Seq<char>| new_map.contains_key(k) implies new_map[k] == old_map.insert(kv, vv)[k] by {
        let p = choose|p: int| 0 <= p < nks.len() && nks[p] == k;
        lemma_sorted_lookup(nks, nvs, p);
        if p < i {
            lemma_sorted_lookup(ks, vs, p);
            assert(key_lt(ks[p], kv));
        } else if p > i {
            lemma_sorted_lookup(ks, vs, p - 1);
            assert(key_lt(kv, ks[p - 1]));
        }
    }
    assert(new_map =~= old_map.insert(kv, vv));
}

proof fn lemma_remove_at<W>(ks: Seq<Seq<char>>, vs: Seq<W>, i: int)
    requires
        strictly_sorted(ks),
        ks.len() == vs.len(),
        0 <= i < ks.len(),
    ensures
        strictly_sorted(ks.remove(i)),
        pairs_to_map(ks.remove(i), vs.remove(i)) == pairs_to_map(ks, vs).remove(ks[i]),
{
    let nks = ks.remove(i);
    let nvs = vs.remove(i);
    let kv = ks[i];
    let old_map = pairs_to_map(ks, vs);
    let new_map = pairs_to_map(nks, nvs);
    assert forall|a: int, b: int| 0 <= a < b < nks.len() implies key_lt(
        #[trigger] nks[a],
        #[trigger] nks[b],
    ) by {
        if b < i {
            assert(key_lt(ks[a], ks[b]));
        } else if a < i {
            assert(key_lt(ks[a], ks[b + 1]));
        } else {
            assert(key_lt(ks[a + 1], ks[b + 1]));
        }
    }
    assert forall|k: Seq<char>| new_map.contains_key(k) <==> old_map.remove(kv).contains_key(k) by {
        if nks.contains(k) {
            let p = choose|p: int| 0 <= p < nks.len() && nks[p] == k;
            if p < i {
                assert(ks[p] == k);
                assert(key_lt(ks[p], kv));
            } else {
                assert(ks[p + 1] == k);
                assert(key_lt(kv, ks[p + 1]));
            }
        }
        if ks.contains(k) && k != kv {
            let p = choose|p: int| 0 <= p < ks.len() && ks[p] == k;
            if p < i {
                assert(nks[p] == k);
            } else {
                assert(nks[p - 1] == k);
            }
        }
    }
    assert forall|k: Seq<char>| new_map.contains_key(k) implies new_map[k] == old_map.remove(kv)[k] by {
        let p = choose|p: int| 0 <= p < nks.len() && nks[p] == k;
        lemma_sorted_lookup(nks, nvs, p);
        if p < i {
            lemma_sorted_lookup(ks, vs, p);
        } else {
            lemma_sorted_lookup(ks, vs, p + 1);
        }
    }
    assert(new_map =~= old_map.remove(kv));
}

/// A map described by sequences has finitely many keys.
pub proof fn lemma_pairs_finite<W>(ks: Seq<Seq<char>>, vs: Seq<W>)
    ensures
        pairs_to_map(ks, vs).dom().finite(),
        pairs_to_map(ks, vs).dom() == ks.to_set(),
{
    assert(pairs_to_map(ks, vs).dom() =~= ks.to_set());
    vstd::seq_lib::seq_to_set_is_finite(ks);
}

/// Values computed position by position from `vs` describe the mapped map.
pub proof fn lemma_pairs_map_values<W, X>(
    ks: Seq<Seq<char>>,
    vs: Seq<W>,
    ws: Seq<X>,
    f: spec_fn(W) -> X,
)
    requires
        vs.len() == ks.len(),
        ws.len() == ks.len(),
        forall|j: int| 0 <= j < ks.len() ==> #[trigger] ws[j] == f(vs[j]),
    ensures
        pairs_to_map(ks, ws) == pairs_to_map(ks, vs).map_values(f),
{
    assert forall|k: Seq<char>| #[trigger]
        pairs_to_map(ks, ws).contains_key(k) implies pairs_to_map(ks, ws)[k] == f(
        pairs_to_map(ks, vs)[k],
    ) by {
        let p = pos_of(ks, k);
        assert(0 <= p < ks.len());
        assert(ws[p] == f(vs[p]));
    }
    assert(pairs_to_map(ks, ws) =~= pairs_to_map(ks, vs).map_values(f));
}

/// Membership after appending one element.
pub proof fn lemma_push_contains(s: Seq<Seq<char>>, x: Seq<char>, n: Seq<char>)
    ensures
        s.push(x).contains(n) <==> (s.contains(n) || n == x),
{
    if s.push(x).contains(n) {
        let p = choose|p: int| 0 <= p < s.push(x).len() && s.push(x)[p] == n;
        if p < s.len() {
            assert(s[p] == n);
        }
    }
    if s.contains(n) {
        let p = choose|p: int| 0 <= p < s.len() && s[p] == n;
        assert(s.push(x)[p] == n);
    }
    if n == x {
        assert(s.push(x)[s.len() as int] == n);
    }
}

/// The ascending enumeration of a finite set of identifiers.
pub open spec fn sorted_keys(s: Set<Seq<char>>) -> Seq<Seq<char>> {
    choose|q: Seq<Seq<char>>| strictly_sorted(q) && q.to_set() == s
}

/// `x` placed into an ascending sequence at its position.
pub open spec fn insert_sorted(q: Seq<Seq<char>>, x: Seq<char>) -> Seq<Seq<char>>
    decreases q.len(),
{
    if q.len() == 0 {
        seq![x]
    } else if key_lt(x, q[0]) {
        seq![x] + q
    } else if x == q[0] {
        q
    } else {
        seq![q[0]] + insert_sorted(q.drop_first(), x)
    }
}

/// Membership in a sequence with one element put in front.
proof fn lemma_cons_contains(x: Seq<char>, q: Seq<Seq<char>>, y: Seq<char>)
    ensures
        (seq![x] + q).contains(y) <==> (y == x || q.contains(y)),
{
    let c = seq![x] + q;
    if c.contains(y) {
        let i = choose|i: int| 0 <= i < c.len() && c[i] == y;
        if i > 0 {
            assert(q[i - 1] == y);
        }
    }
    if y == x {
        assert(c[0] == y);
    }
    if q.contains(y) {
        let i = choose|i: int| 0 <= i < q.len() && q[i] == y;
        assert(c[i + 1] == y);
    }
}

/// Placing an element keeps a sequence ascending and adds exactly that element.
proof fn lemma_insert_sorted(q: Seq<Seq<char>>, x: Seq<char>)
    requires
        strictly_sorted(q),
    ensures
        strictly_sorted(insert_sorted(q, x)),
        forall|y: Seq<char>| #[trigger] insert_sorted(q, x).contains(y) <==> (y == x || q.contains(y)),
    decreases q.len(),
{
    if q.len() == 0 {
        assert forall|y: Seq<char>| #[trigger] insert_sorted(q, x).contains(y) <==> (y == x || q.contains(y)) by {
            if insert_sorted(q, x).contains(y) {
                let i = choose|i: int| 0 <= i < 1 && seq![x][i] == y;
            }
            if y == x {
                assert(seq![x][0] == y);
            }
        }
    } else if key_lt(x, q[0]) {
        let r = seq![x] + q;
        assert forall|i: int, j: int| 0 <= i < j < r.len() implies key_lt(#[trigger] r[i], #[trigger] r[j]) by {
            if i == 0 {
                if j > 1 {
                    assert(key_lt(q[0], q[j - 1]));
                }
            } else {
                assert(key_lt(q[i - 1], q[j - 1]));
            }
        }
        assert(insert_sorted(q, x) == r);
        assert forall|y: Seq<char>| #[trigger] insert_sorted(q, x).contains(y) <==> (y == x || q.contains(y)) by {
            lemma_cons_contains(x, q, y);
        }
    } else if x == q[0] {
        assert(insert_sorted(q, x) == q);
        assert forall|y: Seq<char>| #[trigger] insert_sorted(q, x).contains(y) <==> (y == x || q.contains(y)) by {
            if y == x {
                assert(q[0] == y);
            }
        }
    } else {
        let t = q.drop_first();
        assert(strictly_sorted(t)) by {
            assert forall|i: int, j: int| 0 <= i < j < t.len() implies key_lt(#[trigger] t[i], #[trigger] t[j]) by {
                assert(key_lt(q[i + 1], q[j + 1]));
            }
        }
        lemma_insert_sorted(t, x);
        let u = insert_sorted(t, x);
        let r = seq![q[0]] + u;
        assert(q =~= seq![q[0]] + t);
        assert(key_lt(q[0], x));
        assert forall|y: Seq<char>| u.contains(y) implies key_lt(q[0], y) by {
            assert(insert_sorted(t, x).contains(y) <==> (y == x || t.contains(y)));
            if y != x {
                let i = choose|i: int| 0 <= i < t.len() && t[i] == y;
                assert(key_lt(q[0], q[i + 1]));
            }
        }
        assert forall|i: int, j: int| 0 <= i < j < r.len() implies key_lt(#[trigger] r[i], #[trigger] r[j]) by {
            if i == 0 {
                assert(u.contains(u[j - 1]));
            } else {
                assert(r[i] == u[i - 1] && r[j] == u[j - 1]);
            }
        }
        assert(insert_sorted(q, x) == r);
        assert forall|y: Seq<char>| #[trigger] insert_sorted(q, x).contains(y) <==> (y == x || q.contains(y)) by {
            assert(insert_sorted(t, x).contains(y) <==> (y == x || t.contains(y)));
            lemma_cons_contains(q[0], u, y);
            lemma_cons_contains(q[0], t, y);
        }
    }
}

/// Every finite set of identifiers has an ascending enumeration.
pub proof fn lemma_sorted_keys_exist(s: Set<Seq<char>>)
    requires
        s.finite(),
    ensures
        strictly_sorted(sorted_keys(s)),
        sorted_keys(s).to_set() == s,
    decreases s.len(),
{
    if s.len() == 0 {
        let e = Seq::<Seq<char>>::empty();
        assert(e.to_set() =~= s);
        assert(strictly_sorted(e) && e.to_set() == s);
    } else {
        let x = s.choose();
        let rest = s.remove(x);
        lemma_sorted_keys_exist(rest);
        let q = sorted_keys(rest);
        lemma_insert_sorted(q, x);
        let w = insert_sorted(q, x);
        assert(w.to_set() =~= s);
        assert(strictly_sorted(w) && w.to_set() == s);
    }
}

/// A strictly ascending sequence is determined by its members.
pub proof fn lemma_sorted_unique(q1: Seq<Seq<char>>, q2: Seq<Seq<char>>)
    requires
        strictly_sorted(q1),
        strictly_sorted(q2),
        q1.to_set() == q2.to_set(),
    ensures
        q1 == q2,
    decreases q1.len(),
{
    if q1.len() == 0 {
        if q2.len() > 0 {
            assert(q2.to_set().contains(q2[0]));
        }
        assert(q1 =~= q2);
    } else {
        assert(q1.to_set().contains(q1[0]));
        assert(q2.len() > 0);
        assert(q2.to_set().contains(q2[0]));
        let p1 = choose|p: int| 0 <= p < q2.len() && q2[p] == q1[0];
        let p2 = choose|p: int| 0 <= p < q1.len() && q1[p] == q2[0];
        if q1[0] != q2[0] {
            if p1 > 0 {
                assert(key_lt(q2[0], q2[p1]));
            }
            if p2 > 0 {
                assert(key_lt(q1[0], q1[p2]));
            }
        }
        let r1 = q1.drop_first();
        let r2 = q2.drop_first();
        assert(strictly_sorted(r1));
        assert(strictly_sorted(r2));
        assert forall|x: Seq<char>| r1.to_set().contains(x) <==> r2.to_set().contains(x) by {
            if r1.to_set().contains(x) {
                let p = choose|p: int| 0 <= p < r1.len() && r1[p] == x;
                assert(q1[p + 1] == x);
                assert(key_lt(q1[0], x));
                assert(q2.to_set().contains(x));
                let p3 = choose|p: int| 0 <= p < q2.len() && q2[p] == x;
                assert(p3 != 0);
                assert(r2[p3 - 1] == x);
            }
            if r2.to_set().contains(x) {
                let p = choose|p: int| 0 <= p < r2.len() && r2[p] == x;
                assert(q2[p + 1] == x);
                assert(key_lt(q2[0], x));
                assert(q1.to_set().contains(x));
                let p3 = choose|p: int| 0 <= p < q1.len() && q1[p] == x;
                assert(p3 != 0);
                assert(r1[p3 - 1] == x);
            }
        }
        assert(r1.to_set() =~= r2.to_set());
        lemma_sorted_unique(r1, r2);
        assert(q1[0] == q2[0]);
        assert(q1.len() == q2.len());
        assert forall|i: int| 0 <= i < q1.len() implies q1[i] == q2[i] by {
            if i > 0 {
                assert(r1[i - 1] == r2[i - 1]);
            }
        }
        assert(q1 =~= q2);
    }
}

/// A sorted sequence is the ascending enumeration of its members.
pub proof fn lemma_sorted_keys_of(q: Seq<Seq<char>>)
    requires
        strictly_sorted(q),
    ensures
        sorted_keys(q.to_set()) == q,
{
    let c = sorted_keys(q.to_set());
    assert(strictly_sorted(c) && c.to_set() == q.to_set());
    lemma_sorted_unique(c, q);
}

/// The map of the first `i` entries.
pub open spec fn prefix_map<W>(ks: Seq<Seq<char>>, vs: Seq<W>, i: int) -> Map<Seq<char>, W> {
    pairs_to_map(ks.take(i), vs.take(i))
}

/// Growing a prefix by one entry inserts that entry's key.
pub proof fn lemma_prefix_map_step<W>(ks: Seq<Seq<char>>, vs: Seq<W>, i: int)
    requires
        strictly_sorted(ks),
        ks.len() == vs.len(),
        0 <= i < ks.len(),
    ensures
        prefix_map(ks, vs, i + 1) == prefix_map(ks, vs, i).insert(ks[i], vs[i]),
        !prefix_map(ks, vs, i).contains_key(ks[i]),
{
    let t = ks.take(i);
    assert forall|j: int| 0 <= j < t.len() implies key_lt(#[trigger] t[j], ks[i]) by {
        assert(key_lt(ks[j], ks[i]));
    }
    assert(strictly_sorted(t));
    lemma_insert_at(t, vs.take(i), i, ks[i], vs[i]);
    assert(ks.take(i + 1) =~= t.insert(i, ks[i]));
    assert(vs.take(i + 1) =~= vs.take(i).insert(i, vs[i]));
    if t.contains(ks[i]) {
        let p = choose|p: int| 0 <= p < t.len() && t[p] == ks[i];
        assert(key_lt(t[p], ks[i]));
    }
}

/// The empty prefix and the full prefix.
pub proof fn lemma_prefix_map_ends<W>(ks: Seq<Seq<char>>, vs: Seq<W>)
    requires
        ks.len() == vs.len(),
    ensures
        prefix_map(ks, vs, 0) == Map::<Seq<char>, W>::empty(),
        prefix_map(ks, vs, ks.len() as int) == pairs_to_map(ks, vs),
{
    assert(ks.take(ks.len() as int) =~= ks);
    assert(vs.take(vs.len() as int) =~= vs);
    assert(prefix_map(ks, vs, 0) =~= Map::<Seq<char>, W>::empty());
}

/// Ordered map from identifiers to values.
#[derive(Debug, Clone, PartialEq, Eq)]
pub struct SortedMap<K: Identifier, V: Duplicate> {
    keys: Vec<K>,
    vals: Vec<V>,
}

impl<K: Identifier, V: Duplicate> View for SortedMap<K, V> {
    type V = Map<Seq<char>, V::V>;

    open spec fn view(&self) -> Map<Seq<char>, V::V> {
        pairs_to_map(self.key_seq(), self.value_seq())
    }
}

impl<K: Identifier, V: Duplicate> SortedMap<K, V> {
    /// Keys in ascending order.
    pub closed spec fn key_seq(&self) -> Seq<Seq<char>> {
        Seq::new(self.keys@.len(), |i: int| self.keys@[i]@)
    }

    /// Values in the order of their keys.
    pub closed spec fn value_seq(&self) -> Seq<V::V> {
        Seq::new(self.keys@.len(), |i: int| self.vals@[i]@)
    }

    /// Stored values in the order of their keys.
    pub closed spec fn item_seq(&self) -> Seq<V> {
        self.vals@
    }

    /// Structural validity: parallel sequences with ascending keys.
    pub closed spec fn wf(&self) -> bool {
        &&& self.keys@.len() == self.vals@.len()
        &&& strictly_sorted(self.key_seq())
    }

    /// Sortedness and the link between the sequences and the map.
    pub proof fn lemma_wf(&self)
        requires
            self.wf(),
        ensures
            self.key_seq().len() == self.value_seq().len(),
            strictly_sorted(self.key_seq()),
            self@.dom() == self.key_seq().to_set(),
            self@.dom().finite(),
            self@.len() == self.key_seq().len(),
            forall|i: int|
                #![trigger self.key_seq()[i]]
                0 <= i < self.key_seq().len() ==> self@.contains_key(self.key_seq()[i])
                    && self@[self.key_seq()[i]] == self.value_seq()[i],
            self.item_seq().len() == self.key_seq().len(),
            forall|i: int|
                0 <= i < self.key_seq().len() ==> (#[trigger] self.item_seq()[i])@ == self.value_seq()[i],
    {
        assert forall|i: int| 0 <= i < self.key_seq().len() implies self@.contains_key(
            self.key_seq()[i],
        ) && self@[self.key_seq()[i]] == self.value_seq()[i] by {
            lemma_sorted_lookup(self.key_seq(), self.value_seq(), i);
        }
        assert(self@.dom() =~= self.key_seq().to_set());
        lemma_sorted_no_duplicates(self.key_seq());
    }

    pub fn new() -> (r: Self)
        ensures
            r.wf(),
            r@ == Map::<Seq<char>, V::V>::empty(),
            r.key_seq().len() == 0,
    {
        let r = SortedMap { keys: Vec::new(), vals: Vec::new() };
        assert(r@ =~= Map::<Seq<char>, V::V>::empty());
        r
    }

    pub fn len(&self) -> (r: usize)
        requires
            self.wf(),
        ensures
            r == self.key_seq().len(),
            r == self@.len(),
    {
        proof {
            self.lemma_wf();
        }
        self.keys.len()
    }

    pub fn is_empty(&self) -> (r: bool)
        requires
            self.wf(),
        ensures
            r == (self@.len() == 0),
            r == (self@ == Map::<Seq<char>, V::V>::empty()),
    {
        proof {
            self.lemma_wf();
            if self.keys.len() > 0 {
                assert(self@.contains_key(self.key_seq()[0]));
            } else {
                assert(self@ =~= Map::<Seq<char>, V::V>::empty());
            }
        }
        self.keys.len() == 0
    }

    pub fn key_at(&self, i: usize) -> (r: &K)
        requires
            self.wf(),
            i < self.key_seq().len(),
        ensures
            r@ == self.key_seq()[i as int],
    {
        &self.keys[i]
    }

    pub fn value_at(&self, i: usize) -> (r: &V)
        requires
            self.wf(),
            i < self.key_seq().len(),
        ensures
            r@ == self.value_seq()[i as int],
    {
        &self.vals[i]
    }

    /// Position where `key` is stored, or where it would be inserted.
    fn search(&self, key: &str) -> (r: (usize, bool))
        requires
            self.wf(),
        ensures
            r.0 <= self.key_seq().len(),
            r.1 ==> r.0 < self.key_seq().len() && self.key_seq()[r.0 as int] == key@,
            forall|i: int| 0 <= i < r.0 ==> key_lt(#[trigger] self.key_seq()[i], key@),
            !r.1 ==> forall|i: int|
                r.0 <= i < self.key_seq().len() ==> key_lt(key@, #[trigger] self.key_seq()[i]),
    {
        let n = self.keys.len();
        let mut i: usize = 0;
        while i < n
            invariant
                n == self.keys@.len(),
                n == self.key_seq().len(),
                i <= n,
                strictly_sorted(self.key_seq()),
                forall|j: int| 0 <= j < i ==> key_lt(#[trigger] self.key_seq()[j], key@),
            decreases n - i,
        {
            let c = compare_str(self.keys[i].as_key(), key);
            match c {
                KeyOrder::Less => {},
                KeyOrder::Equal => {
                    return (i, true);
                },
                KeyOrder::Greater => {
                    proof {
                        assert forall|j: int| i <= j < n implies key_lt(
                            key@,
                            #[trigger] self.key_seq()[j],
                        ) by {
                            if j > i {
                                assert(key_lt(self.key_seq()[i as int], self.key_seq()[j]));
                            }
                        }
                    }
                    return (i, false);
                },
            }
            i = i + 1;
        }
        (i, false)
    }

    pub fn contains_key(&self, key: &str) -> (r: bool)
        requires
            self.wf(),
        ensures
            r == self@.contains_key(key@),
    {
        proof {
            self.lemma_wf();
        }
        let (_, found) = self.search(key);
        proof {
            if !found && self@.contains_key(key@) {
                let p = pos_of(self.key_seq(), key@);
                assert(self.key_seq()[p] == key@);
            }
        }
        found
    }

    pub fn get(&self, key: &str) -> (r: Option<&V>)
        requires
            self.wf(),
        ensures
            r.is_some() == self@.contains_key(key@),
            r matches Some(v) ==> v@ == self@[key@],
    {
        proof {
            self.lemma_wf();
        }
        let (i, found) = self.search(key);
        if found {
            Some(&self.vals[i])
        } else {
            proof {
                if self@.contains_key(key@) {
                    let p = pos_of(self.key_seq(), key@);
                    assert(self.key_seq()[p] == key@);
                }
            }
            None
        }
    }

    /// Sets `key` to `value`, keeping ascending order.
    pub fn insert(&mut self, key: K, value: V)
        requires
            old(self).wf(),
        ensures
            final(self).wf(),
            final(self)@ == old(self)@.insert(key@, value@),
    {
        proof {
            self.lemma_wf();
        }
        let (i, found) = self.search(key.as_key());
        let ghost old_ks = self.key_seq();
        let ghost old_vs = self.value_seq();
        let ghost old_map = self@;
        let ghost kv = key@;
        let ghost vv = value@;
        if found {
            let mut keys = Vec::new();
            let mut vals = Vec::new();
            std::mem::swap(&mut keys, &mut self.keys);
            std::mem::swap(&mut vals, &mut self.vals);
            vals.set(i, value);
            let ghost nks = Seq::new(keys@.len(), |j: int| keys@[j]@);
            let ghost nvs = Seq::new(keys@.len(), |j: int| vals@[j]@);
            assert(nks =~= old_ks);
            assert(nvs =~= old_vs.update(i as int, vv));
            proof {
                assert forall|k: Seq<char>| #![auto]
                    pairs_to_map(nks, nvs).contains_key(k) == old_map.insert(kv, vv).contains_key(k)
                        && (pairs_to_map(nks, nvs).contains_key(k) ==> pairs_to_map(nks, nvs)[k]
                        == old_map.insert(kv, vv)[k]) by {
                    if nks.contains(k) {
                        let p = choose|p: int| 0 <= p < nks.len() && nks[p] == k;
                        lemma_sorted_lookup(nks, nvs, p);
                        lemma_sorted_lookup(old_ks, old_vs, p);
                    }
                }
                assert(pairs_to_map(nks, nvs) =~= old_map.insert(kv, vv));
            }
            self.keys = keys;
            self.vals = vals;
            proof {
                assert(self.key_seq() =~= nks);
                assert(self.value_seq() =~= nvs);
            }
        } else {
            let mut keys = Vec::new();
            let mut vals = Vec::new();
            std::mem::swap(&mut keys, &mut self.keys);
            std::mem::swap(&mut vals, &mut self.vals);
            keys.insert(i, key);
            vals.insert(i, value);
            let ghost nks = Seq::new(keys@.len(), |j: int| keys@[j]@);
            let ghost nvs = Seq::new(keys@.len(), |j: int| vals@[j]@);
            assert(nks =~= old_ks.insert(i as int, kv));
            assert(nvs =~= old_vs.insert(i as int, vv));
            proof {
                lemma_insert_at(old_ks, old_vs, i as int, kv, vv);
            }
            self.keys = keys;
            self.vals = vals;
            proof {
                assert(self.key_seq() =~= nks);
                assert(self.value_seq() =~= nvs);
            }
        }
    }

    /// Stores `value` under `key`, which follows every key held.
    pub fn push_last(&mut self, key: K, value: V)
        requires
            old(self).wf(),
            forall|j: int| 0 <= j < old(self).key_seq().len() ==> key_lt(#[trigger] old(self).key_seq()[j], key@),
        ensures
            final(self).wf(),
            final(self).key_seq() == old(self).key_seq().push(key@),
            final(self).value_seq() == old(self).value_seq().push(value@),
            final(self).item_seq() == old(self).item_seq().push(value),
    {
        let ghost ks = self.key_seq();
        let ghost vs = self.value_seq();
        self.keys.push(key);
        self.vals.push(value);
        proof {
            assert(self.key_seq() =~= ks.push(key@));
            assert(self.value_seq() =~= vs.push(value@));
            assert forall|a: int, b: int| 0 <= a < b < self.key_seq().len() implies key_lt(
                #[trigger] self.key_seq()[a],
                #[trigger] self.key_seq()[b],
            ) by {
                if b < ks.len() {
                    assert(key_lt(ks[a], ks[b]));
                } else {
                    assert(key_lt(ks[a], key@));
                }
            }
        }
    }

    /// Replaces the value stored at position `i`, keeping every key in place.
    pub fn set_value_at(&mut self, i: usize, value: V)
        requires
            old(self).wf(),
            i < old(self).key_seq().len(),
        ensures
            final(self).wf(),
            final(self).key_seq() == old(self).key_seq(),
            final(self).value_seq() == old(self).value_seq().update(i as int, value@),
            final(self)@ == old(self)@.insert(old(self).key_seq()[i as int], value@),
    {
        let ghost old_ks = self.key_seq();
        let ghost old_vs = self.value_seq();
        let ghost old_map = self@;
        let ghost kv = self.key_seq()[i as int];
        let ghost vv = value@;
        let mut vals = Vec::new();
        std::mem::swap(&mut vals, &mut self.vals);
        vals.set(i, value);
        self.vals = vals;
        proof {
            let nks = self.key_seq();
            let nvs = self.value_seq();
            assert(nks =~= old_ks);
            assert(nvs =~= old_vs.update(i as int, vv));
            assert forall|k: Seq<char>| #![auto]
                pairs_to_map(nks, nvs).contains_key(k) == old_map.insert(kv, vv).contains_key(k)
                    && (pairs_to_map(nks, nvs).contains_key(k) ==> pairs_to_map(nks, nvs)[k]
                    == old_map.insert(kv, vv)[k]) by {
                lemma_sorted_lookup(old_ks, old_vs, i as int);
                if nks.contains(k) {
                    let p = choose|p: int| 0 <= p < nks.len() && nks[p] == k;
                    lemma_sorted_lookup(nks, nvs, p);
                    lemma_sorted_lookup(old_ks, old_vs, p);
                }
            }
            assert(pairs_to_map(nks, nvs) =~= old_map.insert(kv, vv));
        }
    }

    /// Removes `key`, returning its value when present.
    pub fn remove(&mut self, key: &str) -> (r: Option<V>)
        requires
            old(self).wf(),
        ensures
            final(self).wf(),
            final(self)@ == old(self)@.remove(key@),
            r.is_some() == old(self)@.contains_key(key@),
            r matches Some(v) ==> v@ == old(self)@[key@],
    {
        proof {
            self.lemma_wf();
        }
        let (i, found) = self.search(key);
        let ghost old_ks = self.key_seq();
        let ghost old_vs = self.value_seq();
        let ghost old_map = self@;
        if !found {
            proof {
                if old_map.contains_key(key@) {
                    let p = pos_of(old_ks, key@);
                    assert(old_ks[p] == key@);
                }
                assert(old_map.remove(key@) =~= old_map);
            }
            return None;
        }
        let mut keys = Vec::new();
        let mut vals = Vec::new();
        std::mem::swap(&mut keys, &mut self.keys);
        std::mem::swap(&mut vals, &mut self.vals);
        keys.remove(i);
        let v = vals.remove(i);
        let ghost nks = Seq::new(keys@.len(), |j: int| keys@[j]@);
        let ghost nvs = Seq::new(keys@.len(), |j: int| vals@[j]@);
        assert(nks =~= old_ks.remove(i as int));
        assert(nvs =~= old_vs.remove(i as int));
        proof {
            lemma_remove_at(old_ks, old_vs, i as int);
        }
        self.keys = keys;
        self.vals = vals;
        proof {
            assert(self.key_seq() =~= nks);
            assert(self.value_seq() =~= nvs);
        }
        Some(v)
    }

    /// Keys in ascending order.
    pub fn keys(&self) -> (r: Vec<K>)
        requires
            self.wf(),
        ensures
            r@.len() == self.key_seq().len(),
            forall|i: int| 0 <= i < r@.len() ==> (#[trigger] r@[i])@ == self.key_seq()[i],
    {
        let n = self.keys.len();
        let mut out: Vec<K> = Vec::new();
        let mut i: usize = 0;
        while i < n
            invariant
                n == self.keys@.len(),
                i <= n,
                out@.len() == i,
                forall|j: int| 0 <= j < i ==> (#[trigger] out@[j])@ == self.key_seq()[j],
            decreases n - i,
        {
            out.push(self.keys[i].duplicate());
            i = i + 1;
        }
        out
    }

    /// Values in key order.
    pub fn values(&self) -> (r: Vec<V>)
        requires
            self.wf(),
        ensures
            r@.len() == self.value_seq().len(),
            forall|i: int| 0 <= i < r@.len() ==> (#[trigger] r@[i])@ == self.value_seq()[i],
    {
        let n = self.vals.len();
        let mut out: Vec<V> = Vec::new();
        let mut i: usize = 0;
        while i < n
            invariant
                self.wf(),
                n == self.vals@.len(),
                i <= n,
                out@.len() == i,
                forall|j: int| 0 <= j < i ==> (#[trigger] out@[j])@ == self.value_seq()[j],
            decreases n - i,
        {
            out.push(self.vals[i].duplicate());
            i = i + 1;
        }
        out
    }

    /// A copy with the same entries.
    pub fn duplicate(&self) -> (r: Self)
        requires
            self.wf(),
        ensures
            r.wf(),
            r@ == self@,
            r.key_seq() == self.key_seq(),
            r.value_seq() == self.value_seq(),
    {
        let mut keys: Vec<K> = Vec::new();
        let mut vals: Vec<V> = Vec::new();
        let n = self.keys.len();
        let mut i: usize = 0;
        while i < n
            invariant
                n == self.keys@.len(),
                n == self.vals@.len(),
                i <= n,
                keys@.len() == i,
                vals@.len() == i,
                forall|j: int| 0 <= j < i ==> (#[trigger] keys@[j])@ == self.keys@[j]@,
                forall|j: int| 0 <= j < i ==> (#[trigger] vals@[j])@ == self.vals@[j]@,
            decreases n - i,
        {
            keys.push(self.keys[i].duplicate());
            vals.push(self.vals[i].duplicate());
            i = i + 1;
        }
        let r = SortedMap { keys, vals };
        assert(r.key_seq() =~= self.key_seq());
        assert(r.value_seq() =~= self.value_seq());
        r
    }
}

} // verus!
