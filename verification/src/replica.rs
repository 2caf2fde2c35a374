//! Stable identities of replicas taking part in replication.
use vstd::prelude::*;

use crate::sorted_map::{Duplicate, Identifier};

verus! {

/// Identity of one replica; equality and order use the complete string.
#[derive(Debug, Clone, Eq, Hash, PartialOrd, Ord)]
pub struct ReplicaId(String);

impl View for ReplicaId {
    type V = Seq<char>;

    closed spec fn view(&self) -> Seq<char> {
        self.0@
    }
}

impl ReplicaId {
    /// Creates a replica identity from its complete string identifier.
    pub fn new(value: &str) -> (r: Self)
        ensures
            r@ == value@,
    {
        ReplicaId(value.to_owned())
    }

    /// Creates a replica identity that takes ownership of `value`.
    pub fn from_string(value: String) -> (r: Self)
        ensures
            r@ == value@,
    {
        ReplicaId(value)
    }

    /// Returns the complete identifier.
    pub fn as_str(&self) -> (r: &str)
        ensures
            r@ == self@,
    {
        self.0.as_str()
    }
}

impl PartialEq for ReplicaId {
    fn eq(&self, other: &Self) -> (r: bool) {
        self.0 == other.0
    }
}

impl vstd::std_specs::cmp::PartialEqSpecImpl for ReplicaId {
    open spec fn obeys_eq_spec() -> bool {
        true
    }

    open spec fn eq_spec(&self, other: &ReplicaId) -> bool {
        self@ == other@
    }
}

impl Duplicate for ReplicaId {
    fn duplicate(&self) -> (r: ReplicaId) {
        ReplicaId(self.0.clone())
    }
}

impl Identifier for ReplicaId {
    fn as_key(&self) -> (r: &str) {
        self.0.as_str()
    }
}

/// Identifiers of a sequence of replicas, in order.
pub open spec fn ids_view(s: Seq<ReplicaId>) -> Seq<Seq<char>> {
    s.map_values(|x: ReplicaId| x@)
}

/// Appending a replica appends its identifier.
pub proof fn lemma_ids_push(s: Seq<ReplicaId>, x: ReplicaId)
    ensures
        ids_view(s.push(x)) == ids_view(s).push(x@),
{
    assert(ids_view(s.push(x)) =~= ids_view(s).push(x@));
}

/// Copies a list of replica identities.
pub fn copy_ids(src: &Vec<ReplicaId>) -> (r: Vec<ReplicaId>)
    ensures
        ids_view(r@) == ids_view(src@),
{
    let mut out: Vec<ReplicaId> = Vec::new();
    let n = src.len();
    let mut i: usize = 0;
    while i < n
        invariant
            n == src@.len(),
            i <= n,
            ids_view(out@) == ids_view(src@).take(i as int),
        decreases n - i,
    {
        let ghost prev = out@;
        let item = src[i].duplicate();
        out.push(item);
        proof {
            lemma_ids_push(prev, item);
            assert(ids_view(src@).take(i as int + 1) =~= ids_view(src@).take(i as int).push(src@[i as int]@));
        }
        i = i + 1;
    }
    proof {
        assert(ids_view(src@).take(n as int) =~= ids_view(src@));
    }
    out
}

/// The characters of an optional replica identity.
pub open spec fn opt_id_view(o: Option<ReplicaId>) -> Option<Seq<char>> {
    match o {
        Some(id) => Some(id@),
        None => None,
    }
}

/// A copy of an optional replica identity.
pub fn copy_opt_id(o: &Option<ReplicaId>) -> (r: Option<ReplicaId>)
    ensures
        opt_id_view(r) == opt_id_view(*o),
{
    match o {
        Some(id) => Some(id.duplicate()),
        None => None,
    }
}

} // verus!
