//! Stable string keys within a typed replicator namespace.
use vstd::prelude::*;

use crate::sorted_map::{Duplicate, Identifier};

verus! {

/// String key identifying one CRDT value within a typed replicator namespace.
///
/// Equality and ordering use the complete string.
#[derive(Debug, Clone, Eq, Hash, PartialOrd, Ord)]
pub struct ReplicatorKey(String);

impl View for ReplicatorKey {
    type V = Seq<char>;

    closed spec fn view(&self) -> Seq<char> {
        self.0@
    }
}

impl ReplicatorKey {
    /// Creates a replicator key from its complete string identifier.
    pub fn new(value: &str) -> (r: Self)
        ensures
            r@ == value@,
    {
        ReplicatorKey(value.to_owned())
    }

    /// Returns the complete key identifier.
    pub fn as_str(&self) -> (r: &str)
        ensures
            r@ == self@,
    {
        self.0.as_str()
    }
}

impl PartialEq for ReplicatorKey {
    fn eq(&self, other: &Self) -> (r: bool) {
        self.0 == other.0
    }
}

impl vstd::std_specs::cmp::PartialEqSpecImpl for ReplicatorKey {
    open spec fn obeys_eq_spec() -> bool {
        true
    }

    open spec fn eq_spec(&self, other: &ReplicatorKey) -> bool {
        self@ == other@
    }
}

impl Duplicate for ReplicatorKey {
    fn duplicate(&self) -> (r: ReplicatorKey) {
        ReplicatorKey(self.0.clone())
    }
}

impl Identifier for ReplicatorKey {
    fn as_key(&self) -> (r: &str) {
        self.0.as_str()
    }
}

/// Identifiers of a sequence of keys, in order.
pub open spec fn keys_view(s: Seq<ReplicatorKey>) -> Seq<Seq<char>> {
    s.map_values(|k: ReplicatorKey| k@)
}

} // verus!
