//! Immutable last-writer-wins register with explicit clock and writer identity.
use vstd::prelude::*;

use crate::data::{DeltaReplicatedData, Mergeable, RemovedNodePruning, ReplicatedData, ReplicatedDelta};
use crate::errors::CrdtError;
use crate::order::{compare_str, key_le, key_lt, lemma_key_lt_facts, lemma_key_lt_transitive, KeyOrder};
use crate::replica::ReplicaId;
use crate::settings::{duration_from_millis, duration_nanos, nanos_of};
use crate::sorted_map::Duplicate;
use crate::sorted_set::SortedSet;
use std::time::{Duration, SystemTime, UNIX_EPOCH};

verus! {

broadcast use lemma_key_lt_facts, lemma_key_lt_transitive;

/// Abstract register: writer, value, timestamp.
pub type Lww<W> = (Seq<char>, W, i64);

/// The winner of two registers: the later timestamp, then the lower writer.
pub open spec fn lww_merged<W>(a: Lww<W>, b: Lww<W>) -> Lww<W> {
    if a.2 > b.2 {
        a
    } else if a.2 < b.2 {
        b
    } else if key_le(a.0, b.0) {
        a
    } else {
        b
    }
}

/// `current + 1`, saturating at `i64::MAX`.
pub open spec fn saturating_inc(current: i64) -> i64 {
    if current == i64::MAX {
        i64::MAX
    } else {
        (current + 1) as i64
    }
}

/// `current - 1`, saturating at `i64::MIN`.
pub open spec fn saturating_dec(current: i64) -> i64 {
    if current == i64::MIN {
        i64::MIN
    } else {
        (current - 1) as i64
    }
}

/// Forward clock at wall time `now`: the later of `now` and `current + 1`.
pub open spec fn forward_clock(now: i64, current: i64) -> i64 {
    if now >= saturating_inc(current) {
        now
    } else {
        saturating_inc(current)
    }
}

/// Reverse clock at wall time `now`: the earlier of `-now` and `current - 1`.
pub open spec fn backward_clock(now: i64, current: i64) -> i64 {
    let neg = if now == i64::MIN {
        i64::MAX
    } else {
        (-now) as i64
    };
    if neg <= saturating_dec(current) {
        neg
    } else {
        saturating_dec(current)
    }
}

#[verifier::external_type_specification]
#[verifier::external_body]
pub struct ExSystemTime(SystemTime);

/// `SystemTime::now`: the current wall-clock reading; nothing is promised of it.
#[verifier::external_body]
fn system_now() -> SystemTime {
    SystemTime::now()
}

/// `SystemTime::duration_since(UNIX_EPOCH)`: the time elapsed since the
/// Unix epoch, or `None` when `t` lies before it; nothing is promised of the
/// amount.
#[verifier::external_body]
fn since_unix_epoch(t: &SystemTime) -> Option<Duration> {
    match t.duration_since(UNIX_EPOCH) {
        Ok(duration) => Some(duration),
        Err(_) => None,
    }
}

/// Whole milliseconds of a clock reading `d`, saturating at `i64::MAX`.
pub open spec fn clock_millis(d: Duration) -> i64 {
    let millis = duration_nanos(d) / 1_000_000;
    if millis > i64::MAX {
        i64::MAX
    } else {
        millis as i64
    }
}

/// Unix-epoch wall-clock milliseconds, whole milliseconds rounded down, of
/// the time elapsed since the epoch as the clock reads it now; zero (the
/// empty duration) when the clock is before the epoch.
pub(crate) fn unix_time_millis() -> (r: u128)
    ensures
        exists|d: Duration| r == #[trigger] duration_nanos(d) / 1_000_000,
{
    let duration = match since_unix_epoch(&system_now()) {
        Some(duration) => duration,
        None => duration_from_millis(0),
    };
    let r = nanos_of(&duration) / 1_000_000;
    proof {
        assert(r == duration_nanos(duration) / 1_000_000);
    }
    r
}

/// Unix-epoch wall-clock milliseconds, saturating at `u64::MAX`.
pub(crate) fn wall_clock_millis() -> (r: u64) {
    let millis = unix_time_millis();
    if millis > u64::MAX as u128 {
        u64::MAX
    } else {
        millis as u64
    }
}

/// Wall-clock milliseconds, saturating at `i64::MAX`.
fn system_time_millis() -> (r: i64)
    ensures
        r >= 0,
        exists|d: Duration| r == #[trigger] clock_millis(d),
{
    let millis = unix_time_millis();
    let ghost d = choose|d: Duration| millis == #[trigger] duration_nanos(d) / 1_000_000;
    let r = if millis > i64::MAX as u128 {
        i64::MAX
    } else {
        millis as i64
    };
    proof {
        assert(r == clock_millis(d));
    }
    r
}

/// The forward clock never stamps behind the wall-clock reading nor at or
/// before the current timestamp (saturating at `i64::MAX`), and it stamps
/// one of the two; the reverse clock mirrors it below `-now` and the current
/// timestamp.
pub proof fn lemma_clocks_follow_reading(now: i64, current: i64)
    ensures
        forward_clock(now, current) >= now,
        forward_clock(now, current) >= saturating_inc(current),
        forward_clock(now, current) == now || forward_clock(now, current) == saturating_inc(current),
        now >= 0 ==> backward_clock(now, current) <= -now,
        backward_clock(now, current) <= saturating_dec(current),
{
}

/// Forward register clock for a given wall time.
pub fn default_lww_clock_at(now_millis: i64, current_timestamp: i64) -> (r: i64)
    ensures
        r == forward_clock(now_millis, current_timestamp),
{
    let next = if current_timestamp == i64::MAX {
        i64::MAX
    } else {
        current_timestamp + 1
    };
    if now_millis >= next {
        now_millis
    } else {
        next
    }
}

/// Reverse register clock for a given wall time.
pub fn reverse_lww_clock_at(now_millis: i64, current_timestamp: i64) -> (r: i64)
    ensures
        r == backward_clock(now_millis, current_timestamp),
{
    let neg = if now_millis == i64::MIN {
        i64::MAX
    } else {
        -now_millis
    };
    let prev = if current_timestamp == i64::MIN {
        i64::MIN
    } else {
        current_timestamp - 1
    };
    if neg <= prev {
        neg
    } else {
        prev
    }
}

/// Returns the later of wall-clock milliseconds and `current_timestamp + 1`.
pub fn default_lww_clock(current_timestamp: i64) -> (r: i64)
    ensures
        exists|now: i64| now >= 0 && r == forward_clock(now, current_timestamp),
        r >= saturating_inc(current_timestamp),
        exists|d: Duration| r == forward_clock(#[trigger] clock_millis(d), current_timestamp),
{
    let now = system_time_millis();
    let ghost d = choose|d: Duration| now == #[trigger] clock_millis(d);
    let r = default_lww_clock_at(now, current_timestamp);
    proof {
        assert(r == forward_clock(clock_millis(d), current_timestamp));
    }
    r
}

/// Returns the earlier of negative wall-clock milliseconds and `current_timestamp - 1`.
pub fn reverse_lww_clock(current_timestamp: i64) -> (r: i64)
    ensures
        exists|now: i64| now >= 0 && r == backward_clock(now, current_timestamp),
        r <= saturating_dec(current_timestamp),
        exists|d: Duration| r == backward_clock(#[trigger] clock_millis(d), current_timestamp),
{
    let now = system_time_millis();
    let ghost d = choose|d: Duration| now == #[trigger] clock_millis(d);
    let r = reverse_lww_clock_at(now, current_timestamp);
    proof {
        assert(r == backward_clock(clock_millis(d), current_timestamp));
    }
    r
}

#[derive(Debug, PartialEq, Eq)]
/// Last-writer-wins register ordered by timestamp then replica identity.
///
/// The greatest timestamp wins; equal timestamps choose the lowest replica.
pub struct LWWRegister<T: Duplicate> {
    node: ReplicaId,
    value: T,
    timestamp: i64,
    delta: Option<Box<LWWRegister<T>>>,
}

impl<T: Duplicate> View for LWWRegister<T> {
    type V = Lww<T::V>;

    closed spec fn view(&self) -> Lww<T::V> {
        (self.node@, self.value@, self.timestamp)
    }
}

impl<T: Duplicate> LWWRegister<T> {
    /// The last written register, if any, since the last delta reset.
    pub closed spec fn delta_view(&self) -> Option<Lww<T::V>> {
        match self.delta {
            Some(d) => Some(d@),
            None => None,
        }
    }

    /// Creates a register with an explicit writer, value, and timestamp.
    pub fn new(node: ReplicaId, value: T, timestamp: i64) -> (r: Self)
        ensures
            r@ == (node@, value@, timestamp),
            r.delta_view() is None,
    {
        LWWRegister { node, value, timestamp, delta: None }
    }

    /// Creates a register stamped by the forward clock from timestamp zero.
    pub fn with_default_clock(node: ReplicaId, value: T) -> (r: Self)
        ensures
            r@.0 == node@,
            r@.1 == value@,
            r@.2 >= 1,
            exists|now: i64| now >= 0 && r@.2 == forward_clock(now, 0),
            exists|d: Duration| r@.2 == forward_clock(#[trigger] clock_millis(d), 0),
            r.delta_view() is None,
    {
        let ts = default_lww_clock(0);
        Self::new(node, value, ts)
    }

    /// Returns the replica that wrote the current value.
    pub fn node(&self) -> (r: &ReplicaId)
        ensures
            r@ == self@.0,
    {
        &self.node
    }

    /// Returns the current register value.
    pub fn value(&self) -> (r: &T)
        ensures
            r@ == self@.1,
    {
        &self.value
    }

    /// Returns the current ordering timestamp.
    pub fn timestamp(&self) -> (r: i64)
        ensures
            r == self@.2,
    {
        self.timestamp
    }

    /// Replaces the value at an explicit timestamp and records it as a delta.
    pub fn with_value(&self, node: ReplicaId, value: T, timestamp: i64) -> (r: Self)
        ensures
            r@ == (node@, value@, timestamp),
            r.delta_view() == Some(r@),
    {
        let next = LWWRegister {
            node: node.duplicate(),
            value: value.duplicate(),
            timestamp,
            delta: None,
        };
        LWWRegister { node, value, timestamp, delta: Some(Box::new(next)) }
    }

    /// Replaces the value using a caller-supplied timestamp function.
    ///
    /// The function receives the current timestamp and proposed value.
    pub fn with_value_by_clock(
        &self,
        node: ReplicaId,
        value: T,
        clock: impl FnOnce(i64, &T) -> i64,
    ) -> (r: Self)
        requires
            call_requires(clock, (self@.2, &value)),
        ensures
            r@.0 == node@,
            r@.1 == value@,
            call_ensures(clock, (self@.2, &value), r@.2),
            r.delta_view() == Some(r@),
    {
        let timestamp = clock(self.timestamp, &value);
        self.with_value(node, value, timestamp)
    }

    /// Replaces the value using the monotonically increasing forward clock.
    pub fn with_value_default_clock(&self, node: ReplicaId, value: T) -> (r: Self)
        ensures
            r@.0 == node@,
            r@.1 == value@,
            r@.2 >= saturating_inc(self@.2),
            exists|now: i64| now >= 0 && r@.2 == forward_clock(now, self@.2),
            exists|d: Duration| r@.2 == forward_clock(#[trigger] clock_millis(d), self@.2),
            r.delta_view() == Some(r@),
    {
        let timestamp = default_lww_clock(self.timestamp);
        self.with_value(node, value, timestamp)
    }

    /// Replaces the value using the decreasing first-write-wins clock.
    pub fn with_value_reverse_clock(&self, node: ReplicaId, value: T) -> (r: Self)
        ensures
            r@.0 == node@,
            r@.1 == value@,
            r@.2 <= saturating_dec(self@.2),
            exists|now: i64| now >= 0 && r@.2 == backward_clock(now, self@.2),
            exists|d: Duration| r@.2 == backward_clock(#[trigger] clock_millis(d), self@.2),
            r.delta_view() == Some(r@),
    {
        let timestamp = reverse_lww_clock(self.timestamp);
        self.with_value(node, value, timestamp)
    }

    /// The same register without a pending delta.
    pub fn reset(&self) -> (r: Self)
        ensures
            r@ == self@,
            r.delta_view() is None,
    {
        LWWRegister {
            node: self.node.duplicate(),
            value: self.value.duplicate(),
            timestamp: self.timestamp,
            delta: None,
        }
    }

    /// A copy with the same register and pending delta.
    pub fn duplicate(&self) -> (r: Self)
        ensures
            r@ == self@,
            r.delta_view() == self.delta_view(),
        decreases self,
    {
        let delta = match &self.delta {
            Some(d) => Some(Box::new(d.duplicate())),
            None => None,
        };
        LWWRegister {
            node: self.node.duplicate(),
            value: self.value.duplicate(),
            timestamp: self.timestamp,
            delta,
        }
    }
}

impl<T: Duplicate> Clone for LWWRegister<T> {
    fn clone(&self) -> (r: Self)
        ensures
            r@ == self@,
    {
        self.duplicate()
    }
}

impl<T: Duplicate> Duplicate for LWWRegister<T> {
    fn duplicate(&self) -> (r: Self) {
        LWWRegister::duplicate(self)
    }
}

impl<T: Duplicate> Mergeable for LWWRegister<T> {
    fn clone_value(&self) -> (r: Self) {
        LWWRegister::duplicate(self)
    }

    open spec fn settled(&self) -> bool {
        self.delta_view() is None
    }

    open spec fn merged(a: Lww<T::V>, b: Lww<T::V>) -> Lww<T::V> {
        lww_merged(a, b)
    }

    fn merge(&self, other: &Self) -> (r: Self) {
        let self_wins = if self.timestamp > other.timestamp {
            true
        } else if self.timestamp < other.timestamp {
            false
        } else {
            match compare_str(self.node.as_str(), other.node.as_str()) {
                KeyOrder::Greater => false,
                _ => true,
            }
        };
        if self_wins {
            self.reset()
        } else {
            other.reset()
        }
    }
}

impl<T: Duplicate> ReplicatedData for LWWRegister<T> {
    fn lemma_valid(&self) {
    }

    open spec fn valid(v: Lww<T::V>) -> bool {
        true
    }

    open spec fn coherent(a: Lww<T::V>, b: Lww<T::V>) -> bool {
        a.0 == b.0 && a.2 == b.2 ==> a.1 == b.1
    }


    proof fn lemma_merge_closed(a: Lww<T::V>, b: Lww<T::V>, c: Lww<T::V>) {
    }

    proof fn lemma_coherent_symmetric(a: Lww<T::V>, b: Lww<T::V>) {
    }

    proof fn lemma_merge_idempotent(a: Lww<T::V>) {
    }

    proof fn lemma_merge_commutative(a: Lww<T::V>, b: Lww<T::V>) {
        if a.2 == b.2 && a.0 != b.0 {
            assert(key_lt(a.0, b.0) || key_lt(b.0, a.0));
        }
    }

    proof fn lemma_merge_associative(a: Lww<T::V>, b: Lww<T::V>, c: Lww<T::V>) {
        if a.2 == b.2 && a.0 != b.0 {
            assert(key_lt(a.0, b.0) || key_lt(b.0, a.0));
        }
        if b.2 == c.2 && b.0 != c.0 {
            assert(key_lt(b.0, c.0) || key_lt(c.0, b.0));
        }
        if a.2 == c.2 && a.0 != c.0 {
            assert(key_lt(a.0, c.0) || key_lt(c.0, a.0));
        }
    }
}

impl<T: Duplicate> DeltaReplicatedData for LWWRegister<T> {
    type Delta = LWWRegister<T>;

    open spec fn pending_delta(&self) -> Option<Lww<T::V>> {
        self.delta_view()
    }

    open spec fn delta_merged(a: Lww<T::V>, d: Lww<T::V>) -> Lww<T::V> {
        lww_merged(a, d)
    }

    fn delta(&self) -> (r: Option<LWWRegister<T>>) {
        match &self.delta {
            Some(d) => Some(d.duplicate()),
            None => None,
        }
    }

    fn merge_delta(&self, delta: &LWWRegister<T>) -> (r: LWWRegister<T>) {
        self.merge(delta)
    }

    fn reset_delta(&self) -> (r: LWWRegister<T>)
        ensures
            r.delta_view() is None,
    {
        self.reset()
    }
}

impl<T: Duplicate> ReplicatedDelta for LWWRegister<T> {
    type Full = LWWRegister<T>;

    open spec fn zero_state(d: Lww<T::V>) -> Lww<T::V> {
        d
    }

    fn zero(&self) -> (r: LWWRegister<T>)
        ensures
            r@ == self@,
            r.delta_view() is None,
    {
        self.reset()
    }
}

impl<T: Duplicate> RemovedNodePruning for LWWRegister<T> {
    open spec fn modified_by(v: Lww<T::V>) -> Set<Seq<char>> {
        set![v.0]
    }

    open spec fn prune_fails(v: Lww<T::V>, removed: Seq<char>, into: Seq<char>) -> bool {
        false
    }

    open spec fn pruned(v: Lww<T::V>, removed: Seq<char>, into: Seq<char>) -> Lww<T::V> {
        if v.0 == removed {
            (into, v.1, v.2)
        } else {
            v
        }
    }

    open spec fn cleaned(v: Lww<T::V>, removed: Seq<char>) -> Lww<T::V> {
        v
    }

    fn modified_by_replica_ids(&self) -> (r: SortedSet<ReplicaId>) {
        let mut r = SortedSet::new();
        r.insert(self.node.duplicate());
        proof {
            assert(r@ =~= set![self@.0]);
        }
        r
    }

    fn need_pruning_from(&self, removed_replica: &ReplicaId) -> (r: bool) {
        let r = self.node == *removed_replica;
        proof {
            assert(set![self@.0].contains(removed_replica@) == (self@.0 == removed_replica@));
        }
        r
    }

    fn prune(&self, removed_replica: &ReplicaId, collapse_into: ReplicaId) -> (r: Result<
        LWWRegister<T>,
        CrdtError,
    >) {
        if self.node == *removed_replica {
            Ok(LWWRegister {
                node: collapse_into,
                value: self.value.duplicate(),
                timestamp: self.timestamp,
                delta: None,
            })
        } else {
            Ok(self.reset())
        }
    }

    fn pruning_cleanup(&self, removed_replica: &ReplicaId) -> (r: LWWRegister<T>) {
        self.reset()
    }
}


/// Wire form of a timestamp: the same 64 bits read as unsigned.
pub fn timestamp_to_wire(timestamp: i64) -> (r: u64)
    ensures
        r == (if timestamp >= 0 {
            timestamp as int
        } else {
            timestamp + 0x1_0000_0000_0000_0000
        }),
{
    if timestamp >= 0 {
        timestamp as u64
    } else {
        u64::MAX - ((-(timestamp + 1)) as u64)
    }
}

/// A timestamp read back from its wire form.
pub fn timestamp_from_wire(wire: u64) -> (r: i64)
    ensures
        r == (if wire <= i64::MAX {
            wire as int
        } else {
            wire - 0x1_0000_0000_0000_0000
        }),
{
    if wire <= i64::MAX as u64 {
        wire as i64
    } else {
        -((u64::MAX - wire) as i64) - 1
    }
}

/// Reading a timestamp back from its wire form gives the same timestamp.
pub proof fn lemma_timestamp_wire_round_trip(timestamp: i64)
    ensures
        ({
            let wire: int = if timestamp >= 0 {
                timestamp as int
            } else {
                timestamp + 0x1_0000_0000_0000_0000
            };
            (if wire <= i64::MAX {
                wire
            } else {
                wire - 0x1_0000_0000_0000_0000
            }) == timestamp
        }),
{
}
} // verus!
