//! Ordered application of received delta ranges, per source replica and key.
//!
//! A range is applied only when it continues the last range applied from the
//! same source for the same key: it must start no later than the next
//! version and end after the last one. Older ranges are already handled;
//! ranges that skip versions are reported missing and left for full-state
//! gossip.
use vstd::prelude::*;

use crate::delta_wire::DecodedReplicatorDelta;
use crate::key::ReplicatorKey;
use crate::lww_register::wall_clock_millis;
use crate::protocol::{ReplicatorDeltaAck, ReplicatorDeltaNack};
use crate::pruning::{PTable, PruningTable};
use crate::replica::ReplicaId;
use crate::sorted_map::{lemma_sorted_pos, pos_of, Duplicate, SortedMap};

verus! {

/// Abstract outcome of applying one received range.
pub enum ReceiveStatusView {
    Applied {
        from: Seq<char>,
        key: Seq<char>,
        previous_version: u64,
        to_version: u64,
        changed: bool,
    },
    AlreadyHandled { from: Seq<char>, key: Seq<char>, current_version: u64, to_version: u64 },
    Missing {
        from: Seq<char>,
        key: Seq<char>,
        current_version: u64,
        expected_from_version: u64,
        from_version: u64,
        to_version: u64,
    },
    InvalidRange { from: Seq<char>, key: Seq<char>, from_version: u64, to_version: u64 },
}

/// Outcome of applying one received delta range.
#[derive(Debug, Clone, PartialEq, Eq)]
pub enum DeltaReceiveStatus {
    /// The range was merged and the source's version advanced to `to_version`.
    Applied {
        from: ReplicaId,
        key: ReplicatorKey,
        previous_version: u64,
        to_version: u64,
        changed: bool,
    },
    /// Every version of the range was applied before.
    AlreadyHandled { from: ReplicaId, key: ReplicatorKey, current_version: u64, to_version: u64 },
    /// The range starts after the next expected version.
    Missing {
        from: ReplicaId,
        key: ReplicatorKey,
        current_version: u64,
        expected_from_version: u64,
        from_version: u64,
        to_version: u64,
    },
    /// The range is empty or starts at version zero.
    InvalidRange { from: ReplicaId, key: ReplicatorKey, from_version: u64, to_version: u64 },
}

impl View for DeltaReceiveStatus {
    type V = ReceiveStatusView;

    open spec fn view(&self) -> ReceiveStatusView {
        match self {
            DeltaReceiveStatus::Applied { from, key, previous_version, to_version, changed } =>
                ReceiveStatusView::Applied {
                from: from@,
                key: key@,
                previous_version: *previous_version,
                to_version: *to_version,
                changed: *changed,
            },
            DeltaReceiveStatus::AlreadyHandled { from, key, current_version, to_version } =>
                ReceiveStatusView::AlreadyHandled {
                from: from@,
                key: key@,
                current_version: *current_version,
                to_version: *to_version,
            },
            DeltaReceiveStatus::Missing {
                from,
                key,
                current_version,
                expected_from_version,
                from_version,
                to_version,
            } => ReceiveStatusView::Missing {
                from: from@,
                key: key@,
                current_version: *current_version,
                expected_from_version: *expected_from_version,
                from_version: *from_version,
                to_version: *to_version,
            },
            DeltaReceiveStatus::InvalidRange { from, key, from_version, to_version } =>
                ReceiveStatusView::InvalidRange {
                from: from@,
                key: key@,
                from_version: *from_version,
                to_version: *to_version,
            },
        }
    }
}

/// Last applied version of every (source, key) pair.
pub type ReceivedVersions = Map<(Seq<char>, Seq<char>), u64>;

/// Last version applied from `from` for `key`, zero when none.
pub open spec fn received_version(t: ReceivedVersions, from: Seq<char>, key: Seq<char>) -> u64 {
    if t.contains_key((from, key)) {
        t[(from, key)]
    } else {
        0
    }
}

/// Whether a range `from_version..=to_version` continues a source at `prev`.
pub open spec fn range_applies(prev: u64, from_version: u64, to_version: u64) -> bool {
    &&& from_version != 0
    &&& from_version <= to_version
    &&& prev < to_version
    &&& from_version <= prev + 1
}

/// The status reported for a range received at version `prev`; everything
/// of an applied range but whether the merge changed state.
pub open spec fn receive_fits(
    s: ReceiveStatusView,
    prev: u64,
    from: Seq<char>,
    key: Seq<char>,
    from_version: u64,
    to_version: u64,
) -> bool {
    if from_version == 0 || to_version < from_version {
        s == ReceiveStatusView::InvalidRange { from, key, from_version, to_version }
    } else if prev >= to_version {
        s == ReceiveStatusView::AlreadyHandled { from, key, current_version: prev, to_version }
    } else if from_version > prev + 1 {
        s == ReceiveStatusView::Missing {
            from,
            key,
            current_version: prev,
            expected_from_version: (prev + 1) as u64,
            from_version,
            to_version,
        }
    } else {
        s matches ReceiveStatusView::Applied {
            from: f,
            key: k,
            previous_version: p,
            to_version: t,
            ..
        } && f == from && k == key && p == prev && t == to_version
    }
}

/// Versions after receiving one range.
pub open spec fn received_after(
    t: ReceivedVersions,
    from: Seq<char>,
    key: Seq<char>,
    from_version: u64,
    to_version: u64,
) -> ReceivedVersions {
    if range_applies(received_version(t, from, key), from_version, to_version) {
        t.insert((from, key), to_version)
    } else {
        t
    }
}

/// A range that could not be decoded.
#[derive(Debug, PartialEq, Eq)]
pub enum DeltaReceiveFailure {
    /// The range for `key` failed to decode for `reason`.
    DecodeFailed { key: String, reason: String },
}

impl View for DeltaReceiveFailure {
    type V = (Seq<char>, Seq<char>);

    open spec fn view(&self) -> (Seq<char>, Seq<char>) {
        match self {
            DeltaReceiveFailure::DecodeFailed { key, reason } => (key@, reason@),
        }
    }
}

impl Clone for DeltaReceiveFailure {
    fn clone(&self) -> (r: Self)
        ensures
            r@ == self@,
    {
        match self {
            DeltaReceiveFailure::DecodeFailed { key, reason } => DeltaReceiveFailure::DecodeFailed {
                key: key.clone(),
                reason: reason.clone(),
            },
        }
    }
}

/// Reply owed to the sender of a propagation that asked for one.
#[derive(Debug, Clone, Copy, PartialEq, Eq)]
pub enum DeltaReceiveReply {
    /// Every range was applied or already handled.
    Ack(ReplicatorDeltaAck),
    /// Some range failed; the sender should fall back to full state.
    Nack(ReplicatorDeltaNack),
}

/// Abstract report of one received propagation.
pub struct ReceiveReportView {
    pub from: Seq<char>,
    pub reply_requested: bool,
    pub statuses: Seq<ReceiveStatusView>,
    pub failures: Seq<(Seq<char>, Seq<char>)>,
}

/// Whether every range of a report was applied or already handled.
pub open spec fn report_success(v: ReceiveReportView) -> bool {
    &&& v.failures.len() == 0
    &&& forall|i: int|
        0 <= i < v.statuses.len() ==> (#[trigger] v.statuses[i] is Applied
            || v.statuses[i] is AlreadyHandled)
}

/// Abstract values of a sequence of statuses.
pub open spec fn statuses_view(s: Seq<DeltaReceiveStatus>) -> Seq<ReceiveStatusView> {
    s.map_values(|x: DeltaReceiveStatus| x@)
}

/// Abstract values of a sequence of failures.
pub open spec fn failures_view(s: Seq<DeltaReceiveFailure>) -> Seq<(Seq<char>, Seq<char>)> {
    s.map_values(|x: DeltaReceiveFailure| x@)
}

/// Statuses and decoding failures of one received propagation.
#[derive(Debug, Clone, PartialEq, Eq)]
pub struct DeltaPropagationReceiveReport {
    from: ReplicaId,
    reply_requested: bool,
    statuses: Vec<DeltaReceiveStatus>,
    failures: Vec<DeltaReceiveFailure>,
}

impl View for DeltaPropagationReceiveReport {
    type V = ReceiveReportView;

    closed spec fn view(&self) -> ReceiveReportView {
        ReceiveReportView {
            from: self.from@,
            reply_requested: self.reply_requested,
            statuses: statuses_view(self.statuses@),
            failures: failures_view(self.failures@),
        }
    }
}

impl DeltaPropagationReceiveReport {
    /// Source replica of the propagation.
    pub fn from(&self) -> (r: &ReplicaId)
        ensures
            r@ == self@.from,
    {
        &self.from
    }

    /// Whether the sender asked for a reply.
    pub fn reply_requested(&self) -> (r: bool)
        ensures
            r == self@.reply_requested,
    {
        self.reply_requested
    }

    /// Outcome of every decoded range, in propagation order.
    pub fn statuses(&self) -> (r: &[DeltaReceiveStatus])
        ensures
            statuses_view(r@) == self@.statuses,
    {
        self.statuses.as_slice()
    }

    /// Ranges that failed to decode, in propagation order.
    pub fn failures(&self) -> (r: &[DeltaReceiveFailure])
        ensures
            failures_view(r@) == self@.failures,
    {
        self.failures.as_slice()
    }

    /// Whether every range was applied or already handled.
    pub fn is_success(&self) -> (r: bool)
        ensures
            r == report_success(self@),
    {
        if self.failures.len() != 0 {
            return false;
        }
        let n = self.statuses.len();
        let mut i: usize = 0;
        while i < n
            invariant
                n == self.statuses@.len(),
                i <= n,
                self.failures@.len() == 0,
                forall|j: int|
                    0 <= j < i ==> (#[trigger] self@.statuses[j] is Applied
                        || self@.statuses[j] is AlreadyHandled),
            decreases n - i,
        {
            match &self.statuses[i] {
                DeltaReceiveStatus::Applied { .. } => {},
                DeltaReceiveStatus::AlreadyHandled { .. } => {},
                _ => {
                    proof {
                        assert(!(self@.statuses[i as int] is Applied || self@.statuses[i as int] is AlreadyHandled));
                    }
                    return false;
                },
            }
            i = i + 1;
        }
        true
    }

    /// The reply owed to the sender: none unless requested, an acknowledgement
    /// on success and a rejection otherwise.
    pub fn reply(&self) -> (r: Option<DeltaReceiveReply>)
        ensures
            r == if !self@.reply_requested {
                None
            } else if report_success(self@) {
                Some(DeltaReceiveReply::Ack(ReplicatorDeltaAck))
            } else {
                Some(DeltaReceiveReply::Nack(ReplicatorDeltaNack))
            },
    {
        if !self.reply_requested {
            return None;
        }
        if self.is_success() {
            Some(DeltaReceiveReply::Ack(ReplicatorDeltaAck))
        } else {
            Some(DeltaReceiveReply::Nack(ReplicatorDeltaNack))
        }
    }
}

/// Version ranges of the decoded items, in order.
pub open spec fn ok_ranges<Delta: View>(
    items: Seq<Result<DecodedReplicatorDelta<Delta>, DeltaReceiveFailure>>,
) -> Seq<(Seq<char>, u64, u64)>
    decreases items.len(),
{
    if items.len() == 0 {
        Seq::empty()
    } else {
        let rest = ok_ranges(items.drop_last());
        match items.last() {
            Ok(d) => rest.push((d@.key, d@.from_version, d@.to_version)),
            Err(_) => rest,
        }
    }
}

/// Decoding failures of the items, in order.
pub open spec fn failed_items<Delta: View>(
    items: Seq<Result<DecodedReplicatorDelta<Delta>, DeltaReceiveFailure>>,
) -> Seq<(Seq<char>, Seq<char>)>
    decreases items.len(),
{
    if items.len() == 0 {
        Seq::empty()
    } else {
        let rest = failed_items(items.drop_last());
        match items.last() {
            Ok(_) => rest,
            Err(f) => rest.push(f@),
        }
    }
}

/// Versions after receiving a sequence of ranges from `from`.
pub open spec fn received_after_all(
    t: ReceivedVersions,
    from: Seq<char>,
    ranges: Seq<(Seq<char>, u64, u64)>,
) -> ReceivedVersions
    decreases ranges.len(),
{
    if ranges.len() == 0 {
        t
    } else {
        let r = ranges.last();
        received_after(received_after_all(t, from, ranges.drop_last()), from, r.0, r.1, r.2)
    }
}

/// A report of a propagation received at versions `t0`, leaving `t1`: one
/// status per decoded range, each as received after the ranges before it.
pub open spec fn propagation_received<Delta: View>(
    t0: ReceivedVersions,
    from: Seq<char>,
    reply: bool,
    items: Seq<Result<DecodedReplicatorDelta<Delta>, DeltaReceiveFailure>>,
    report: ReceiveReportView,
    t1: ReceivedVersions,
) -> bool {
    let ranges = ok_ranges(items);
    &&& report.from == from
    &&& report.reply_requested == reply
    &&& report.failures == failed_items(items)
    &&& report.statuses.len() == ranges.len()
    &&& forall|i: int|
        0 <= i < ranges.len() ==> receive_fits(
            #[trigger] report.statuses[i],
            received_version(received_after_all(t0, from, ranges.take(i)), from, ranges[i].0),
            from,
            ranges[i].0,
            ranges[i].1,
            ranges[i].2,
        )
    &&& t1 == received_after_all(t0, from, ranges)
}

/// Replicated state that received deltas are written into.
///
/// A store may name, as spec relations, what each write does to it; the
/// writes are held to them. A store that names none keeps the defaults,
/// which constrain nothing.
pub trait DeltaTarget<Delta: View>: Sized {
    /// Whether `after`, reporting `changed`, is what merging `delta` under
    /// `key` into `before` gives (with the pruning markers and wall-clock
    /// time given, if any).
    open spec fn delta_merged(
        before: Self,
        key: Seq<char>,
        delta: Delta::V,
        pruning: Option<(PTable, u64)>,
        after: Self,
        changed: bool,
    ) -> bool {
        true
    }

    /// Whether `after`, reporting `changed`, is what recording that
    /// `seen_by` observed the pruning markers of `key` in `before` gives.
    open spec fn pruning_marked(before: Self, key: Seq<char>, seen_by: Seq<char>, after: Self, changed: bool) -> bool {
        true
    }

    /// Merges `delta` into the value stored under `key`; whether anything changed.
    fn write_delta(&mut self, key: ReplicatorKey, delta: Delta) -> (r: bool)
        ensures
            Self::delta_merged(*old(self), key@, delta@, None, *final(self), r),
    ;

    /// Merges `delta` under `key` after applying the removed-replica `pruning`
    /// markers at wall-clock `now_millis`; whether anything changed.
    fn write_delta_pruned(
        &mut self,
        key: ReplicatorKey,
        delta: Delta,
        pruning: &PruningTable,
        now_millis: u64,
    ) -> (r: bool)
        ensures
            Self::delta_merged(*old(self), key@, delta@, Some((pruning@, now_millis)), *final(self), r),
    ;

    /// Records that `seen_by` has observed the pruning markers of `key`;
    /// whether anything changed.
    fn mark_key_pruning_seen(&mut self, key: &ReplicatorKey, seen_by: ReplicaId) -> (r: bool)
        ensures
            Self::pruning_marked(*old(self), key@, seen_by@, *final(self), r),
    ;
}

/// One applied range with pruning at `now`, from `before` to `after`: the
/// pruned merge, to `between` when `seen_by` is given, then the seen
/// marking; changed when either changed.
pub open spec fn pruned_step<Delta: View, S: DeltaTarget<Delta>>(
    before: S,
    key: Seq<char>,
    delta: Delta::V,
    pruning: PTable,
    now: u64,
    seen_by: Option<Seq<char>>,
    between: S,
    first_changed: bool,
    second_changed: bool,
    after: S,
    changed: bool,
) -> bool {
    match seen_by {
        None => S::delta_merged(before, key, delta, Some((pruning, now)), after, changed),
        Some(x) => {
            &&& S::delta_merged(before, key, delta, Some((pruning, now)), between, first_changed)
            &&& S::pruning_marked(between, key, x, after, second_changed)
            &&& changed == (first_changed || second_changed)
        },
    }
}

/// The identity of an optional observer.
pub open spec fn seen_view(seen_by: Option<&ReplicaId>) -> Option<Seq<char>> {
    match seen_by {
        Some(x) => Some(x@),
        None => None,
    }
}

/// Key, delta and pruning markers of every decoded range, in order.
pub open spec fn ok_payloads<Delta: View>(
    items: Seq<Result<DecodedReplicatorDelta<Delta>, DeltaReceiveFailure>>,
) -> Seq<(Seq<char>, Delta::V, PTable)>
    decreases items.len(),
{
    if items.len() == 0 {
        Seq::empty()
    } else {
        let rest = ok_payloads(items.drop_last());
        match items.last() {
            Ok(d) => rest.push((d@.key, d@.delta, d@.pruning)),
            Err(_) => rest,
        }
    }
}

/// One reported range on the store: an applied range is a pruned step at
/// wall-clock time `now` reporting its changed flag; any other status
/// leaves the store as it was.
pub open spec fn received_step<Delta: View, S: DeltaTarget<Delta>>(
    before: S,
    x: (Seq<char>, Delta::V, PTable),
    status: ReceiveStatusView,
    now: u64,
    seen_by: Option<Seq<char>>,
    after: S,
) -> bool {
    match status {
        ReceiveStatusView::Applied { changed, .. } => exists|
            between: S,
            first_changed: bool,
            second_changed: bool,
        |
            #[trigger] pruned_step::<Delta, S>(
                before,
                x.0,
                x.1,
                x.2,
                now,
                seen_by,
                between,
                first_changed,
                second_changed,
                after,
                changed,
            ),
        _ => after == before,
    }
}

/// Whether `after` is the store after a propagation whose decoded ranges
/// `ds` were reported with `statuses`, starting from `before`: each range
/// is a received step, at wall-clock time `nows[i]`, on the store the
/// ranges before it left.
pub open spec fn received_state<Delta: View, S: DeltaTarget<Delta>>(
    before: S,
    ds: Seq<(Seq<char>, Delta::V, PTable)>,
    statuses: Seq<ReceiveStatusView>,
    nows: Seq<u64>,
    seen_by: Option<Seq<char>>,
    after: S,
) -> bool
    decreases ds.len(),
{
    if ds.len() == 0 {
        after == before
    } else {
        let i = ds.len() - 1;
        exists|mid: S|
            {
                &&& received_state(before, ds.drop_last(), statuses.take(i), nows.take(i), seen_by, mid)
                &&& #[trigger] received_step::<Delta, S>(mid, ds[i], statuses[i], nows[i], seen_by, after)
            }
    }
}

/// One more range extends a received store.
proof fn lemma_received_state_push<Delta: View, S: DeltaTarget<Delta>>(
    before: S,
    ds: Seq<(Seq<char>, Delta::V, PTable)>,
    statuses: Seq<ReceiveStatusView>,
    nows: Seq<u64>,
    seen_by: Option<Seq<char>>,
    mid: S,
    x: (Seq<char>, Delta::V, PTable),
    status: ReceiveStatusView,
    now: u64,
    after: S,
)
    requires
        statuses.len() == ds.len(),
        nows.len() == ds.len(),
        received_state::<Delta, S>(before, ds, statuses, nows, seen_by, mid),
        received_step::<Delta, S>(mid, x, status, now, seen_by, after),
    ensures
        received_state::<Delta, S>(before, ds.push(x), statuses.push(status), nows.push(now), seen_by, after),
{
    let ds2 = ds.push(x);
    let i = ds.len() as int;
    assert(ds2.drop_last() =~= ds);
    assert(statuses.push(status).take(i) =~= statuses);
    assert(nows.push(now).take(i) =~= nows);
    assert(received_step::<Delta, S>(mid, ds2[i], statuses.push(status)[i], nows.push(now)[i], seen_by, after));
}

/// Last applied versions of one source, by key.
struct SourceVersions {
    versions: SortedMap<ReplicatorKey, u64>,
}

impl View for SourceVersions {
    type V = Map<Seq<char>, u64>;

    closed spec fn view(&self) -> Map<Seq<char>, u64> {
        self.versions@
    }
}

impl SourceVersions {
    #[verifier::type_invariant]
    spec fn inv(&self) -> bool {
        self.versions.wf()
    }
}

impl Duplicate for SourceVersions {
    fn duplicate(&self) -> (r: Self) {
        proof {
            use_type_invariant(self);
        }
        SourceVersions { versions: self.versions.duplicate() }
    }
}

/// Pairs of a nested source and key map.
spec fn flatten(s: Map<Seq<char>, Map<Seq<char>, u64>>) -> ReceivedVersions {
    Map::new(
        |p: (Seq<char>, Seq<char>)| s.contains_key(p.0) && s[p.0].contains_key(p.1),
        |p: (Seq<char>, Seq<char>)| s[p.0][p.1],
    )
}

/// Tracks the last applied delta version per source replica and key.
pub struct DeltaReceiveTracker {
    sources: SortedMap<ReplicaId, SourceVersions>,
}

impl View for DeltaReceiveTracker {
    type V = ReceivedVersions;

    closed spec fn view(&self) -> ReceivedVersions {
        flatten(self.sources@)
    }
}

impl DeltaReceiveTracker {
    #[verifier::type_invariant]
    spec fn inv(&self) -> bool {
        self.sources.wf()
    }

    /// Creates a tracker that has applied nothing.
    pub fn new() -> (r: Self)
        ensures
            r@ == ReceivedVersions::empty(),
    {
        let r = DeltaReceiveTracker { sources: SortedMap::new() };
        proof {
            assert(r@ =~= ReceivedVersions::empty());
        }
        r
    }

    /// Last version applied from `from` for `key`, zero when none.
    pub fn current_version(&self, from: &ReplicaId, key: &ReplicatorKey) -> (r: u64)
        ensures
            r == received_version(self@, from@, key@),
    {
        proof {
            use_type_invariant(self);
        }
        match self.sources.get(from.as_str()) {
            Some(sv) => {
                proof {
                    use_type_invariant(sv);
                }
                match sv.versions.get(key.as_str()) {
                    Some(v) => *v,
                    None => 0,
                }
            },
            None => 0,
        }
    }

    /// Records `version` as the last applied one from `from` for `key`.
    fn set_version(&mut self, from: &ReplicaId, key: &ReplicatorKey, version: u64)
        ensures
            final(self)@ == old(self)@.insert((from@, key@), version),
    {
        proof {
            use_type_invariant(&*self);
        }
        let ghost old_view = self@;
        let ghost old_s = self.sources@;
        let mut sources = SortedMap::new();
        std::mem::swap(&mut sources, &mut self.sources);
        let mut versions = match sources.get(from.as_str()) {
            Some(sv) => {
                proof {
                    use_type_invariant(sv);
                }
                sv.versions.duplicate()
            },
            None => SortedMap::new(),
        };
        versions.insert(key.duplicate(), version);
        sources.insert(from.duplicate(), SourceVersions { versions });
        self.sources = sources;
        proof {
            assert(self@ =~= old_view.insert((from@, key@), version));
        }
    }

    /// Forgets every version applied from `from`.
    pub fn clear_from(&mut self, from: &ReplicaId)
        ensures
            final(self)@ == Map::new(
                |p: (Seq<char>, Seq<char>)| old(self)@.contains_key(p) && p.0 != from@,
                |p: (Seq<char>, Seq<char>)| old(self)@[p],
            ),
    {
        proof {
            use_type_invariant(&*self);
        }
        let ghost old_view = self@;
        let mut sources = SortedMap::new();
        std::mem::swap(&mut sources, &mut self.sources);
        sources.remove(from.as_str());
        self.sources = sources;
        proof {
            assert(self@ =~= Map::new(
                |p: (Seq<char>, Seq<char>)| old_view.contains_key(p) && p.0 != from@,
                |p: (Seq<char>, Seq<char>)| old_view[p],
            ));
        }
    }

    /// Forgets the versions of `key` from every source.
    pub fn forget_key(&mut self, key: &ReplicatorKey)
        ensures
            final(self)@ == Map::new(
                |p: (Seq<char>, Seq<char>)| old(self)@.contains_key(p) && p.1 != key@,
                |p: (Seq<char>, Seq<char>)| old(self)@[p],
            ),
    {
        proof {
            use_type_invariant(&*self);
        }
        let ghost old_view = self@;
        let mut sources = SortedMap::new();
        std::mem::swap(&mut sources, &mut self.sources);
        let ghost ks = sources.key_seq();
        let ghost s0 = sources@;
        proof {
            sources.lemma_wf();
        }
        let n = sources.len();
        let mut i: usize = 0;
        while i < n
            invariant
                sources.wf(),
                sources.key_seq() == ks,
                n == ks.len(),
                i <= n,
                s0.dom() == ks.to_set(),
                sources@.dom() == s0.dom(),
                forall|f: Seq<char>| #[trigger]
                    s0.contains_key(f) ==> sources@[f] == if pos_of(ks, f) < i {
                        s0[f].remove(key@)
                    } else {
                        s0[f]
                    },
            decreases n - i,
        {
            let ghost f = ks[i as int];
            proof {
                sources.lemma_wf();
                lemma_sorted_pos(ks, i as int);
            }
            let sv = sources.value_at(i);
            proof {
                use_type_invariant(sv);
            }
            let mut versions = sv.versions.duplicate();
            versions.remove(key.as_str());
            sources.set_value_at(i, SourceVersions { versions });
            proof {
                assert forall|f2: Seq<char>| #[trigger] s0.contains_key(f2) && f2 != f implies pos_of(
                    ks,
                    f2,
                ) != i by {}
            }
            i = i + 1;
        }
        proof {
            assert forall|f: Seq<char>| #[trigger] s0.contains_key(f) implies pos_of(ks, f) < n by {
                assert(ks.contains(f));
            }
        }
        self.sources = sources;
        proof {
            assert(self@ =~= Map::new(
                |p: (Seq<char>, Seq<char>)| old_view.contains_key(p) && p.1 != key@,
                |p: (Seq<char>, Seq<char>)| old_view[p],
            ));
        }
    }

    /// Merges a received range into `state` when it continues the source's
    /// applied versions, and reports what happened.
    pub fn apply_delta<Delta: View, S: DeltaTarget<Delta>>(
        &mut self,
        state: &mut S,
        from: ReplicaId,
        key: ReplicatorKey,
        from_version: u64,
        to_version: u64,
        delta: Delta,
    ) -> (r: DeltaReceiveStatus)
        ensures
            receive_fits(
                r@,
                received_version(old(self)@, from@, key@),
                from@,
                key@,
                from_version,
                to_version,
            ),
            final(self)@ == received_after(old(self)@, from@, key@, from_version, to_version),
            match r@ {
                ReceiveStatusView::Applied { changed, .. } => S::delta_merged(
                    *old(state),
                    key@,
                    delta@,
                    None,
                    *final(state),
                    changed,
                ),
                _ => *final(state) == *old(state),
            },
    {
        if from_version == 0 || to_version < from_version {
            return DeltaReceiveStatus::InvalidRange { from, key, from_version, to_version };
        }
        let previous_version = self.current_version(&from, &key);
        if previous_version >= to_version {
            return DeltaReceiveStatus::AlreadyHandled {
                from,
                key,
                current_version: previous_version,
                to_version,
            };
        }
        let expected_from_version = previous_version + 1;
        if from_version > expected_from_version {
            return DeltaReceiveStatus::Missing {
                from,
                key,
                current_version: previous_version,
                expected_from_version,
                from_version,
                to_version,
            };
        }
        let changed = state.write_delta(key.duplicate(), delta);
        self.set_version(&from, &key, to_version);
        DeltaReceiveStatus::Applied { from, key, previous_version, to_version, changed }
    }

    /// Like [`Self::apply_delta`], merging with the range's pruning markers and,
    /// when `seen_by` is given, recording that it has seen them.
    fn apply_delta_pruned<Delta: View, S: DeltaTarget<Delta>>(
        &mut self,
        state: &mut S,
        from: ReplicaId,
        key: ReplicatorKey,
        from_version: u64,
        to_version: u64,
        delta: Delta,
        pruning: PruningTable,
        seen_by: Option<&ReplicaId>,
    ) -> (r: DeltaReceiveStatus)
        ensures
            receive_fits(
                r@,
                received_version(old(self)@, from@, key@),
                from@,
                key@,
                from_version,
                to_version,
            ),
            final(self)@ == received_after(old(self)@, from@, key@, from_version, to_version),
            match r@ {
                ReceiveStatusView::Applied { changed, .. } => exists|
                    now: u64,
                    between: S,
                    first_changed: bool,
                    second_changed: bool,
                |
                    #[trigger] pruned_step::<Delta, S>(
                        *old(state),
                        key@,
                        delta@,
                        pruning@,
                        now,
                        seen_view(seen_by),
                        between,
                        first_changed,
                        second_changed,
                        *final(state),
                        changed,
                    ),
                _ => *final(state) == *old(state),
            },
    {
        if from_version == 0 || to_version < from_version {
            return DeltaReceiveStatus::InvalidRange { from, key, from_version, to_version };
        }
        let previous_version = self.current_version(&from, &key);
        if previous_version >= to_version {
            return DeltaReceiveStatus::AlreadyHandled {
                from,
                key,
                current_version: previous_version,
                to_version,
            };
        }
        let expected_from_version = previous_version + 1;
        if from_version > expected_from_version {
            return DeltaReceiveStatus::Missing {
                from,
                key,
                current_version: previous_version,
                expected_from_version,
                from_version,
                to_version,
            };
        }
        let now = wall_clock_millis();
        let ghost s0 = *state;
        let ghost dv = delta@;
        let merged = state.write_delta_pruned(key.duplicate(), delta, &pruning, now);
        let ghost mid = *state;
        let seen_changed = match seen_by {
            Some(seen) => state.mark_key_pruning_seen(&key, seen.duplicate()),
            None => false,
        };
        let changed = merged || seen_changed;
        proof {
            let sc = match seen_by {
                Some(_) => seen_changed,
                None => false,
            };
            assert(pruned_step::<Delta, S>(
                s0,
                key@,
                dv,
                pruning@,
                now,
                seen_view(seen_by),
                mid,
                merged,
                sc,
                *state,
                changed,
            ));
            assert(s0 == *old(state));
            assert(dv == delta@);
            assert(exists|now2: u64, b: S, f: bool, g: bool|
                #[trigger] pruned_step::<Delta, S>(
                    *old(state),
                    key@,
                    delta@,
                    pruning@,
                    now2,
                    seen_view(seen_by),
                    b,
                    f,
                    g,
                    *state,
                    changed,
                ));
        }
        self.set_version(&from, &key, to_version);
        let ghost kv = key@;
        let r = DeltaReceiveStatus::Applied { from, key, previous_version, to_version, changed };
        proof {
            assert(kv == key@);
            assert(r@ matches ReceiveStatusView::Applied { changed: c, .. } && c == changed);
        }
        r
    }

    /// Applies every decoded range of a propagation from `from`, in order.
    pub fn apply_propagation<Delta: Duplicate, S: DeltaTarget<Delta>>(
        &mut self,
        state: &mut S,
        from: &ReplicaId,
        reply: bool,
        ranges: &Vec<Result<DecodedReplicatorDelta<Delta>, DeltaReceiveFailure>>,
    ) -> (r: DeltaPropagationReceiveReport)
        ensures
            propagation_received(old(self)@, from@, reply, ranges@, r@, final(self)@),
            exists|nows: Seq<u64>|
                #[trigger] received_state::<Delta, S>(
                    *old(state),
                    ok_payloads(ranges@),
                    r@.statuses,
                    nows,
                    None,
                    *final(state),
                ),
    {
        self.apply_propagation_inner(state, from, reply, ranges, None)
    }

    /// Like [`Self::apply_propagation`], also recording that `seen_by` has seen
    /// the pruning markers of every applied key.
    pub fn apply_propagation_with_seen<Delta: Duplicate, S: DeltaTarget<Delta>>(
        &mut self,
        state: &mut S,
        from: &ReplicaId,
        reply: bool,
        ranges: &Vec<Result<DecodedReplicatorDelta<Delta>, DeltaReceiveFailure>>,
        seen_by: &ReplicaId,
    ) -> (r: DeltaPropagationReceiveReport)
        ensures
            propagation_received(old(self)@, from@, reply, ranges@, r@, final(self)@),
            exists|nows: Seq<u64>|
                #[trigger] received_state::<Delta, S>(
                    *old(state),
                    ok_payloads(ranges@),
                    r@.statuses,
                    nows,
                    Some(seen_by@),
                    *final(state),
                ),
    {
        self.apply_propagation_inner(state, from, reply, ranges, Some(seen_by))
    }

    fn apply_propagation_inner<Delta: Duplicate, S: DeltaTarget<Delta>>(
        &mut self,
        state: &mut S,
        from: &ReplicaId,
        reply: bool,
        ranges: &Vec<Result<DecodedReplicatorDelta<Delta>, DeltaReceiveFailure>>,
        seen_by: Option<&ReplicaId>,
    ) -> (r: DeltaPropagationReceiveReport)
        ensures
            propagation_received(old(self)@, from@, reply, ranges@, r@, final(self)@),
            exists|nows: Seq<u64>|
                #[trigger] received_state::<Delta, S>(
                    *old(state),
                    ok_payloads(ranges@),
                    r@.statuses,
                    nows,
                    seen_view(seen_by),
                    *final(state),
                ),
    {
        let ghost t0 = self@;
        let ghost s0 = *state;
        let ghost mut nows: Seq<u64> = Seq::empty();
        let ghost fv = from@;
        let mut statuses: Vec<DeltaReceiveStatus> = Vec::new();
        let mut failures: Vec<DeltaReceiveFailure> = Vec::new();
        let n = ranges.len();
        let mut idx: usize = 0;
        proof {
            assert(ranges@.take(0) =~= Seq::<Result<DecodedReplicatorDelta<Delta>, DeltaReceiveFailure>>::empty());
            assert(statuses_view(statuses@) =~= Seq::<ReceiveStatusView>::empty());
            assert(failures_view(failures@) =~= Seq::<(Seq<char>, Seq<char>)>::empty());
            assert(ok_payloads(ranges@.take(0)) =~= Seq::<(Seq<char>, Delta::V, PTable)>::empty());
        }
        while idx < n
            invariant
                n == ranges@.len(),
                idx <= n,
                fv == from@,
                statuses_view(statuses@).len() == ok_ranges(ranges@.take(idx as int)).len(),
                failures_view(failures@) == failed_items(ranges@.take(idx as int)),
                self@ == received_after_all(t0, fv, ok_ranges(ranges@.take(idx as int))),
                ok_payloads(ranges@.take(idx as int)).len() == ok_ranges(ranges@.take(idx as int)).len(),
                nows.len() == statuses@.len(),
                received_state::<Delta, S>(
                    s0,
                    ok_payloads(ranges@.take(idx as int)),
                    statuses_view(statuses@),
                    nows,
                    seen_view(seen_by),
                    *state,
                ),
                forall|i: int|
                    0 <= i < ok_ranges(ranges@.take(idx as int)).len() ==> receive_fits(
                        #[trigger] statuses_view(statuses@)[i],
                        received_version(
                            received_after_all(t0, fv, ok_ranges(ranges@.take(idx as int)).take(i)),
                            fv,
                            ok_ranges(ranges@.take(idx as int))[i].0,
                        ),
                        fv,
                        ok_ranges(ranges@.take(idx as int))[i].0,
                        ok_ranges(ranges@.take(idx as int))[i].1,
                        ok_ranges(ranges@.take(idx as int))[i].2,
                    ),
            decreases n - idx,
        {
            let ghost w = ok_ranges(ranges@.take(idx as int));
            let ghost wp = ok_payloads(ranges@.take(idx as int));
            let ghost before = *state;
            let ghost old_statuses = statuses_view(statuses@);
            let ghost old_failures = failures_view(failures@);
            proof {
                assert(ranges@.take(idx + 1).drop_last() =~= ranges@.take(idx as int));
                assert(ranges@.take(idx + 1).last() == ranges@[idx as int]);
            }
            match &ranges[idx] {
                Ok(decoded) => {
                    let pruning = decoded.pruning().duplicate();
                    let status = self.apply_delta_pruned(
                        state,
                        from.duplicate(),
                        decoded.key().duplicate(),
                        decoded.from_version(),
                        decoded.to_version(),
                        decoded.delta().duplicate(),
                        pruning,
                        seen_by,
                    );
                    statuses.push(status);
                    proof {
                        let xp = (decoded@.key, decoded@.delta, decoded@.pruning);
                        let wp2 = wp.push(xp);
                        assert(ok_payloads(ranges@.take(idx + 1)) == wp2);
                        assert(wp2.drop_last() =~= wp);
                        let st2 = statuses_view(statuses@);
                        assert(st2.take(old_statuses.len() as int) =~= old_statuses);
                        let k = wp2.len() - 1;
                        assert(k == old_statuses.len());
                        assert(st2[k] == status@);
                        assert(wp2.len() == k + 1);
                        let changed_flag = match status@ {
                            ReceiveStatusView::Applied { changed, .. } => changed,
                            _ => false,
                        };
                        let now: u64 = match status@ {
                            ReceiveStatusView::Applied { .. } => {
                                let (t, between, first_changed, second_changed) = choose|
                                    t: u64,
                                    between: S,
                                    first_changed: bool,
                                    second_changed: bool,
                                |
                                    #[trigger] pruned_step::<Delta, S>(
                                        before,
                                        xp.0,
                                        xp.1,
                                        xp.2,
                                        t,
                                        seen_view(seen_by),
                                        between,
                                        first_changed,
                                        second_changed,
                                        *state,
                                        changed_flag,
                                    );
                                assert(pruned_step::<Delta, S>(
                                    before,
                                    xp.0,
                                    xp.1,
                                    xp.2,
                                    t,
                                    seen_view(seen_by),
                                    between,
                                    first_changed,
                                    second_changed,
                                    *state,
                                    changed_flag,
                                ));
                                t
                            },
                            _ => 0,
                        };
                        assert(received_step::<Delta, S>(before, xp, status@, now, seen_view(seen_by), *state));
                        lemma_received_state_push::<Delta, S>(
                            s0,
                            wp,
                            old_statuses,
                            nows,
                            seen_view(seen_by),
                            before,
                            xp,
                            status@,
                            now,
                            *state,
                        );
                        let nows2 = nows.push(now);
                        assert(st2 =~= old_statuses.push(status@));
                        nows = nows2;
                        let x = (decoded@.key, decoded@.from_version, decoded@.to_version);
                        let w2 = w.push(x);
                        assert(ok_ranges(ranges@.take(idx + 1)) == w2);
                        assert(w2.drop_last() =~= w);
                        assert(w2.take(w.len() as int) =~= w);
                        assert(statuses_view(statuses@) =~= old_statuses.push(status@));
                        assert forall|i: int| 0 <= i < w.len() implies #[trigger] w2.take(i) == w.take(i) by {
                            assert(w2.take(i) =~= w.take(i));
                        }
                    }
                },
                Err(failure) => {
                    let f = failure.clone();
                    failures.push(f);
                    proof {
                        assert(ok_ranges(ranges@.take(idx + 1)) == w);
                        assert(ok_payloads(ranges@.take(idx + 1)) == wp);
                        assert(failures_view(failures@) =~= old_failures.push(f@));
                    }
                },
            }
            idx = idx + 1;
        }
        proof {
            assert(ranges@.take(n as int) =~= ranges@);
        }
        DeltaPropagationReceiveReport { from: from.duplicate(), reply_requested: reply, statuses, failures }
    }
}


/// Receiving the same range twice is idempotent: the second delivery changes
/// no version, and when the first applied, the second is reported as
/// already handled.
pub proof fn lemma_redelivery_is_idempotent(
    t: ReceivedVersions,
    from: Seq<char>,
    key: Seq<char>,
    from_version: u64,
    to_version: u64,
)
    ensures
        ({
            let t2 = received_after(t, from, key, from_version, to_version);
            &&& received_after(t2, from, key, from_version, to_version) == t2
            &&& range_applies(received_version(t, from, key), from_version, to_version) ==> forall|
                s: ReceiveStatusView,
            |
                receive_fits(s, received_version(t2, from, key), from, key, from_version, to_version)
                    <==> s == (ReceiveStatusView::AlreadyHandled {
                    from,
                    key,
                    current_version: to_version,
                    to_version,
                })
        }),
{
    let t2 = received_after(t, from, key, from_version, to_version);
    if range_applies(received_version(t, from, key), from_version, to_version) {
        assert(received_version(t2, from, key) == to_version);
    }
}

/// Received versions never decrease, for any source and key.
pub proof fn lemma_received_versions_grow(
    t: ReceivedVersions,
    from: Seq<char>,
    key: Seq<char>,
    from_version: u64,
    to_version: u64,
    other_from: Seq<char>,
    other_key: Seq<char>,
)
    ensures
        received_version(received_after(t, from, key, from_version, to_version), other_from, other_key)
            >= received_version(t, other_from, other_key),
{
}
} // verus!
