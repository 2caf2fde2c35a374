//! Quorum planning and reply aggregation for distributed reads and writes.
use vstd::prelude::*;

use crate::consistency::{ReadConsistency, WriteConsistency};
use crate::data::{Mergeable, ReplicatedData};
use crate::envelope::DataEnvelope;
use crate::key::ReplicatorKey;
use crate::pruning::{ptable_merged, PTable};
use crate::replica::{copy_ids, ids_view, lemma_ids_push, ReplicaId};
use crate::sorted_map::Duplicate;
use crate::sorted_set::SortedSet;

verus! {

/// Secondary replicas contacted after the primary set, at most.
pub const MAX_SECONDARY_NODES: usize = 10;

/// Planning failure for a distributed read or write.
#[derive(Debug, Clone, Copy, PartialEq, Eq, Structural)]
pub enum AggregationError {
    /// Local consistency needs no aggregation.
    LocalConsistencyUnsupported,
    /// Fewer remote replicas exist than the consistency level requires.
    NotEnoughReplicas {
        /// Required remote replicas.
        required: usize,
        /// Known remote replicas.
        available: usize,
    },
}

/// Majority of `total` plus `additional`, at least `min_cap`, at most `total`.
pub open spec fn majority_spec(min_cap: nat, total: nat, additional: nat) -> nat {
    let m = total / 2 + 1 + additional;
    let capped: nat = if m >= min_cap {
        m
    } else {
        min_cap
    };
    if total <= capped {
        total
    } else {
        capped
    }
}

/// `n - 1`, saturating at zero.
pub open spec fn minus_one(n: nat) -> nat {
    if n == 0 {
        0
    } else {
        (n - 1) as nat
    }
}

/// Remote replies a write needs, before checking availability.
pub open spec fn write_required_spec(c: WriteConsistency, remote: nat) -> Result<nat, AggregationError> {
    match c {
        WriteConsistency::Local => Err(AggregationError::LocalConsistencyUnsupported),
        WriteConsistency::To { replicas, .. } => Ok(minus_one(replicas as nat)),
        WriteConsistency::Majority { min_cap, .. } => Ok(
            minus_one(majority_spec(min_cap as nat, remote + 1, 0)),
        ),
        WriteConsistency::MajorityPlus { additional, min_cap, .. } => Ok(
            minus_one(majority_spec(min_cap as nat, remote + 1, additional as nat)),
        ),
        WriteConsistency::All { .. } => Ok(remote),
    }
}

/// Remote replies a read needs.
pub open spec fn read_required_spec(c: ReadConsistency, remote: nat) -> Result<nat, AggregationError> {
    match c {
        ReadConsistency::Local => Err(AggregationError::LocalConsistencyUnsupported),
        ReadConsistency::From { replicas, .. } => Ok(minus_one(replicas as nat)),
        ReadConsistency::Majority { min_cap, .. } => Ok(
            minus_one(majority_spec(min_cap as nat, remote + 1, 0)),
        ),
        ReadConsistency::MajorityPlus { additional, min_cap, .. } => Ok(
            minus_one(majority_spec(min_cap as nat, remote + 1, additional as nat)),
        ),
        ReadConsistency::All { .. } => Ok(remote),
    }
}

/// Arithmetic on the consistency parameters stays within `usize`.
pub open spec fn write_fits(c: WriteConsistency, remote: nat) -> bool {
    &&& remote + 1 <= usize::MAX
    &&& match c {
        WriteConsistency::MajorityPlus { additional, .. } => (remote + 1) / 2 + 1 + additional
            <= usize::MAX,
        _ => true,
    }
}

/// Arithmetic on the consistency parameters stays within `usize`.
pub open spec fn read_fits(c: ReadConsistency, remote: nat) -> bool {
    &&& remote + 1 <= usize::MAX
    &&& match c {
        ReadConsistency::MajorityPlus { additional, .. } => (remote + 1) / 2 + 1 + additional
            <= usize::MAX,
        _ => true,
    }
}

/// Required total replicas for a majority-based level, bounded by the replica count.
pub fn calculate_majority(min_cap: usize, total_replicas: usize, additional: usize) -> (r: usize)
    requires
        total_replicas / 2 + 1 + additional <= usize::MAX,
    ensures
        r == majority_spec(min_cap as nat, total_replicas as nat, additional as nat),
{
    let majority = (total_replicas / 2) + 1;
    let wanted = majority + additional;
    let capped = if wanted >= min_cap {
        wanted
    } else {
        min_cap
    };
    if total_replicas <= capped {
        total_replicas
    } else {
        capped
    }
}

fn required_remote_count_for_write(consistency: &WriteConsistency, remote_count: usize) -> (r:
    Result<usize, AggregationError>)
    requires
        write_fits(*consistency, remote_count as nat),
    ensures
        r matches Ok(n) ==> write_required_spec(*consistency, remote_count as nat) == Ok::<
            nat,
            AggregationError,
        >(n as nat),
        r matches Err(e) ==> write_required_spec(*consistency, remote_count as nat) == Err::<
            nat,
            AggregationError,
        >(e),
{
    let total = remote_count + 1;
    let required_total = match consistency {
        WriteConsistency::Local => {
            return Err(AggregationError::LocalConsistencyUnsupported);
        },
        WriteConsistency::To { replicas, .. } => *replicas,
        WriteConsistency::Majority { min_cap, .. } => calculate_majority(*min_cap, total, 0),
        WriteConsistency::MajorityPlus { additional, min_cap, .. } => calculate_majority(
            *min_cap,
            total,
            *additional,
        ),
        WriteConsistency::All { .. } => total,
    };
    Ok(
        if required_total == 0 {
            0
        } else {
            required_total - 1
        },
    )
}

fn required_remote_count_for_read(consistency: &ReadConsistency, remote_count: usize) -> (r: Result<
    usize,
    AggregationError,
>)
    requires
        read_fits(*consistency, remote_count as nat),
    ensures
        r matches Ok(n) ==> read_required_spec(*consistency, remote_count as nat) == Ok::<
            nat,
            AggregationError,
        >(n as nat),
        r matches Err(e) ==> read_required_spec(*consistency, remote_count as nat) == Err::<
            nat,
            AggregationError,
        >(e),
{
    let total = remote_count + 1;
    let required_total = match consistency {
        ReadConsistency::Local => {
            return Err(AggregationError::LocalConsistencyUnsupported);
        },
        ReadConsistency::From { replicas, .. } => *replicas,
        ReadConsistency::Majority { min_cap, .. } => calculate_majority(*min_cap, total, 0),
        ReadConsistency::MajorityPlus { additional, min_cap, .. } => calculate_majority(
            *min_cap,
            total,
            *additional,
        ),
        ReadConsistency::All { .. } => total,
    };
    Ok(
        if required_total == 0 {
            0
        } else {
            required_total - 1
        },
    )
}

fn ensure_available(required: usize, available: usize) -> (r: Result<(), AggregationError>)
    ensures
        r is Ok <==> required <= available,
        r matches Err(e) ==> e == (AggregationError::NotEnoughReplicas { required, available }),
{
    if required <= available {
        Ok(())
    } else {
        Err(AggregationError::NotEnoughReplicas { required, available })
    }
}

fn required_remote_write_acks(consistency: &WriteConsistency, remote_count: usize) -> (r: Result<
    usize,
    AggregationError,
>)
    requires
        write_fits(*consistency, remote_count as nat),
    ensures
        r == write_acks_spec(*consistency, remote_count),
{
    match required_remote_count_for_write(consistency, remote_count) {
        Ok(required) => match ensure_available(required, remote_count) {
            Ok(()) => Ok(required),
            Err(e) => Err(e),
        },
        Err(e) => Err(e),
    }
}

/// Remote acknowledgements a write needs, or why it cannot be planned.
pub open spec fn write_acks_spec(c: WriteConsistency, remote: usize) -> Result<usize, AggregationError> {
    match write_required_spec(c, remote as nat) {
        Ok(n) => if n <= remote {
            Ok(n as usize)
        } else {
            Err(AggregationError::NotEnoughReplicas { required: n as usize, available: remote })
        },
        Err(e) => Err(e),
    }
}

/// Remote replies a read needs, or why it cannot be planned.
pub open spec fn read_results_spec(c: ReadConsistency, remote: usize) -> Result<usize, AggregationError> {
    match read_required_spec(c, remote as nat) {
        Ok(n) => Ok(n as usize),
        Err(e) => Err(e),
    }
}

/// The replicas, the local one included, that a majority-plus operation
/// over `total` replicas must reach: a majority plus `additional`, raised
/// to `min_cap`, and never more than all of them.
pub open spec fn majority_plus_total(total: int, additional: int, min_cap: int) -> int {
    let wanted = total / 2 + 1 + additional;
    let raised = if wanted >= min_cap {
        wanted
    } else {
        min_cap
    };
    if raised >= total {
        total
    } else {
        raised
    }
}

/// A majority-plus read over `remote` remote replicas needs replies from
/// all the replicas it must reach except the local one; read and write
/// planning ask the same for the same parameters; and the requirement grows
/// with `additional` until every remote replica is needed.
pub proof fn lemma_majority_plus_read_requirement(
    timeout: std::time::Duration,
    additional: usize,
    more: usize,
    min_cap: usize,
    remote: usize,
)
    requires
        additional <= more,
    ensures
        read_results_spec(ReadConsistency::MajorityPlus { timeout, additional, min_cap }, remote)
            == Ok::<usize, AggregationError>(
            (majority_plus_total(remote + 1, additional as int, min_cap as int) - 1) as usize,
        ),
        read_required_spec(ReadConsistency::MajorityPlus { timeout, additional, min_cap }, remote as nat)
            == write_required_spec(
            WriteConsistency::MajorityPlus { timeout, additional, min_cap },
            remote as nat,
        ),
        read_results_spec(ReadConsistency::MajorityPlus { timeout, additional, min_cap }, remote)->Ok_0
            <= read_results_spec(ReadConsistency::MajorityPlus { timeout, additional: more, min_cap }, remote)->Ok_0,
        (remote + 1) / 2 + 1 + more <= remote + 1 && min_cap <= (remote + 1) / 2 + 1 + additional ==> read_results_spec(
            ReadConsistency::MajorityPlus { timeout, additional: more, min_cap },
            remote,
        )->Ok_0 == read_results_spec(
            ReadConsistency::MajorityPlus { timeout, additional, min_cap },
            remote,
        )->Ok_0 + (more - additional),
{
}

/// A write plan needing `need` remote acknowledgements out of `remote`.
pub open spec fn acks_needed(need: int, remote: usize) -> Result<usize, AggregationError> {
    if need <= remote {
        Ok(need as usize)
    } else {
        Err(AggregationError::NotEnoughReplicas { required: need as usize, available: remote })
    }
}

/// What each consistency level asks of the remote replicas, the local
/// replica counting towards every quorum: an exact count less the local
/// replica, a majority (or majority plus extra, raised to the minimum and
/// capped at all replicas) less the local one, or every remote replica;
/// local-only consistency cannot be planned. A write that needs more remote
/// acknowledgements than there are remote replicas is refused with both
/// counts. The majority is the one [`calculate_majority`] computes.
pub proof fn lemma_quorum_requirements(
    timeout: std::time::Duration,
    replicas: usize,
    additional: usize,
    min_cap: usize,
    remote: usize,
)
    ensures
        majority_spec(min_cap as nat, remote as nat + 1, additional as nat) == majority_plus_total(
            remote + 1,
            additional as int,
            min_cap as int,
        ),
        read_results_spec(ReadConsistency::Local, remote) == Err::<usize, AggregationError>(
            AggregationError::LocalConsistencyUnsupported,
        ),
        read_results_spec(ReadConsistency::From { replicas, timeout }, remote) == Ok::<
            usize,
            AggregationError,
        >(if replicas == 0 {
            0
        } else {
            (replicas - 1) as usize
        }),
        read_results_spec(ReadConsistency::Majority { timeout, min_cap }, remote) == Ok::<
            usize,
            AggregationError,
        >((majority_plus_total(remote + 1, 0, min_cap as int) - 1) as usize),
        read_results_spec(ReadConsistency::All { timeout }, remote) == Ok::<usize, AggregationError>(remote),
        write_acks_spec(WriteConsistency::Local, remote) == Err::<usize, AggregationError>(
            AggregationError::LocalConsistencyUnsupported,
        ),
        write_acks_spec(WriteConsistency::To { replicas, timeout }, remote) == acks_needed(
            if replicas == 0 {
                0
            } else {
                replicas - 1
            },
            remote,
        ),
        write_acks_spec(WriteConsistency::Majority { timeout, min_cap }, remote) == acks_needed(
            majority_plus_total(remote + 1, 0, min_cap as int) - 1,
            remote,
        ),
        write_acks_spec(WriteConsistency::MajorityPlus { timeout, additional, min_cap }, remote)
            == acks_needed(majority_plus_total(remote + 1, additional as int, min_cap as int) - 1, remote),
        write_acks_spec(WriteConsistency::All { timeout }, remote) == Ok::<usize, AggregationError>(remote),
{
}

/// Replica identities reachable first, then the unreachable ones, each in input order.
pub open spec fn reachable_first(nodes: Seq<Seq<char>>, unreachable: Set<Seq<char>>) -> Seq<Seq<char>> {
    nodes.filter(|n: Seq<char>| !unreachable.contains(n)) + nodes.filter(
        |n: Seq<char>| unreachable.contains(n),
    )
}

/// Primary replicas: the first `size` of the ordered candidates.
pub open spec fn primary_spec(nodes: Seq<Seq<char>>, unreachable: Set<Seq<char>>, size: nat) -> Seq<Seq<char>> {
    let ordered = reachable_first(nodes, unreachable);
    ordered.take(if size <= ordered.len() { size as int } else { ordered.len() as int })
}

/// Secondary replicas: at most ten of the remaining candidates.
pub open spec fn secondary_spec(nodes: Seq<Seq<char>>, unreachable: Set<Seq<char>>, size: nat) -> Seq<Seq<char>> {
    let ordered = reachable_first(nodes, unreachable);
    let p = if size <= ordered.len() { size as int } else { ordered.len() as int };
    let rest = ordered.skip(p);
    rest.take(if rest.len() <= MAX_SECONDARY_NODES { rest.len() as int } else { MAX_SECONDARY_NODES as int })
}

/// Replicas to contact first and replicas to contact if the first do not answer.
#[derive(Debug, Clone, PartialEq, Eq)]
pub struct ReplicaSelection {
    primary: Vec<ReplicaId>,
    secondary: Vec<ReplicaId>,
}

impl View for ReplicaSelection {
    type V = (Seq<Seq<char>>, Seq<Seq<char>>);

    closed spec fn view(&self) -> (Seq<Seq<char>>, Seq<Seq<char>>) {
        (ids_view(self.primary@), ids_view(self.secondary@))
    }
}

impl ReplicaSelection {
    /// Replicas contacted first.
    pub fn primary(&self) -> (r: &[ReplicaId])
        ensures
            ids_view(r@) == self@.0,
    {
        self.primary.as_slice()
    }

    /// Replicas contacted when the primary set stays silent.
    pub fn secondary(&self) -> (r: &[ReplicaId])
        ensures
            ids_view(r@) == self@.1,
    {
        self.secondary.as_slice()
    }

    pub fn duplicate(&self) -> (r: Self)
        ensures
            r@ == self@,
    {
        ReplicaSelection { primary: copy_ids(&self.primary), secondary: copy_ids(&self.secondary) }
    }
}


fn contains_id(nodes: &Vec<ReplicaId>, replica: &ReplicaId) -> (r: bool)
    ensures
        r == ids_view(nodes@).contains(replica@),
{
    let n = nodes.len();
    let mut i: usize = 0;
    while i < n
        invariant
            n == nodes@.len(),
            i <= n,
            forall|j: int| 0 <= j < i ==> ids_view(nodes@)[j] != replica@,
        decreases n - i,
    {
        if nodes[i] == *replica {
            proof {
                assert(ids_view(nodes@)[i as int] == replica@);
            }
            return true;
        }
        i = i + 1;
    }
    false
}

proof fn lemma_filter_push(s: Seq<Seq<char>>, x: Seq<char>, p: spec_fn(Seq<char>) -> bool)
    ensures
        s.push(x).filter(p) == if p(x) {
            s.filter(p).push(x)
        } else {
            s.filter(p)
        },
{
    reveal(Seq::filter);
    assert(s.push(x).drop_last() =~= s);
}

/// Orders candidates reachable first and splits them into primary and secondary sets.
pub fn select_replicas(
    remote_nodes: &Vec<ReplicaId>,
    unreachable: &SortedSet<ReplicaId>,
    primary_size: usize,
) -> (r: ReplicaSelection)
    requires
        unreachable.wf(),
    ensures
        r@.0 == primary_spec(ids_view(remote_nodes@), unreachable@, primary_size as nat),
        r@.1 == secondary_spec(ids_view(remote_nodes@), unreachable@, primary_size as nat),
{
    let ghost nodes = ids_view(remote_nodes@);
    let ghost u = unreachable@;
    let ghost reach = |n: Seq<char>| !u.contains(n);
    let ghost unreach = |n: Seq<char>| u.contains(n);
    let mut reachable: Vec<ReplicaId> = Vec::new();
    let mut rest: Vec<ReplicaId> = Vec::new();
    let n = remote_nodes.len();
    let mut i: usize = 0;
    proof {
        reveal(Seq::filter);
        assert(nodes.take(0).filter(reach) =~= Seq::<Seq<char>>::empty());
        assert(nodes.take(0).filter(unreach) =~= Seq::<Seq<char>>::empty());
    }
    while i < n
        invariant
            n == remote_nodes@.len(),
            nodes == ids_view(remote_nodes@),
            unreachable.wf(),
            u == unreachable@,
            reach == (|n: Seq<char>| !u.contains(n)),
            unreach == (|n: Seq<char>| u.contains(n)),
            i <= n,
            ids_view(reachable@) == nodes.take(i as int).filter(reach),
            ids_view(rest@) == nodes.take(i as int).filter(unreach),
        decreases n - i,
    {
        let node = &remote_nodes[i];
        proof {
            assert(nodes.take(i as int + 1) =~= nodes.take(i as int).push(node@));
            lemma_filter_push(nodes.take(i as int), node@, reach);
            lemma_filter_push(nodes.take(i as int), node@, unreach);
        }
        if unreachable.contains(node.as_str()) {
            rest.push(node.duplicate());
            proof {
                assert(ids_view(rest@) =~= nodes.take(i as int + 1).filter(unreach));
                assert(ids_view(reachable@) =~= nodes.take(i as int + 1).filter(reach));
            }
        } else {
            reachable.push(node.duplicate());
            proof {
                assert(ids_view(rest@) =~= nodes.take(i as int + 1).filter(unreach));
                assert(ids_view(reachable@) =~= nodes.take(i as int + 1).filter(reach));
            }
        }
        i = i + 1;
    }
    proof {
        assert(nodes.take(n as int) =~= nodes);
    }
    let ghost ordered_view = ids_view(reachable@) + ids_view(rest@);
    let mut ordered = reachable;
    let mut rest_tail = rest;
    ordered.append(&mut rest_tail);
    proof {
        assert(ids_view(ordered@) =~= ordered_view);
        assert(ordered_view =~= reachable_first(nodes, u));
    }
    let size = if primary_size <= ordered.len() {
        primary_size
    } else {
        ordered.len()
    };
    let mut primary: Vec<ReplicaId> = Vec::new();
    let mut j: usize = 0;
    while j < size
        invariant
            size <= ordered@.len(),
            j <= size,
            ids_view(primary@) == ids_view(ordered@).take(j as int),
        decreases size - j,
    {
        let ghost prev = primary@;
        let item = ordered[j].duplicate();
        primary.push(item);
        proof {
            lemma_ids_push(prev, item);
            assert(ids_view(ordered@).take(j as int + 1) =~= ids_view(ordered@).take(j as int).push(ordered@[j as int]@));
        }
        j = j + 1;
    }
    let mut secondary: Vec<ReplicaId> = Vec::new();
    let mut k: usize = size;
    while k < ordered.len() && k - size < MAX_SECONDARY_NODES
        invariant
            size <= ordered@.len(),
            size <= k <= ordered@.len(),
            k - size <= MAX_SECONDARY_NODES,
            ids_view(secondary@) == ids_view(ordered@).skip(size as int).take(k - size),
        decreases ordered@.len() - k,
    {
        let ghost prev = secondary@;
        let item = ordered[k].duplicate();
        secondary.push(item);
        proof {
            lemma_ids_push(prev, item);
            assert(ids_view(ordered@).skip(size as int).take(k - size + 1) =~= ids_view(ordered@).skip(size as int).take(k - size).push(ordered@[k as int]@));
        }
        k = k + 1;
    }
    ReplicaSelection { primary, secondary }
}

/// Abstract write aggregation progress.
pub struct WriteAggView {
    pub key: Seq<char>,
    pub remote: Seq<Seq<char>>,
    pub required: usize,
    pub acked: Set<Seq<char>>,
    pub nacked: Set<Seq<char>>,
}

/// Outcome of a write aggregation.
#[derive(Debug, Clone, Copy, PartialEq, Eq, Structural)]
pub enum WriteAggregationOutcome {
    /// More acknowledgements are still possible and needed.
    InProgress,
    /// Enough remote replicas acknowledged.
    Success,
    /// Too many replicas rejected the write to reach the quorum.
    Failed { required: usize, available: usize },
    /// The deadline passed before the quorum was reached.
    Timeout { required: usize, acknowledged: usize },
}

/// Outcome of write aggregation progress.
pub open spec fn write_outcome_spec(v: WriteAggView) -> WriteAggregationOutcome {
    if v.acked.len() >= v.required {
        WriteAggregationOutcome::Success
    } else {
        let available: usize = if v.remote.len() >= v.nacked.len() {
            (v.remote.len() - v.nacked.len()) as usize
        } else {
            0
        };
        if available < v.required {
            WriteAggregationOutcome::Failed { required: v.required, available }
        } else {
            WriteAggregationOutcome::InProgress
        }
    }
}

/// Outcome of write aggregation progress when the deadline passes.
pub open spec fn write_timeout_spec(v: WriteAggView) -> WriteAggregationOutcome {
    if v.acked.len() >= v.required {
        WriteAggregationOutcome::Success
    } else {
        WriteAggregationOutcome::Timeout { required: v.required, acknowledged: v.acked.len() as usize }
    }
}

/// Progress of one distributed write.
#[derive(Debug, PartialEq, Eq)]
pub struct WriteAggregatorState {
    key: ReplicatorKey,
    remote_nodes: Vec<ReplicaId>,
    required_remote_acks: usize,
    acked: SortedSet<ReplicaId>,
    nacked: SortedSet<ReplicaId>,
}

impl View for WriteAggregatorState {
    type V = WriteAggView;

    closed spec fn view(&self) -> WriteAggView {
        WriteAggView {
            key: self.key@,
            remote: ids_view(self.remote_nodes@),
            required: self.required_remote_acks,
            acked: self.acked@,
            nacked: self.nacked@,
        }
    }
}

impl WriteAggregatorState {
    #[verifier::type_invariant]
    closed spec fn inv(&self) -> bool {
        &&& self.acked.wf()
        &&& self.nacked.wf()
        &&& self.acked@.subset_of(ids_view(self.remote_nodes@).to_set())
        &&& self.nacked@.subset_of(ids_view(self.remote_nodes@).to_set())
    }

    /// Plans a write; fails for local consistency or too few remote replicas.
    pub fn new(key: ReplicatorKey, consistency: &WriteConsistency, remote_nodes: Vec<ReplicaId>) -> (r:
        Result<Self, AggregationError>)
        requires
            write_fits(*consistency, remote_nodes@.len()),
        ensures
            r is Ok == write_acks_spec(*consistency, remote_nodes@.len() as usize) is Ok,
            r matches Err(e) ==> write_acks_spec(*consistency, remote_nodes@.len() as usize) == Err::<usize, AggregationError>(e),
            r matches Ok(s) ==> s@ == (WriteAggView {
                key: key@,
                remote: ids_view(remote_nodes@),
                required: write_acks_spec(*consistency, remote_nodes@.len() as usize)->Ok_0,
                acked: Set::empty(),
                nacked: Set::empty(),
            }),
    {
        let required = match required_remote_write_acks(consistency, remote_nodes.len()) {
            Ok(n) => n,
            Err(e) => {
                return Err(e);
            },
        };
        Ok(WriteAggregatorState {
            key,
            remote_nodes,
            required_remote_acks: required,
            acked: SortedSet::new(),
            nacked: SortedSet::new(),
        })
    }

    /// The key being written.
    pub fn key(&self) -> (r: &ReplicatorKey)
        ensures
            r@ == self@.key,
    {
        &self.key
    }

    /// Remote acknowledgements needed for success.
    pub fn required_remote_acks(&self) -> (r: usize)
        ensures
            r == self@.required,
    {
        self.required_remote_acks
    }

    /// Remote replicas taking part.
    pub fn remote_nodes(&self) -> (r: &[ReplicaId])
        ensures
            ids_view(r@) == self@.remote,
    {
        self.remote_nodes.as_slice()
    }

    /// Records an acknowledgement from a participating replica.
    pub fn record_ack(&mut self, replica: &ReplicaId) -> (r: WriteAggregationOutcome)
        ensures
            old(self)@.remote.contains(replica@) ==> final(self)@ == (WriteAggView {
                acked: old(self)@.acked.insert(replica@),
                nacked: old(self)@.nacked.remove(replica@),
                ..old(self)@
            }),
            !old(self)@.remote.contains(replica@) ==> final(self)@ == old(self)@,
            r == write_outcome_spec(final(self)@),
    {
        proof {
            use_type_invariant(&*self);
        }
        if contains_id(&self.remote_nodes, replica) {
            let mut acked = self.acked.duplicate();
            let mut nacked = self.nacked.duplicate();
            nacked.remove(replica.as_str());
            acked.insert(replica.duplicate());
            proof {
                assert(ids_view(self.remote_nodes@).to_set().contains(replica@));
            }
            self.acked = acked;
            self.nacked = nacked;
        }
        self.outcome()
    }

    /// Records a rejection from a participating replica that has not acknowledged.
    pub fn record_nack(&mut self, replica: &ReplicaId) -> (r: WriteAggregationOutcome)
        ensures
            old(self)@.remote.contains(replica@) && !old(self)@.acked.contains(replica@)
                ==> final(self)@ == (WriteAggView {
                nacked: old(self)@.nacked.insert(replica@),
                ..old(self)@
            }),
            !(old(self)@.remote.contains(replica@) && !old(self)@.acked.contains(replica@))
                ==> final(self)@ == old(self)@,
            r == write_outcome_spec(final(self)@),
    {
        proof {
            use_type_invariant(&*self);
        }
        if contains_id(&self.remote_nodes, replica) && !self.acked.contains(replica.as_str()) {
            let mut nacked = self.nacked.duplicate();
            nacked.insert(replica.duplicate());
            proof {
                assert(ids_view(self.remote_nodes@).to_set().contains(replica@));
            }
            self.nacked = nacked;
        }
        self.outcome()
    }

    /// Outcome when the deadline passes.
    pub fn timeout(&self) -> (r: WriteAggregationOutcome)
        ensures
            r == write_timeout_spec(self@),
    {
        proof {
            use_type_invariant(self);
        }
        if self.acked.len() >= self.required_remote_acks {
            WriteAggregationOutcome::Success
        } else {
            WriteAggregationOutcome::Timeout {
                required: self.required_remote_acks,
                acknowledged: self.acked.len(),
            }
        }
    }

    /// Current outcome.
    pub fn outcome(&self) -> (r: WriteAggregationOutcome)
        ensures
            r == write_outcome_spec(self@),
    {
        proof {
            use_type_invariant(self);
        }
        if self.acked.len() >= self.required_remote_acks {
            return WriteAggregationOutcome::Success;
        }
        let total = self.remote_nodes.len();
        let nacked = self.nacked.len();
        let available = if total >= nacked {
            total - nacked
        } else {
            0
        };
        if available < self.required_remote_acks {
            WriteAggregationOutcome::Failed { required: self.required_remote_acks, available }
        } else {
            WriteAggregationOutcome::InProgress
        }
    }

    /// Splits the participants into primary and secondary contact sets.
    pub fn select_replicas(&self, unreachable: &SortedSet<ReplicaId>) -> (r: ReplicaSelection)
        requires
            unreachable.wf(),
        ensures
            r@.0 == primary_spec(self@.remote, unreachable@, self@.required as nat),
            r@.1 == secondary_spec(self@.remote, unreachable@, self@.required as nat),
    {
        select_replicas(&self.remote_nodes, unreachable, self.required_remote_acks)
    }

    pub fn duplicate(&self) -> (r: Self)
        ensures
            r@ == self@,
    {
        proof {
            use_type_invariant(self);
        }
        WriteAggregatorState {
            key: self.key.duplicate(),
            remote_nodes: copy_ids(&self.remote_nodes),
            required_remote_acks: self.required_remote_acks,
            acked: self.acked.duplicate(),
            nacked: self.nacked.duplicate(),
        }
    }
}

impl Clone for WriteAggregatorState {
    fn clone(&self) -> (r: Self)
        ensures
            r@ == self@,
    {
        self.duplicate()
    }
}

/// A planned write: aggregation progress and the replicas to contact.
#[derive(Debug, Clone)]
pub struct WriteAggregationPlan {
    state: WriteAggregatorState,
    selection: ReplicaSelection,
}

impl WriteAggregationPlan {
    pub fn new(state: WriteAggregatorState, selection: ReplicaSelection) -> (r: Self)
        ensures
            r.state_view() == state@,
            r.selection_view() == selection@,
    {
        WriteAggregationPlan { state, selection }
    }

    pub closed spec fn state_view(&self) -> WriteAggView {
        self.state@
    }

    pub closed spec fn selection_view(&self) -> (Seq<Seq<char>>, Seq<Seq<char>>) {
        self.selection@
    }

    /// The aggregation progress.
    pub fn state(&self) -> (r: &WriteAggregatorState)
        ensures
            r@ == self.state_view(),
    {
        &self.state
    }

    /// Consumes the plan, returning the aggregation progress.
    pub fn into_state(self) -> (r: WriteAggregatorState)
        ensures
            r@ == self.state_view(),
    {
        self.state
    }

    /// The replicas to contact.
    pub fn selection(&self) -> (r: &ReplicaSelection)
        ensures
            r@ == self.selection_view(),
    {
        &self.selection
    }
}

/// Abstract read aggregation progress.
pub struct ReadAggView<V> {
    pub key: Seq<char>,
    pub remote: Seq<Seq<char>>,
    pub required: usize,
    pub received: usize,
    pub received_from: Set<Seq<char>>,
    pub result: Option<(V, PTable)>,
}

/// Outcome of a read aggregation.
#[derive(Debug, PartialEq, Eq)]
pub enum ReadAggregationOutcome<D> {
    /// More replies are needed.
    InProgress,
    /// Enough replies arrived and at least one held the value.
    Success { envelope: DataEnvelope<D> },
    /// Enough replies arrived and none held the value.
    NotFound,
    /// The quorum cannot or did not arrive.
    Failure { required: usize, received: usize },
}

/// Abstract read outcome.
pub enum ReadOutcomeView<V> {
    InProgress,
    Success((V, PTable)),
    NotFound,
    Failure(usize, usize),
}

impl<D: View> View for ReadAggregationOutcome<D> {
    type V = ReadOutcomeView<D::V>;

    open spec fn view(&self) -> ReadOutcomeView<D::V> {
        match self {
            ReadAggregationOutcome::InProgress => ReadOutcomeView::InProgress,
            ReadAggregationOutcome::Success { envelope } => ReadOutcomeView::Success(envelope@),
            ReadAggregationOutcome::NotFound => ReadOutcomeView::NotFound,
            ReadAggregationOutcome::Failure { required, received } => ReadOutcomeView::Failure(
                *required,
                *received,
            ),
        }
    }
}

/// Outcome of read aggregation progress.
pub open spec fn read_outcome_spec<V>(v: ReadAggView<V>) -> ReadOutcomeView<V> {
    if v.required > v.remote.len() {
        ReadOutcomeView::Failure(v.required, v.received)
    } else if v.received < v.required {
        ReadOutcomeView::InProgress
    } else {
        match v.result {
            Some(e) => ReadOutcomeView::Success(e),
            None => ReadOutcomeView::NotFound,
        }
    }
}

/// Outcome of read aggregation progress when the deadline passes.
pub open spec fn read_timeout_spec<V>(v: ReadAggView<V>) -> ReadOutcomeView<V> {
    match read_outcome_spec(v) {
        ReadOutcomeView::InProgress => ReadOutcomeView::Failure(v.required, v.received),
        o => o,
    }
}

/// Result after merging one more reply.
pub open spec fn read_result_after<D: ReplicatedData>(
    current: Option<(D::V, PTable)>,
    reply: Option<(D::V, PTable)>,
) -> Option<(D::V, PTable)> {
    match (current, reply) {
        (Some(l), Some(r)) => Some((D::merged(l.0, r.0), ptable_merged(l.1, r.1))),
        (Some(l), None) => Some(l),
        (None, Some(r)) => Some(r),
        (None, None) => None,
    }
}

/// Progress of one distributed read.
#[derive(Debug, PartialEq, Eq)]
pub struct ReadAggregatorState<D> {
    key: ReplicatorKey,
    remote_nodes: Vec<ReplicaId>,
    required_remote_reads: usize,
    received: usize,
    received_from: SortedSet<ReplicaId>,
    result: Option<DataEnvelope<D>>,
}

impl<D: View> View for ReadAggregatorState<D> {
    type V = ReadAggView<D::V>;

    closed spec fn view(&self) -> ReadAggView<D::V> {
        ReadAggView {
            key: self.key@,
            remote: ids_view(self.remote_nodes@),
            required: self.required_remote_reads,
            received: self.received,
            received_from: self.received_from@,
            result: match self.result {
                Some(e) => Some(e@),
                None => None,
            },
        }
    }
}

impl<D: ReplicatedData> ReadAggregatorState<D> {
    /// The merged envelope held so far, if any.
    pub closed spec fn result_value(&self) -> Option<DataEnvelope<D>> {
        self.result
    }

    /// Abstract validity: the replies received come from participants.
    pub closed spec fn wf(&self) -> bool {
        self.received_from.wf()
    }

    /// Plans a read; fails for local consistency.
    pub fn new(
        key: ReplicatorKey,
        consistency: &ReadConsistency,
        remote_nodes: Vec<ReplicaId>,
        local_value: Option<DataEnvelope<D>>,
    ) -> (r: Result<Self, AggregationError>)
        requires
            read_fits(*consistency, remote_nodes@.len()),
        ensures
            r is Ok == read_results_spec(*consistency, remote_nodes@.len() as usize) is Ok,
            r matches Err(e) ==> read_results_spec(*consistency, remote_nodes@.len() as usize) == Err::<usize, AggregationError>(e),
            r matches Ok(s) ==> s.wf() && s@ == (ReadAggView {
                key: key@,
                remote: ids_view(remote_nodes@),
                required: read_results_spec(*consistency, remote_nodes@.len() as usize)->Ok_0,
                received: 0,
                received_from: Set::empty(),
                result: match local_value {
                    Some(e) => Some(e@),
                    None => None,
                },
            }),
    {
        let required = match required_remote_count_for_read(consistency, remote_nodes.len()) {
            Ok(n) => n,
            Err(e) => {
                return Err(e);
            },
        };
        Ok(ReadAggregatorState {
            key,
            remote_nodes,
            required_remote_reads: required,
            received: 0,
            received_from: SortedSet::new(),
            result: local_value,
        })
    }

    /// The key being read.
    pub fn key(&self) -> (r: &ReplicatorKey)
        ensures
            r@ == self@.key,
    {
        &self.key
    }

    /// Accepted remote replies so far.
    pub fn received(&self) -> (r: usize)
        ensures
            r == self@.received,
    {
        self.received
    }

    /// Remote replies needed for success.
    pub fn required_remote_reads(&self) -> (r: usize)
        ensures
            r == self@.required,
    {
        self.required_remote_reads
    }

    /// Remote replicas taking part.
    pub fn remote_nodes(&self) -> (r: &[ReplicaId])
        ensures
            ids_view(r@) == self@.remote,
    {
        self.remote_nodes.as_slice()
    }

    /// Merges one reply into the result.
    pub fn record_read(&mut self, envelope: Option<DataEnvelope<D>>) -> (r: ReadAggregationOutcome<D>)
        requires
            old(self).wf(),
            old(self)@.received < usize::MAX,
        ensures
            final(self).wf(),
            final(self)@ == (ReadAggView {
                received: (old(self)@.received + 1) as usize,
                result: read_result_after::<D>(old(self)@.result, match envelope {
                    Some(e) => Some(e@),
                    None => None,
                }),
                ..old(self)@
            }),
            r@ == read_outcome_spec(final(self)@),
            old(self)@.result is Some && envelope is Some ==> (final(self).result_value() matches Some(e)
                && e.data_value().settled()),
            old(self)@.result is Some && envelope is Some ==> (r matches ReadAggregationOutcome::Success {
                envelope: merged,
            } ==> merged.data_value().settled()),
    {
        self.received = self.received + 1;
        let current = self.result.take();
        self.result = match (current, envelope) {
            (Some(left), Some(right)) => Some(left.merge(&right)),
            (Some(left), None) => Some(left),
            (None, Some(right)) => Some(right),
            (None, None) => None,
        };
        self.outcome()
    }

    /// Merges a reply from `replica` unless it does not participate or already replied.
    pub fn record_read_from(&mut self, replica: &ReplicaId, envelope: Option<DataEnvelope<D>>) -> (r:
        ReadAggregationOutcome<D>)
        requires
            old(self).wf(),
            old(self)@.received < usize::MAX,
        ensures
            final(self).wf(),
            old(self)@.remote.contains(replica@) && !old(self)@.received_from.contains(replica@)
                ==> final(self)@ == (ReadAggView {
                received: (old(self)@.received + 1) as usize,
                received_from: old(self)@.received_from.insert(replica@),
                result: read_result_after::<D>(old(self)@.result, match envelope {
                    Some(e) => Some(e@),
                    None => None,
                }),
                ..old(self)@
            }),
            !(old(self)@.remote.contains(replica@) && !old(self)@.received_from.contains(replica@))
                ==> final(self)@ == old(self)@,
            r@ == read_outcome_spec(final(self)@),
    {
        if !contains_id(&self.remote_nodes, replica) {
            return self.outcome();
        }
        let mut received_from = SortedSet::new();
        std::mem::swap(&mut received_from, &mut self.received_from);
        let fresh = received_from.insert(replica.duplicate());
        self.received_from = received_from;
        if !fresh {
            proof {
                assert(self.received_from@ =~= old(self).received_from@);
            }
            return self.outcome();
        }
        self.record_read(envelope)
    }

    /// Outcome when the deadline passes.
    pub fn timeout(&self) -> (r: ReadAggregationOutcome<D>)
        ensures
            r@ == read_timeout_spec(self@),
    {
        match self.outcome() {
            ReadAggregationOutcome::InProgress => ReadAggregationOutcome::Failure {
                required: self.required_remote_reads,
                received: self.received,
            },
            outcome => outcome,
        }
    }

    /// Current outcome.
    pub fn outcome(&self) -> (r: ReadAggregationOutcome<D>)
        ensures
            r@ == read_outcome_spec(self@),
            r matches ReadAggregationOutcome::Success { envelope } ==> (self.result_value() matches Some(e)
                && envelope.data_value().settled() == e.data_value().settled()),
    {
        if self.required_remote_reads > self.remote_nodes.len() {
            return ReadAggregationOutcome::Failure {
                required: self.required_remote_reads,
                received: self.received,
            };
        }
        if self.received < self.required_remote_reads {
            return ReadAggregationOutcome::InProgress;
        }
        match &self.result {
            Some(envelope) => ReadAggregationOutcome::Success { envelope: envelope.duplicate() },
            None => ReadAggregationOutcome::NotFound,
        }
    }

    /// Splits the participants into primary and secondary contact sets.
    pub fn select_replicas(&self, unreachable: &SortedSet<ReplicaId>) -> (r: ReplicaSelection)
        requires
            unreachable.wf(),
        ensures
            r@.0 == primary_spec(self@.remote, unreachable@, self@.required as nat),
            r@.1 == secondary_spec(self@.remote, unreachable@, self@.required as nat),
    {
        select_replicas(&self.remote_nodes, unreachable, self.required_remote_reads)
    }
}

/// A planned read: aggregation progress and the replicas to contact.
#[derive(Debug)]
pub struct ReadAggregationPlan<D> {
    state: ReadAggregatorState<D>,
    selection: ReplicaSelection,
}

impl<D: ReplicatedData> ReadAggregationPlan<D> {
    /// Structural validity of the planned progress.
    pub closed spec fn wf(&self) -> bool {
        self.state.wf()
    }

    pub fn new(state: ReadAggregatorState<D>, selection: ReplicaSelection) -> (r: Self)
        ensures
            state.wf() ==> r.wf(),
            r.state_view() == state@,
            r.selection_view() == selection@,
    {
        ReadAggregationPlan { state, selection }
    }

    pub closed spec fn state_view(&self) -> ReadAggView<D::V> {
        self.state@
    }

    pub closed spec fn selection_view(&self) -> (Seq<Seq<char>>, Seq<Seq<char>>) {
        self.selection@
    }

    /// The aggregation progress.
    pub fn state(&self) -> (r: &ReadAggregatorState<D>)
        ensures
            r@ == self.state_view(),
    {
        &self.state
    }

    /// Consumes the plan, returning the aggregation progress.
    pub fn into_state(self) -> (r: ReadAggregatorState<D>)
        ensures
            r@ == self.state_view(),
            self.wf() ==> r.wf(),
    {
        self.state
    }

    /// The replicas to contact.
    pub fn selection(&self) -> (r: &ReplicaSelection)
        ensures
            r@ == self.selection_view(),
    {
        &self.selection
    }
}

} // verus!
