//! Periodic delta collection, publication, and retained-entry cleanup.
//!
//! One tick first advances the propagation log's collection counter, then
//! publishes the selected per-replica batch, and finally performs scheduled
//! cleanup. Cleanup cadence is independently configurable from the log's peer
//! selection divisor, while both default to five ticks.
use vstd::prelude::*;

use crate::data::Mergeable;
use crate::delta::{
    cleaned, collected, propagations, resolved_by, DeltaLogView, DeltaPropagation, DeltaPropagationLog,
    MAX_NODE_SLICE_SIZE,
};
use crate::delta_transport::{DeltaTransportReport, TransportReportView};
use crate::key::ReplicatorKey;
use crate::pruning::PruningTable;
use crate::replica::ReplicaId;
use crate::order::key_lt;
use crate::sorted_map::{Duplicate, SortedMap};
use std::sync::Arc;

verus! {

/// Collection attempts between retained-entry cleanups by default.
pub const DEFAULT_CLEANUP_EVERY_TICKS: u64 = 5;

/// Batch publication boundary used by the delta propagation loop.
///
/// A sink may name, as a spec relation, which reports publishing a batch
/// can give; `publish` is held to it. A sink that names none keeps the
/// default, which constrains nothing.
pub trait DeltaPropagationSink<D: Mergeable> {
    /// Whether `report` is a report that publishing `propagations` may give.
    open spec fn published(
        &self,
        propagations: SortedMap<ReplicaId, DeltaPropagation<D>>,
        report: TransportReportView,
    ) -> bool {
        true
    }

    /// Publishes the selected per-replica propagations and reports delivery attempts.
    fn publish(&self, propagations: SortedMap<ReplicaId, DeltaPropagation<D>>) -> (r: DeltaTransportReport)
        ensures
            self.published(propagations, r@),
    ;
}

/// A shared sink publishes through the sink it shares.
impl<D: Mergeable, S: DeltaPropagationSink<D>> DeltaPropagationSink<D> for Arc<S> {
    open spec fn published(
        &self,
        propagations: SortedMap<ReplicaId, DeltaPropagation<D>>,
        report: TransportReportView,
    ) -> bool {
        (**self).published(propagations, report)
    }

    fn publish(&self, propagations: SortedMap<ReplicaId, DeltaPropagation<D>>) -> (r: DeltaTransportReport) {
        let sink: &S = self;
        sink.publish(propagations)
    }
}

/// Every key of `p` carries pruning markers that `resolver` gives for it,
/// and no other key carries any.
pub open spec fn pruning_resolved_by<D: Duplicate, F: Fn(&ReplicatorKey) -> PruningTable>(
    p: DeltaPropagation<D>,
    resolver: F,
) -> bool {
    &&& p.pruning_view().dom() == p@.dom()
    &&& forall|k: Seq<char>| #[trigger] p@.contains_key(k) ==> resolved_by(resolver, k, p.pruning_view()[k])
}

/// Reusable driver for one periodic delta propagation tick.
pub struct DeltaPropagationLoop<S> {
    sink: S,
    cleanup_every_ticks: u64,
}

/// The log after one tick: collected, then cleaned when the collection count
/// is a multiple of `every`.
pub open spec fn ticked<V>(v: DeltaLogView<V>, every: u64) -> DeltaLogView<V> {
    let c = collected(v);
    if c.propagation_count % every == 0 {
        cleaned(c)
    } else {
        c
    }
}

impl<S> DeltaPropagationLoop<S> {
    #[verifier::type_invariant]
    spec fn inv(&self) -> bool {
        self.cleanup_every_ticks >= 1
    }

    /// Creates a loop backed by a publication sink.
    pub fn new(sink: S) -> (r: Self)
        ensures
            r.cleanup_every_ticks_spec() == DEFAULT_CLEANUP_EVERY_TICKS,
    {
        DeltaPropagationLoop { sink, cleanup_every_ticks: DEFAULT_CLEANUP_EVERY_TICKS }
    }

    /// The publication sink.
    pub closed spec fn sink_spec(&self) -> S {
        self.sink
    }

    /// Configured retained-entry cleanup cadence, in ticks.
    pub closed spec fn cleanup_every_ticks_spec(&self) -> u64 {
        self.cleanup_every_ticks
    }

    /// Sets the number of collection attempts between retained-entry
    /// cleanups, at least one.
    pub fn with_cleanup_every_ticks(self, ticks: u64) -> (r: Self)
        ensures
            r.cleanup_every_ticks_spec() == if ticks < 1 {
                1
            } else {
                ticks
            },
    {
        proof {
            use_type_invariant(&self);
        }
        let mut r = self;
        r.cleanup_every_ticks = if ticks < 1 {
            1
        } else {
            ticks
        };
        r
    }

    /// Returns the configured retained-entry cleanup cadence in ticks.
    pub fn cleanup_every_ticks(&self) -> (r: u64)
        ensures
            r == self.cleanup_every_ticks_spec(),
    {
        self.cleanup_every_ticks
    }

    /// Collects, publishes, and conditionally cleans one propagation tick.
    ///
    /// Collection advances the propagation count even when there are no
    /// target replicas or delta payloads. The selected batch, including an
    /// empty one, is passed to the sink before cleanup is considered.
    pub fn run_tick<D: Mergeable>(&self, log: &mut DeltaPropagationLog<D>) -> (r:
        DeltaPropagationTickReport)
        where S: DeltaPropagationSink<D>,
        requires
            old(log)@.propagation_count < u64::MAX,
            old(log)@.counter + MAX_NODE_SLICE_SIZE <= u64::MAX,
        ensures
            final(log)@ == ticked(old(log)@, self.cleanup_every_ticks_spec()),
            r@.0 == collected(old(log)@).propagation_count,
            r@.1 == (collected(old(log)@).propagation_count % self.cleanup_every_ticks_spec() == 0),
            exists|batch: SortedMap<ReplicaId, DeltaPropagation<D>>|
                {
                    &&& #[trigger] self.sink_spec().published(batch, r@.2)
                    &&& batch.wf()
                    &&& batch@ == propagations::<D>(old(log)@)
                },
    {
        proof {
            use_type_invariant(self);
        }
        let propagations = log.collect_propagations();
        let ghost batch = propagations;
        let transport = self.sink.publish(propagations);
        let propagation_count = log.propagation_count();
        let cleaned_delta_entries = propagation_count % self.cleanup_every_ticks == 0;
        if cleaned_delta_entries {
            log.cleanup_delta_entries();
        }
        let r = DeltaPropagationTickReport { propagation_count, cleaned_delta_entries, transport };
        proof {
            assert(self.sink_spec().published(batch, r@.2));
        }
        r
    }
}

impl<S> DeltaPropagationLoop<Arc<S>> {
    /// Creates a loop backed by a shared publication sink.
    pub fn from_arc(sink: Arc<S>) -> (r: Self)
        ensures
            r.cleanup_every_ticks_spec() == DEFAULT_CLEANUP_EVERY_TICKS,
    {
        DeltaPropagationLoop { sink, cleanup_every_ticks: DEFAULT_CLEANUP_EVERY_TICKS }
    }
}

impl<S> DeltaPropagationLoop<S> {
    /// Like [`Self::run_tick`], with the pruning markers `pruning_for_key`
    /// gives attached to every selected key after collection and before
    /// publication, so that a delta never outruns removed-replica markers.
    pub fn run_tick_with_pruning<D: Mergeable, F: Fn(&ReplicatorKey) -> PruningTable>(
        &self,
        log: &mut DeltaPropagationLog<D>,
        pruning_for_key: F,
    ) -> (r: DeltaPropagationTickReport)
        where S: DeltaPropagationSink<D>,
        requires
            old(log)@.propagation_count < u64::MAX,
            old(log)@.counter + MAX_NODE_SLICE_SIZE <= u64::MAX,
            forall|k: &ReplicatorKey| call_requires(pruning_for_key, (k,)),
        ensures
            final(log)@ == ticked(old(log)@, self.cleanup_every_ticks_spec()),
            r@.0 == collected(old(log)@).propagation_count,
            r@.1 == (collected(old(log)@).propagation_count % self.cleanup_every_ticks_spec() == 0),
            exists|batch: SortedMap<ReplicaId, DeltaPropagation<D>>|
                {
                    &&& #[trigger] self.sink_spec().published(batch, r@.2)
                    &&& batch.wf()
                    &&& batch@ == propagations::<D>(old(log)@)
                    &&& forall|j: int|
                        0 <= j < batch.item_seq().len() ==> pruning_resolved_by(
                            #[trigger] batch.item_seq()[j],
                            pruning_for_key,
                        )
                },
    {
        proof {
            use_type_invariant(self);
        }
        let selected = log.collect_propagations();
        proof {
            selected.lemma_wf();
        }
        let mut propagations: SortedMap<ReplicaId, DeltaPropagation<D>> = SortedMap::new();
        let n = selected.len();
        let mut i: usize = 0;
        proof {
            propagations.lemma_wf();
            assert(propagations.key_seq() =~= selected.key_seq().take(0));
            assert(propagations.value_seq() =~= selected.value_seq().take(0));
        }
        while i < n
            invariant
                selected.wf(),
                n == selected.key_seq().len(),
                n == selected.value_seq().len(),
                i <= n,
                propagations.wf(),
                forall|k: &ReplicatorKey| call_requires(pruning_for_key, (k,)),
                propagations.key_seq() == selected.key_seq().take(i as int),
                propagations.value_seq() == selected.value_seq().take(i as int),
                propagations.item_seq().len() == i,
                forall|j: int|
                    0 <= j < i ==> pruning_resolved_by(#[trigger] propagations.item_seq()[j], pruning_for_key),
            decreases n - i,
        {
            let mut batch = selected.value_at(i).duplicate();
            batch.attach_pruning(&pruning_for_key);
            let node = selected.key_at(i).duplicate();
            proof {
                assert forall|j: int| 0 <= j < propagations.key_seq().len() implies key_lt(
                    #[trigger] propagations.key_seq()[j],
                    node@,
                ) by {
                    selected.lemma_wf();
                    assert(propagations.key_seq()[j] == selected.key_seq()[j]);
                    assert(key_lt(selected.key_seq()[j], selected.key_seq()[i as int]));
                }
            }
            let ghost before = propagations.item_seq();
            propagations.push_last(node, batch);
            proof {
                assert(propagations.key_seq() =~= selected.key_seq().take(i + 1));
                assert(propagations.value_seq() =~= selected.value_seq().take(i + 1));
                assert forall|j: int| 0 <= j < i + 1 implies pruning_resolved_by(
                    #[trigger] propagations.item_seq()[j],
                    pruning_for_key,
                ) by {
                    if j < i {
                        assert(propagations.item_seq()[j] == before[j]);
                    }
                }
            }
            i = i + 1;
        }
        proof {
            assert(propagations.key_seq() =~= selected.key_seq());
            assert(propagations.value_seq() =~= selected.value_seq());
            propagations.lemma_wf();
        }
        let ghost batch = propagations;
        let transport = self.sink.publish(propagations);
        let propagation_count = log.propagation_count();
        let cleaned_delta_entries = propagation_count % self.cleanup_every_ticks == 0;
        if cleaned_delta_entries {
            log.cleanup_delta_entries();
        }
        let r = DeltaPropagationTickReport { propagation_count, cleaned_delta_entries, transport };
        proof {
            assert(self.sink_spec().published(batch, r@.2));
        }
        r
    }
}

/// Observable outcome of one requested delta propagation tick.
#[derive(Debug, Clone, PartialEq, Eq)]
pub struct DeltaPropagationTickReport {
    propagation_count: u64,
    cleaned_delta_entries: bool,
    transport: DeltaTransportReport,
}

impl View for DeltaPropagationTickReport {
    type V = (u64, bool, TransportReportView);

    closed spec fn view(&self) -> (u64, bool, TransportReportView) {
        (self.propagation_count, self.cleaned_delta_entries, self.transport@)
    }
}

impl DeltaPropagationTickReport {
    /// A report for an actor that has no propagation loop configured: nothing
    /// published or cleaned, and the count left as supplied.
    pub fn skipped(propagation_count: u64) -> (r: Self)
        ensures
            r@ == (propagation_count, false, TransportReportView {
                sent_to: Seq::empty(),
                skipped_empty: Seq::empty(),
                failures: Seq::empty(),
            }),
    {
        DeltaPropagationTickReport {
            propagation_count,
            cleaned_delta_entries: false,
            transport: DeltaTransportReport::empty(),
        }
    }

    /// The log collection count after this tick, or at skip time.
    pub fn propagation_count(&self) -> (r: u64)
        ensures
            r == self@.0,
    {
        self.propagation_count
    }

    /// Whether retained delta entries were cleaned on this tick.
    pub fn cleaned_delta_entries(&self) -> (r: bool)
        ensures
            r == self@.1,
    {
        self.cleaned_delta_entries
    }

    /// Delivery diagnostics produced by the publication sink.
    pub fn transport(&self) -> (r: &DeltaTransportReport)
        ensures
            r@ == self@.2,
    {
        &self.transport
    }
}

} // verus!
