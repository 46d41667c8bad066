// The scheduler: drives the registered collectors on a fixed cadence,
// isolates per-collector failures, decides on storage liveness, and
// triggers retention cleanup every few cycles.  The outside work of a
// cycle (sleeping, pinging storage, acquiring samples) happens at the
// caller; the decisions and state transitions are all here.

use vstd::prelude::*;

use crate::collector::{collect_next, collect_ok, Collector, CollectorView, MetricCollector};
use crate::errors::MetricCollectionError;
use crate::metric::{record_rows, MetricRowView};
use crate::sample::Sample;
use crate::store::{kept_rows, MetricStore};

verus! {

/// The outcome of the storage liveness check at the top of a cycle.
#[derive(Clone, Copy, PartialEq, Eq, Structural, Debug)]
pub enum StorageStatus {
    /// The first ping succeeded: storage is live.
    Live,
    /// The first ping failed but the ping after one reconnect succeeded.
    Recovered,
    /// Both pings failed: the process must terminate and rely on its
    /// supervisor, since no collector can progress without storage.
    Fatal,
}

/// Decide on storage liveness from the initial ping and the ping taken
/// after one reconnect attempt (consulted only when the first failed).
/// A single failure followed by a successful reconnect resumes polling;
/// two failures in a row are fatal.
pub fn storage_status(initial_ping_ok: bool, reconnect_ping_ok: bool) -> (r: StorageStatus)
    ensures
        initial_ping_ok ==> r == StorageStatus::Live,
        !initial_ping_ok && reconnect_ping_ok ==> r == StorageStatus::Recovered,
        !initial_ping_ok && !reconnect_ping_ok ==> r == StorageStatus::Fatal,
{
    if initial_ping_ok {
        StorageStatus::Live
    } else if reconnect_ping_ok {
        StorageStatus::Recovered
    } else {
        StorageStatus::Fatal
    }
}

/// The retention cutoff: everything older than `max_age_ms` before
/// `now_ms` is eligible for deletion.
pub fn retention_cutoff(now_ms: u64, max_age_ms: u64) -> (r: u64)
    ensures
        r == if now_ms >= max_age_ms {
            (now_ms - max_age_ms) as u64
        } else {
            0u64
        },
{
    if now_ms >= max_age_ms {
        now_ms - max_age_ms
    } else {
        0
    }
}

/// The views of a sequence of collectors.
pub open spec fn collector_views(cs: Seq<Collector>) -> Seq<CollectorView> {
    cs.map_values(|c: Collector| c@)
}

/// The collector state after one acquisition outcome: a failed
/// acquisition leaves it unchanged, a successful one advances it.
pub open spec fn collect_step(
    c: CollectorView,
    o: Result<Sample, MetricCollectionError>,
) -> CollectorView {
    match o {
        Ok(s) => collect_next(c, s@),
        Err(_) => c,
    }
}

/// Whether one acquisition outcome counts as a successful collection.
pub open spec fn collect_step_ok(
    c: CollectorView,
    o: Result<Sample, MetricCollectionError>,
) -> bool {
    match o {
        Ok(s) => collect_ok(c, s@),
        Err(_) => false,
    }
}

/// The rows one collector persists in a cycle: those of its fresh record
/// after a successful collection, and nothing after a failed one.
pub open spec fn save_block(
    c: CollectorView,
    o: Result<Sample, MetricCollectionError>,
    hostname: Seq<char>,
) -> Seq<MetricRowView> {
    match o {
        Ok(s) => if collect_ok(c, s@) {
            match collect_next(c, s@).metric {
                Some(m) => record_rows(m, hostname, c.key),
                None => Seq::empty(),
            }
        } else {
            Seq::empty()
        },
        Err(_) => Seq::empty(),
    }
}

/// The rows a whole polling pass appends: each collector's block, in
/// registration order.
pub open spec fn polled_rows(
    cs: Seq<CollectorView>,
    os: Seq<Result<Sample, MetricCollectionError>>,
    hostname: Seq<char>,
) -> Seq<MetricRowView>
    recommends
        cs.len() == os.len(),
    decreases cs.len(),
{
    if cs.len() == 0 {
        Seq::empty()
    } else {
        polled_rows(cs.drop_last(), os.drop_last(), hostname) + save_block(
            cs.last(),
            os.last(),
            hostname,
        )
    }
}

/// The store contents after every collector, in registration order, has
/// purged its rows older than the cutoff.
pub open spec fn cleaned_rows(
    rows: Seq<MetricRowView>,
    cs: Seq<CollectorView>,
    cutoff_ms: u64,
) -> Seq<MetricRowView>
    decreases cs.len(),
{
    if cs.len() == 0 {
        rows
    } else {
        kept_rows(cleaned_rows(rows, cs.drop_last(), cutoff_ms), cs.last().key, cutoff_ms)
    }
}

/// The orchestrator: the fixed set of registered collectors, the cycle
/// counter, and the cleanup cadence and retention horizon it applies.
pub struct Scheduler {
    pub collectors: Vec<Collector>,
    pub cycle_count: u64,
    pub cleanup_interval: u64,
    pub max_age_ms: u64,
}

impl Scheduler {
    /// Well-formedness: cleanup runs every `cleanup_interval` cycles, so
    /// the cadence is never zero.
    pub open spec fn wf(&self) -> bool {
        self.cleanup_interval > 0
    }

    /// A scheduler with no collectors registered yet.
    pub fn new(cleanup_interval: u64, max_age_ms: u64) -> (r: Scheduler)
        requires
            cleanup_interval > 0,
        ensures
            r.wf(),
            r.collectors@.len() == 0,
            r.cycle_count == 0,
            r.cleanup_interval == cleanup_interval,
            r.max_age_ms == max_age_ms,
    {
        Scheduler { collectors: Vec::new(), cycle_count: 0, cleanup_interval, max_age_ms }
    }

    /// Register one collector; collectors are polled in registration order.
    pub fn register(&mut self, collector: Collector)
        ensures
            final(self).collectors@ == old(self).collectors@.push(collector),
            final(self).cycle_count == old(self).cycle_count,
            final(self).cleanup_interval == old(self).cleanup_interval,
            final(self).max_age_ms == old(self).max_age_ms,
            final(self).wf() == old(self).wf(),
    {
        self.collectors.push(collector);
    }

    /// How many collectors are registered.
    pub fn collector_count(&self) -> (r: usize)
        ensures
            r == self.collectors@.len(),
    {
        self.collectors.len()
    }

    /// Whether cleanup is due on the cycle numbered `cycle_count`.
    pub fn cleanup_due(&self, cycle_count: u64) -> (r: bool)
        requires
            self.wf(),
        ensures
            r == (cycle_count % self.cleanup_interval == 0),
    {
        cycle_count % self.cleanup_interval == 0
    }

    /// Feed every collector its own acquisition outcome, in registration
    /// order, saving each fresh record; a failure in any one collector
    /// leaves every other collector's transition untouched, and is
    /// reported in the returned results, never propagated.
    pub fn poll_all(
        &mut self,
        outcomes: Vec<Result<Sample, MetricCollectionError>>,
        store: &mut MetricStore,
        hostname: &str,
    ) -> (results: Vec<Result<(), MetricCollectionError>>)
        requires
            outcomes@.len() == old(self).collectors@.len(),
        ensures
            final(self).collectors@.len() == old(self).collectors@.len(),
            forall|j: int| 0 <= j < old(self).collectors@.len()
                ==> (#[trigger] final(self).collectors@[j])@ == collect_step(
                old(self).collectors@[j]@,
                outcomes@[j],
            ),
            results@.len() == old(self).collectors@.len(),
            forall|j: int| 0 <= j < results@.len() ==> ((#[trigger] results@[j]) is Ok
                <==> collect_step_ok(old(self).collectors@[j]@, outcomes@[j])),
            forall|j: int| 0 <= j < results@.len() ==> (outcomes@[j] matches Err(e)
                ==> #[trigger] results@[j] == Err::<(), MetricCollectionError>(e)),
            forall|j: int| 0 <= j < results@.len() ==> (outcomes@[j] is Ok && !collect_step_ok(
                old(self).collectors@[j]@,
                outcomes@[j],
            ) ==> #[trigger] results@[j] matches Err(MetricCollectionError::InvalidInterval)),
            final(store)@ == old(store)@ + polled_rows(
                collector_views(old(self).collectors@),
                outcomes@,
                hostname@,
            ),
            final(self).cycle_count == old(self).cycle_count,
            final(self).cleanup_interval == old(self).cleanup_interval,
            final(self).max_age_ms == old(self).max_age_ms,
    {
        let ghost ocs = old(self).collectors@;
        let ghost oos = outcomes@;
        let ghost occ = self.cycle_count;
        let ghost oci = self.cleanup_interval;
        let ghost oma = self.max_age_ms;
        let ghost pre_store = store@;
        let ghost n = self.collectors.len() as int;
        let mut outcomes = outcomes;
        let mut done: Vec<Collector> = Vec::new();
        let mut results: Vec<Result<(), MetricCollectionError>> = Vec::new();
        let mut i: usize = 0;
        proof {
            assert(self.collectors@ =~= ocs.skip(0));
            assert(outcomes@ =~= oos.skip(0));
            assert(polled_rows(collector_views(ocs).take(0), oos.take(0), hostname@)
                =~= Seq::<MetricRowView>::empty());
            assert(store@ =~= pre_store + polled_rows(
                collector_views(ocs).take(0),
                oos.take(0),
                hostname@,
            ));
        }
        while self.collectors.len() > 0
            invariant
                n == ocs.len(),
                n == oos.len(),
                self.cycle_count == occ,
                self.cleanup_interval == oci,
                self.max_age_ms == oma,
                n <= usize::MAX,
                0 <= i <= n,
                self.collectors@ =~= ocs.skip(i as int),
                outcomes@ =~= oos.skip(i as int),
                done@.len() == i,
                forall|j: int| 0 <= j < i ==> (#[trigger] done@[j])@ == collect_step(
                    ocs[j]@,
                    oos[j],
                ),
                results@.len() == i,
                forall|j: int| 0 <= j < i ==> ((#[trigger] results@[j]) is Ok <==> collect_step_ok(
                    ocs[j]@,
                    oos[j],
                )),
                forall|j: int| 0 <= j < i ==> (oos[j] matches Err(e) ==> #[trigger] results@[j]
                    == Err::<(), MetricCollectionError>(e)),
                forall|j: int| 0 <= j < i ==> (oos[j] is Ok && !collect_step_ok(ocs[j]@, oos[j])
                    ==> #[trigger] results@[j] matches Err(
                    MetricCollectionError::InvalidInterval,
                )),
                store@ =~= pre_store + polled_rows(
                    collector_views(ocs).take(i as int),
                    oos.take(i as int),
                    hostname@,
                ),
            decreases self.collectors.len(),
        {
            proof {
                assert(i < n);
            }
            let mut collector = self.collectors.remove(0);
            let outcome = outcomes.remove(0);
            proof {
                assert(collector == ocs[i as int]);
                assert(outcome == oos[i as int]);
            }
            let ghost pre_block = store@;
            let result = collector.collect(outcome);
            if result.is_ok() {
                let saved = collector.save(store, hostname);
                proof {
                    assert(saved is Ok);
                }
            }
            proof {
                assert(collector@ == collect_step(ocs[i as int]@, oos[i as int]));
                assert(store@ =~= pre_block + save_block(ocs[i as int]@, oos[i as int], hostname@));
            }
            done.push(collector);
            results.push(result);
            proof {
                assert(self.collectors@ =~= ocs.skip(i + 1));
                assert(outcomes@ =~= oos.skip(i + 1));
                let cviews = collector_views(ocs);
                assert(cviews.take(i + 1).drop_last() =~= cviews.take(i as int));
                assert(oos.take(i + 1).drop_last() =~= oos.take(i as int));
                assert(cviews.take(i + 1).last() == ocs[i as int]@);
                assert(oos.take(i + 1).last() == oos[i as int]);
                assert(store@ =~= pre_store + polled_rows(
                    cviews.take(i + 1),
                    oos.take(i + 1),
                    hostname@,
                ));
            }
            i += 1;
        }
        self.collectors = done;
        proof {
            assert(collector_views(ocs).take(n) =~= collector_views(ocs));
            assert(oos.take(n) =~= oos);
        }
        results
    }

    /// Purge every collector's rows older than the cutoff, in
    /// registration order; rows within the window, and rows of sources
    /// not registered here, remain.
    pub fn cleanup_all(&self, store: &mut MetricStore, cutoff_ms: u64)
        ensures
            final(store)@ == cleaned_rows(
                old(store)@,
                collector_views(self.collectors@),
                cutoff_ms,
            ),
    {
        let ghost pre_store = store@;
        let ghost cviews = collector_views(self.collectors@);
        let n = self.collectors.len();
        let mut i: usize = 0;
        proof {
            assert(cleaned_rows(pre_store, cviews.take(0), cutoff_ms) =~= pre_store);
        }
        while i < n
            invariant
                n == self.collectors@.len(),
                0 <= i <= n,
                cviews == collector_views(self.collectors@),
                store@ =~= cleaned_rows(pre_store, cviews.take(i as int), cutoff_ms),
            decreases n - i,
        {
            let ghost pre = store@;
            let cleaned = self.collectors[i].cleanup(store, cutoff_ms);
            proof {
                assert(cleaned is Ok);
                assert(store@ =~= kept_rows(pre, self.collectors@[i as int]@.key, cutoff_ms));
                assert(cviews.take(i + 1).drop_last() =~= cviews.take(i as int));
                assert(cviews.take(i + 1).last() == self.collectors@[i as int]@);
                assert(store@ =~= cleaned_rows(pre_store, cviews.take(i + 1), cutoff_ms));
            }
            i += 1;
        }
        proof {
            assert(cviews.take(n as int) =~= cviews);
        }
    }

    /// Run the decisions of one polling cycle: count it, feed every
    /// collector its acquisition outcome and save fresh records, and,
    /// every `cleanup_interval`-th cycle, purge rows older than
    /// `max_age_ms` before `now_ms` for every collector.  Returns the
    /// per-collector results and whether cleanup ran.
    pub fn run_cycle(
        &mut self,
        outcomes: Vec<Result<Sample, MetricCollectionError>>,
        store: &mut MetricStore,
        hostname: &str,
        now_ms: u64,
    ) -> (r: (Vec<Result<(), MetricCollectionError>>, bool))
        requires
            old(self).wf(),
            old(self).cycle_count < u64::MAX,
            outcomes@.len() == old(self).collectors@.len(),
        ensures
            final(self).wf(),
            final(self).cycle_count == old(self).cycle_count + 1,
            final(self).collectors@.len() == old(self).collectors@.len(),
            forall|j: int| 0 <= j < old(self).collectors@.len()
                ==> (#[trigger] final(self).collectors@[j])@ == collect_step(
                old(self).collectors@[j]@,
                outcomes@[j],
            ),
            r.0@.len() == old(self).collectors@.len(),
            forall|j: int| 0 <= j < r.0@.len() ==> ((#[trigger] r.0@[j]) is Ok
                <==> collect_step_ok(old(self).collectors@[j]@, outcomes@[j])),
            r.1 == ((old(self).cycle_count + 1) as u64 % old(self).cleanup_interval == 0),
            !r.1 ==> final(store)@ == old(store)@ + polled_rows(
                collector_views(old(self).collectors@),
                outcomes@,
                hostname@,
            ),
            r.1 ==> final(store)@ == cleaned_rows(
                old(store)@ + polled_rows(
                    collector_views(old(self).collectors@),
                    outcomes@,
                    hostname@,
                ),
                collector_views(final(self).collectors@),
                if now_ms >= old(self).max_age_ms {
                    (now_ms - old(self).max_age_ms) as u64
                } else {
                    0u64
                },
            ),
    {
        self.cycle_count = self.cycle_count + 1;
        let results = self.poll_all(outcomes, store, hostname);
        let due = self.cleanup_due(self.cycle_count);
        if due {
            let cutoff = retention_cutoff(now_ms, self.max_age_ms);
            self.cleanup_all(store, cutoff);
        }
        (results, due)
    }
}

} // verus!
