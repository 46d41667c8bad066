// The Collector: the uniform stateful unit binding one source to the
// rate calculator and the persistence model.  A differencing collector
// keeps the previous sample as its baseline; a direct collector reports
// each sample as absolute values and is ready after one acquisition.

use vstd::prelude::*;

use crate::errors::{MetricCollectionError, MetricEncodingError, MetricSaveError,
    MetricCleanupError};
use crate::metric::{record_rows, MetricEntry, MetricEntryView, MetricRecord, MetricRecordView,
    MetricValue};
use crate::rate::{rate_from_pair, rate_record};
use crate::sample::{Sample, SampleView};
use crate::store::{kept_rows, MetricStore};

verus! {

/// Whether a collector differences successive samples or reports each
/// sample directly.
#[derive(Clone, Copy, PartialEq, Eq, Structural, Debug)]
pub enum CollectorMode {
    Differencing,
    Direct,
}

/// The entries a direct collector derives from one sample: each reading
/// reported as an absolute value.
pub open spec fn direct_entries(s: SampleView) -> Seq<MetricEntryView> {
    s.readings.map_values(
        |r: crate::sample::ReadingView|
            MetricEntryView { name: r.name, value: MetricValue::Absolute { value: r.value } },
    )
}

/// The record a direct collector derives from one sample.
pub open spec fn direct_record(s: SampleView) -> MetricRecordView {
    MetricRecordView { timestamp_ms: s.timestamp_ms, entries: direct_entries(s) }
}

/// One source's polling state: its registration key, its mode, the
/// previous sample (the differencing baseline) and the current record.
pub struct Collector {
    pub key: String,
    pub mode: CollectorMode,
    pub previous: Option<Sample>,
    pub metric: Option<MetricRecord>,
}

/// The mathematical model of a `Collector`.
pub ghost struct CollectorView {
    pub key: Seq<char>,
    pub mode: CollectorMode,
    pub previous: Option<SampleView>,
    pub metric: Option<MetricRecordView>,
}

impl View for Collector {
    type V = CollectorView;

    open spec fn view(&self) -> CollectorView {
        CollectorView {
            key: self.key@,
            mode: self.mode,
            previous: match self.previous {
                Some(s) => Some(s@),
                None => None,
            },
            metric: match self.metric {
                Some(m) => Some(m@),
                None => None,
            },
        }
    }
}

/// The collector state after feeding one successfully acquired sample.
///
/// A direct collector goes straight to ready with the sample's absolute
/// values.  A differencing collector always adopts the sample as its new
/// baseline; if it already held a baseline strictly older than the
/// sample, it also derives a fresh rate record, and otherwise (no
/// baseline yet, or an invalid interval) keeps its old record.
pub open spec fn collect_next(c: CollectorView, s: SampleView) -> CollectorView {
    match c.mode {
        CollectorMode::Direct => CollectorView {
            key: c.key,
            mode: c.mode,
            previous: c.previous,
            metric: Some(direct_record(s)),
        },
        CollectorMode::Differencing => CollectorView {
            key: c.key,
            mode: c.mode,
            previous: Some(s),
            metric: match c.previous {
                Some(p) => if p.timestamp_ms < s.timestamp_ms {
                    Some(rate_record(p, s))
                } else {
                    c.metric
                },
                None => c.metric,
            },
        },
    }
}

/// Whether feeding `s` to collector state `c` succeeds (it fails only
/// for a differencing collector whose baseline is not strictly older).
pub open spec fn collect_ok(c: CollectorView, s: SampleView) -> bool {
    match c.mode {
        CollectorMode::Direct => true,
        CollectorMode::Differencing => match c.previous {
            Some(p) => p.timestamp_ms < s.timestamp_ms,
            None => true,
        },
    }
}

/// The uniform operation set of one registered source: its key, the
/// acquisition step, saving, encoding and cleanup.  The closed set of
/// collector variants implements it once, through `Collector`.
pub trait MetricCollector {
    /// The abstract collector state the contracts speak of.
    spec fn collector_view(&self) -> CollectorView;

    /// This collector's registration key.
    fn key(&self) -> (r: String)
        ensures
            r@ == self.collector_view().key,
    ;

    /// Feed the outcome of one acquisition attempt.
    ///
    /// On a failed acquisition the stored state is left untouched and the
    /// adapter's error is returned.  On a successful acquisition the state
    /// advances to `collect_next`; an invalid interval between the old
    /// baseline and the new sample is reported as `InvalidInterval` while
    /// the new sample still replaces the baseline.
    fn collect(&mut self, acquired: Result<Sample, MetricCollectionError>) -> (r: Result<
        (),
        MetricCollectionError,
    >)
        ensures
            acquired matches Err(e) ==> final(self).collector_view() == old(
                self,
            ).collector_view() && r == Err::<(), MetricCollectionError>(e),
            acquired matches Ok(s) ==> final(self).collector_view() == collect_next(
                old(self).collector_view(),
                s@,
            ),
            acquired matches Ok(s) ==> (r is Ok <==> collect_ok(old(self).collector_view(), s@)),
            acquired matches Ok(s) && !collect_ok(old(self).collector_view(), s@) ==> r matches
                Err(MetricCollectionError::InvalidInterval),
    ;

    /// Write the current record's rows to the store; with no record yet
    /// this is a no-op and nothing is written.
    fn save(&self, store: &mut MetricStore, hostname: &str) -> (r: Result<(), MetricSaveError>)
        ensures
            r is Ok,
            self.collector_view().metric is None ==> final(store)@ == old(store)@,
            self.collector_view().metric matches Some(m) ==> final(store)@ == old(store)@
                + record_rows(m, hostname@, self.collector_view().key),
    ;

    /// Serialise the current record to its text representation for
    /// external inspection; fails with `NoRecord` exactly when no record
    /// has been computed yet.  Read-only, callable at any time.
    fn encode(&self) -> (r: Result<String, MetricEncodingError>)
        ensures
            r is Ok <==> self.collector_view().metric is Some,
            r matches Ok(text) ==> self.collector_view().metric matches Some(m) && text@
                == crate::encode::spec_encode_record(m),
            r is Err ==> r matches Err(MetricEncodingError::NoRecord),
    ;

    /// Delete this source's rows older than `cutoff_ms` from the store.
    fn cleanup(&self, store: &mut MetricStore, cutoff_ms: u64) -> (r: Result<
        (),
        MetricCleanupError,
    >)
        ensures
            r is Ok,
            final(store)@ == kept_rows(old(store)@, self.collector_view().key, cutoff_ms),
    ;
}

impl Collector {
    /// A fresh collector with no sample and no record.
    pub fn new(key: String, mode: CollectorMode) -> (r: Collector)
        ensures
            r@ == (CollectorView { key: key@, mode, previous: None, metric: None }),
    {
        Collector { key, mode, previous: None, metric: None }
    }

    /// Whether a record is available for saving or encoding.
    pub fn has_record(&self) -> (r: bool)
        ensures
            r == (self@.metric is Some),
    {
        match &self.metric {
            Some(_) => true,
            None => false,
        }
    }
}

impl MetricCollector for Collector {
    open spec fn collector_view(&self) -> CollectorView {
        self@
    }

    fn key(&self) -> (r: String) {
        self.key.clone()
    }

    fn collect(&mut self, acquired: Result<Sample, MetricCollectionError>) -> (r: Result<
        (),
        MetricCollectionError,
    >) {
        match acquired {
            Err(e) => Err(e),
            Ok(s) => {
                match self.mode {
                    CollectorMode::Direct => {
                        let entries = direct_entries_of(&s);
                        self.metric = Some(
                            MetricRecord { timestamp_ms: s.timestamp_ms, entries },
                        );
                        Ok(())
                    },
                    CollectorMode::Differencing => {
                        let mut result: Result<(), MetricCollectionError> = Ok(());
                        match &self.previous {
                            Some(p) => {
                                match rate_from_pair(p, &s) {
                                    Ok(m) => {
                                        self.metric = Some(m);
                                    },
                                    Err(_) => {
                                        result = Err(MetricCollectionError::InvalidInterval);
                                    },
                                }
                            },
                            None => {},
                        }
                        self.previous = Some(s);
                        result
                    },
                }
            },
        }
    }

    fn save(&self, store: &mut MetricStore, hostname: &str) -> (r: Result<
        (),
        MetricSaveError,
    >) {
        match &self.metric {
            None => Ok(()),
            Some(m) => {
                let rows = m.rows(hostname, self.key.as_str());
                store.append_all(rows);
                Ok(())
            },
        }
    }

    fn cleanup(&self, store: &mut MetricStore, cutoff_ms: u64) -> (r: Result<
        (),
        MetricCleanupError,
    >) {
        store.purge_older_than(self.key.as_str(), cutoff_ms);
        Ok(())
    }

    fn encode(&self) -> (r: Result<String, MetricEncodingError>) {
        match &self.metric {
            Some(m) => Ok(m.encode()),
            None => Err(MetricEncodingError::NoRecord),
        }
    }

}

/// Derive the absolute-value entries of one sample.
pub fn direct_entries_of(s: &Sample) -> (r: Vec<MetricEntry>)
    ensures
        r.deep_view() == direct_entries(s@),
{
    let n = s.readings.len();
    let mut out: Vec<MetricEntry> = Vec::new();
    let mut i: usize = 0;
    while i < n
        invariant
            n == s.readings.len(),
            0 <= i <= n,
            out.deep_view() =~= direct_entries(s@).take(i as int),
        decreases n - i,
    {
        let ghost pre = out.deep_view();
        let reading = &s.readings[i];
        let entry = MetricEntry {
            name: reading.name.clone(),
            value: MetricValue::Absolute { value: reading.value },
        };
        proof {
            assert(entry@ == direct_entries(s@)[i as int]);
        }
        out.push(entry);
        proof {
            assert(out.deep_view() =~= pre.push(entry@));
            assert(out.deep_view() =~= direct_entries(s@).take(i + 1));
        }
        i += 1;
    }
    proof {
        assert(direct_entries(s@).take(n as int) =~= direct_entries(s@));
    }
    out
}

} // verus!
