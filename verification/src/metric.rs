// The Metric data model: a derived, reporting-ready record of named
// per-interval rates or absolute values, and the rows it persists to.

use vstd::prelude::*;

verus! {

/// Marker for the derived, reporting-ready data of one source.
pub trait Metric {

}

/// One derived value: either an exact per-interval rate (a counter delta
/// over the elapsed milliseconds, kept unrounded as a rational), or an
/// absolute quantity reported as is.
#[derive(Clone, Copy, PartialEq, Eq, Structural, Debug)]
pub enum MetricValue {
    Rate { delta: u64, interval_ms: u64 },
    Absolute { value: u64 },
}

/// One named entry of a metric record.
pub struct MetricEntry {
    pub name: String,
    pub value: MetricValue,
}

/// The mathematical model of a `MetricEntry`.
pub ghost struct MetricEntryView {
    pub name: Seq<char>,
    pub value: MetricValue,
}

impl View for MetricEntry {
    type V = MetricEntryView;

    open spec fn view(&self) -> MetricEntryView {
        MetricEntryView { name: self.name@, value: self.value }
    }
}

impl DeepView for MetricEntry {
    type V = MetricEntryView;

    open spec fn deep_view(&self) -> MetricEntryView {
        self@
    }
}

/// A derived, reporting-ready record: the timestamp of the newer sample it
/// came from, and its ordered named entries.
pub struct MetricRecord {
    pub timestamp_ms: u64,
    pub entries: Vec<MetricEntry>,
}

/// The mathematical model of a `MetricRecord`.
pub ghost struct MetricRecordView {
    pub timestamp_ms: u64,
    pub entries: Seq<MetricEntryView>,
}

impl View for MetricRecord {
    type V = MetricRecordView;

    open spec fn view(&self) -> MetricRecordView {
        MetricRecordView { timestamp_ms: self.timestamp_ms, entries: self.entries.deep_view() }
    }
}

impl DeepView for MetricRecord {
    type V = MetricRecordView;

    open spec fn deep_view(&self) -> MetricRecordView {
        self@
    }
}

impl Metric for MetricRecord {

}

/// Whether the record holds an entry named `name`.
pub open spec fn record_has_key(rec: MetricRecordView, name: Seq<char>) -> bool {
    exists|i: int| 0 <= i < rec.entries.len() && rec.entries[i].name == name
}

/// One persisted row: the host it was read on, the source that produced
/// it, and one named value of one record.
pub struct MetricRow {
    pub hostname: String,
    pub source: String,
    pub timestamp_ms: u64,
    pub name: String,
    pub value: MetricValue,
}

/// The mathematical model of a `MetricRow`.
pub ghost struct MetricRowView {
    pub hostname: Seq<char>,
    pub source: Seq<char>,
    pub timestamp_ms: u64,
    pub name: Seq<char>,
    pub value: MetricValue,
}

impl View for MetricRow {
    type V = MetricRowView;

    open spec fn view(&self) -> MetricRowView {
        MetricRowView {
            hostname: self.hostname@,
            source: self.source@,
            timestamp_ms: self.timestamp_ms,
            name: self.name@,
            value: self.value,
        }
    }
}

impl DeepView for MetricRow {
    type V = MetricRowView;

    open spec fn deep_view(&self) -> MetricRowView {
        self@
    }
}

/// The rows a record persists: one per entry, all carrying the record's
/// timestamp, the writing host and the owning source.
pub open spec fn record_rows(
    rec: MetricRecordView,
    hostname: Seq<char>,
    source: Seq<char>,
) -> Seq<MetricRowView> {
    rec.entries.map_values(
        |e: MetricEntryView|
            MetricRowView {
                hostname,
                source,
                timestamp_ms: rec.timestamp_ms,
                name: e.name,
                value: e.value,
            },
    )
}

impl MetricRecord {
    /// Materialise the rows this record persists for `hostname` and `source`.
    pub fn rows(&self, hostname: &str, source: &str) -> (r: Vec<MetricRow>)
        ensures
            r.deep_view() == record_rows(self@, hostname@, source@),
    {
        let n = self.entries.len();
        let mut out: Vec<MetricRow> = Vec::new();
        let mut i: usize = 0;
        while i < n
            invariant
                n == self.entries.len(),
                0 <= i <= n,
                out.deep_view() =~= record_rows(self@, hostname@, source@).take(i as int),
            decreases n - i,
        {
            let ghost pre = out.deep_view();
            let entry = &self.entries[i];
            let row = MetricRow {
                hostname: String::from_str(hostname),
                source: String::from_str(source),
                timestamp_ms: self.timestamp_ms,
                name: entry.name.clone(),
                value: entry.value,
            };
            proof {
                assert(row@ == record_rows(self@, hostname@, source@)[i as int]);
            }
            out.push(row);
            proof {
                assert(out.deep_view() =~= pre.push(row@));
                assert(out.deep_view() =~= record_rows(self@, hostname@, source@).take(
                    i + 1,
                ));
            }
            i += 1;
        }
        proof {
            assert(record_rows(self@, hostname@, source@).take(n as int) =~= record_rows(
                self@,
                hostname@,
                source@,
            ));
        }
        out
    }
}

} // verus!
