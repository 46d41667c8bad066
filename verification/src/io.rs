// The disk I/O source: parsing per-device cumulative sector counters
// out of the kernel's diskstats text, deriving exact per-interval byte
// rates from an entry pair, and flattening a snapshot into a sample.

use vstd::prelude::*;

use crate::metric::MetricValue;
use crate::sample::{str_eq, Reading, ReadingView, Sample};
use crate::text::{join_name, parse_u64, spec_lines, spec_parse_u64, spec_tokens, split_lines,
    split_whitespace};

verus! {

// Block size used to report sector counters as bytes, as the kernel
// defines a sector for these counters.
pub const DEVICE_BLOCK_SIZE: u64 = 512;

/// One per-device snapshot of cumulative sector counters.
pub struct InstantIOMetricEntry {
    pub device_name: String,
    pub sectors_read: u64,
    pub sectors_written: u64,
}

/// The mathematical model of an `InstantIOMetricEntry`.
pub ghost struct InstantIOMetricEntryView {
    pub device_name: Seq<char>,
    pub sectors_read: u64,
    pub sectors_written: u64,
}

impl View for InstantIOMetricEntry {
    type V = InstantIOMetricEntryView;

    open spec fn view(&self) -> InstantIOMetricEntryView {
        InstantIOMetricEntryView {
            device_name: self.device_name@,
            sectors_read: self.sectors_read,
            sectors_written: self.sectors_written,
        }
    }
}

impl DeepView for InstantIOMetricEntry {
    type V = InstantIOMetricEntryView;

    open spec fn deep_view(&self) -> InstantIOMetricEntryView {
        self@
    }
}

/// One per-device row of derived byte rates, kept exact as counter
/// deltas over the elapsed interval.
pub struct IOMetricEntry {
    pub device: String,
    pub read: MetricValue,
    pub write: MetricValue,
}

/// The mathematical model of an `IOMetricEntry`.
pub ghost struct IOMetricEntryView {
    pub device: Seq<char>,
    pub read: MetricValue,
    pub write: MetricValue,
}

impl View for IOMetricEntry {
    type V = IOMetricEntryView;

    open spec fn view(&self) -> IOMetricEntryView {
        IOMetricEntryView { device: self.device@, read: self.read, write: self.write }
    }
}

impl DeepView for IOMetricEntry {
    type V = IOMetricEntryView;

    open spec fn deep_view(&self) -> IOMetricEntryView {
        self@
    }
}

/// A timestamped raw disk snapshot.
pub struct InstantIOMetric {
    pub timestamp_ms: u64,
    pub stat: Vec<InstantIOMetricEntry>,
}

/// A timestamped derived disk record.
pub struct IOMetric {
    pub timestamp_ms: u64,
    pub stat: Vec<IOMetricEntry>,
}

impl crate::metric::Metric for InstantIOMetric {

}

/// A sector count as bytes, saturating at the type bound.
pub open spec fn spec_sectors_to_bytes(sectors: u64) -> u64 {
    if sectors * (DEVICE_BLOCK_SIZE as int) > u64::MAX {
        u64::MAX
    } else {
        (sectors * (DEVICE_BLOCK_SIZE as int)) as u64
    }
}

/// Convert a sector count to bytes, saturating at the type bound.
pub fn sectors_to_bytes(sectors: u64) -> (r: u64)
    ensures
        r == spec_sectors_to_bytes(sectors),
{
    proof {
        assert((sectors as int) * (DEVICE_BLOCK_SIZE as int) <= (u64::MAX as int) * 512)
            by (nonlinear_arith)
            requires
                sectors <= u64::MAX,
        ;
    }
    let wide: u128 = (sectors as u128) * (DEVICE_BLOCK_SIZE as u128);
    if wide > u64::MAX as u128 {
        u64::MAX
    } else {
        wide as u64
    }
}

/// The entry a tokenised diskstats line yields: the device name is the
/// third field, the cumulative sectors read and written the sixth and
/// seventh; shorter or unparsable lines yield nothing.
pub open spec fn spec_io_entry(toks: Seq<Seq<char>>) -> Option<InstantIOMetricEntryView> {
    if toks.len() >= 7 && spec_parse_u64(toks[5]) is Some && spec_parse_u64(toks[6]) is Some {
        Some(
            InstantIOMetricEntryView {
                device_name: toks[2],
                sectors_read: spec_parse_u64(toks[5])->Some_0,
                sectors_written: spec_parse_u64(toks[6])->Some_0,
            },
        )
    } else {
        None
    }
}

/// Extract one per-device entry from a tokenised diskstats line.
pub fn io_entry_of_tokens(tokens: &Vec<String>) -> (r: Option<InstantIOMetricEntry>)
    ensures
        r is Some <==> spec_io_entry(tokens.deep_view()) is Some,
        r matches Some(e) ==> e@ == spec_io_entry(tokens.deep_view())->Some_0,
{
    proof {
        assert(tokens.deep_view().len() == tokens@.len());
    }
    if tokens.len() < 7 {
        return None;
    }
    proof {
        assert(tokens.deep_view()[2] == tokens@[2]@);
        assert(tokens.deep_view()[5] == tokens@[5]@);
        assert(tokens.deep_view()[6] == tokens@[6]@);
    }
    let sectors_read = match parse_u64(tokens[5].as_str()) {
        Some(v) => v,
        None => {
            return None;
        },
    };
    let sectors_written = match parse_u64(tokens[6].as_str()) {
        Some(v) => v,
        None => {
            return None;
        },
    };
    Some(
        InstantIOMetricEntry { device_name: tokens[2].clone(), sectors_read, sectors_written },
    )
}

/// The per-device entries of the diskstats text, line by line.
pub open spec fn spec_io_entries(lines: Seq<Seq<char>>) -> Seq<InstantIOMetricEntryView>
    decreases lines.len(),
{
    if lines.len() == 0 {
        Seq::empty()
    } else {
        spec_io_entries(lines.drop_last()) + match spec_io_entry(spec_tokens(lines.last())) {
            Some(e) => seq![e],
            None => Seq::empty(),
        }
    }
}

/// What parsing the whole diskstats text yields.
pub open spec fn spec_parse_diskstats(text: Seq<char>) -> Seq<InstantIOMetricEntryView> {
    spec_io_entries(spec_lines(text))
}

/// Parse the kernel's diskstats text into its per-device entries.
#[verifier::loop_isolation(false)]
pub fn parse_diskstats(text: &str) -> (r: Vec<InstantIOMetricEntry>)
    ensures
        r.deep_view() == spec_parse_diskstats(text@),
{
    let lines = split_lines(text);
    let ghost lviews = lines.deep_view();
    let n = lines.len();
    let mut out: Vec<InstantIOMetricEntry> = Vec::new();
    let mut i: usize = 0;
    proof {
        assert(lviews.len() == lines@.len());
        assert(out.deep_view() =~= spec_io_entries(lviews.take(0)));
    }
    while i < n
        invariant
            0 <= i <= n,
            out.deep_view() =~= spec_io_entries(lviews.take(i as int)),
        decreases n - i,
    {
        proof {
            assert(lviews[i as int] == lines@[i as int]@);
            assert(lviews.take(i + 1).drop_last() =~= lviews.take(i as int));
            assert(lviews.take(i + 1).last() == lviews[i as int]);
        }
        let tokens = split_whitespace(lines[i].as_str());
        let ghost pre = out.deep_view();
        match io_entry_of_tokens(&tokens) {
            Some(e) => {
                let ghost ev = e@;
                out.push(e);
                proof {
                    assert(out.deep_view() =~= pre.push(ev));
                }
            },
            None => {},
        }
        proof {
            assert(out.deep_view() =~= spec_io_entries(lviews.take(i + 1)));
        }
        i += 1;
    }
    proof {
        assert(lviews.take(n as int) =~= lviews);
    }
    out
}

/// The two flattened readings of one per-device entry: the raw sector
/// counters under the device's name.
pub open spec fn spec_io_entry_readings(e: InstantIOMetricEntryView) -> Seq<ReadingView> {
    seq![
        ReadingView { name: e.device_name + "."@ + "sectors_read"@, value: e.sectors_read },
        ReadingView { name: e.device_name + "."@ + "sectors_written"@, value: e.sectors_written },
    ]
}

/// The flattened readings of a whole snapshot.
pub open spec fn spec_io_readings(stat: Seq<InstantIOMetricEntryView>) -> Seq<ReadingView>
    decreases stat.len(),
{
    if stat.len() == 0 {
        Seq::empty()
    } else {
        spec_io_readings(stat.drop_last()) + spec_io_entry_readings(stat.last())
    }
}

/// Flatten a raw disk snapshot into a generic sample.
#[verifier::loop_isolation(false)]
pub fn io_sample(m: &InstantIOMetric) -> (r: Sample)
    ensures
        r@.timestamp_ms == m.timestamp_ms,
        r@.readings == spec_io_readings(m.stat.deep_view()),
{
    let ghost views = m.stat.deep_view();
    let n = m.stat.len();
    let mut readings: Vec<Reading> = Vec::new();
    let mut i: usize = 0;
    proof {
        assert(views.len() == m.stat@.len());
        assert(readings.deep_view() =~= spec_io_readings(views.take(0)));
    }
    while i < n
        invariant
            0 <= i <= n,
            readings.deep_view() =~= spec_io_readings(views.take(i as int)),
        decreases n - i,
    {
        proof {
            assert(views[i as int] == m.stat@[i as int]@);
            assert(views.take(i + 1).drop_last() =~= views.take(i as int));
            assert(views.take(i + 1).last() == views[i as int]);
        }
        let entry = &m.stat[i];
        let ghost pre = readings.deep_view();
        let read_reading = Reading {
            name: join_name(entry.device_name.as_str(), "sectors_read"),
            value: entry.sectors_read,
        };
        let ghost rv0 = read_reading@;
        readings.push(read_reading);
        proof {
            assert(readings.deep_view() =~= pre.push(rv0));
        }
        let ghost pre1 = readings.deep_view();
        let write_reading = Reading {
            name: join_name(entry.device_name.as_str(), "sectors_written"),
            value: entry.sectors_written,
        };
        let ghost rv1 = write_reading@;
        readings.push(write_reading);
        proof {
            assert(readings.deep_view() =~= pre1.push(rv1));
            assert(readings.deep_view() =~= spec_io_readings(views.take(i + 1)));
        }
        i += 1;
    }
    proof {
        assert(views.take(n as int) =~= views);
    }
    Sample { timestamp_ms: m.timestamp_ms, readings }
}

/// The first entry of a snapshot for a given device, if any.
pub open spec fn spec_find_io(
    stat: Seq<InstantIOMetricEntryView>,
    device: Seq<char>,
) -> Option<InstantIOMetricEntryView>
    decreases stat.len(),
{
    if stat.len() == 0 {
        None
    } else if stat[0].device_name == device {
        Some(stat[0])
    } else {
        spec_find_io(stat.drop_first(), device)
    }
}

/// Whether neither counter of the newer entry fell behind the older one.
pub open spec fn io_monotone(f: InstantIOMetricEntryView, s: InstantIOMetricEntryView) -> bool {
    f.sectors_read <= s.sectors_read && f.sectors_written <= s.sectors_written
}

/// The derived row of one matched pair: exact byte deltas over the
/// elapsed interval.
pub open spec fn spec_io_rate_entry(
    f: InstantIOMetricEntryView,
    s: InstantIOMetricEntryView,
    interval_ms: u64,
) -> IOMetricEntryView
    recommends
        io_monotone(f, s),
{
    IOMetricEntryView {
        device: s.device_name,
        read: MetricValue::Rate {
            delta: spec_sectors_to_bytes((s.sectors_read - f.sectors_read) as u64),
            interval_ms,
        },
        write: MetricValue::Rate {
            delta: spec_sectors_to_bytes((s.sectors_written - f.sectors_written) as u64),
            interval_ms,
        },
    }
}

/// The derived rows of a snapshot pair: each newer entry matched by
/// device against the older snapshot; unmatched devices and reset
/// counters are dropped.
pub open spec fn spec_io_metric_entries(
    first_stat: Seq<InstantIOMetricEntryView>,
    second_stat: Seq<InstantIOMetricEntryView>,
    interval_ms: u64,
) -> Seq<IOMetricEntryView>
    decreases second_stat.len(),
{
    if second_stat.len() == 0 {
        Seq::empty()
    } else {
        spec_io_metric_entries(first_stat, second_stat.drop_last(), interval_ms) + match
            spec_find_io(first_stat, second_stat.last().device_name) {
            Some(f) => if io_monotone(f, second_stat.last()) {
                seq![spec_io_rate_entry(f, second_stat.last(), interval_ms)]
            } else {
                Seq::empty()
            },
            None => Seq::empty(),
        }
    }
}

/// Find the index of a device's entry in a snapshot.
#[verifier::loop_isolation(false)]
fn find_io(stat: &Vec<InstantIOMetricEntry>, device: &str) -> (r: Option<usize>)
    ensures
        r is Some <==> spec_find_io(stat.deep_view(), device@) is Some,
        r matches Some(ix) ==> 0 <= ix < stat@.len() && stat@[ix as int]@ == spec_find_io(
            stat.deep_view(),
            device@,
        )->Some_0,
{
    let ghost views = stat.deep_view();
    let n = stat.len();
    let mut i: usize = 0;
    proof {
        assert(views.len() == stat@.len());
        assert(views.skip(0) =~= views);
    }
    while i < n
        invariant
            0 <= i <= n,
            spec_find_io(views.skip(i as int), device@) == spec_find_io(views, device@),
        decreases n - i,
    {
        proof {
            assert(views[i as int] == stat@[i as int]@);
            assert(views.skip(i as int)[0] == views[i as int]);
            assert(views.skip(i as int).drop_first() =~= views.skip(i + 1));
        }
        if str_eq(stat[i].device_name.as_str(), device) {
            return Some(i);
        }
        i += 1;
    }
    None
}

/// Convert a pair of time-ordered disk snapshots into exact per-interval
/// byte rates, pairing entries by device name.
#[verifier::loop_isolation(false)]
pub fn io_metric_from_stats(first: &InstantIOMetric, second: &InstantIOMetric) -> (r: IOMetric)
    requires
        first.timestamp_ms < second.timestamp_ms,
    ensures
        r.timestamp_ms == second.timestamp_ms,
        r.stat.deep_view() == spec_io_metric_entries(
            first.stat.deep_view(),
            second.stat.deep_view(),
            (second.timestamp_ms - first.timestamp_ms) as u64,
        ),
{
    let interval_ms: u64 = second.timestamp_ms - first.timestamp_ms;
    let ghost fviews = first.stat.deep_view();
    let ghost sviews = second.stat.deep_view();
    let n = second.stat.len();
    let mut stat: Vec<IOMetricEntry> = Vec::new();
    let mut i: usize = 0;
    proof {
        assert(sviews.len() == second.stat@.len());
        assert(stat.deep_view() =~= spec_io_metric_entries(fviews, sviews.take(0), interval_ms));
    }
    while i < n
        invariant
            0 <= i <= n,
            stat.deep_view() =~= spec_io_metric_entries(fviews, sviews.take(i as int), interval_ms),
        decreases n - i,
    {
        proof {
            assert(sviews[i as int] == second.stat@[i as int]@);
            assert(sviews.take(i + 1).drop_last() =~= sviews.take(i as int));
            assert(sviews.take(i + 1).last() == sviews[i as int]);
        }
        let entry = &second.stat[i];
        match find_io(&first.stat, entry.device_name.as_str()) {
            Some(ix) => {
                let f = &first.stat[ix];
                if f.sectors_read <= entry.sectors_read && f.sectors_written
                    <= entry.sectors_written {
                    let ghost pre = stat.deep_view();
                    let row = IOMetricEntry {
                        device: entry.device_name.clone(),
                        read: MetricValue::Rate {
                            delta: sectors_to_bytes(entry.sectors_read - f.sectors_read),
                            interval_ms,
                        },
                        write: MetricValue::Rate {
                            delta: sectors_to_bytes(entry.sectors_written - f.sectors_written),
                            interval_ms,
                        },
                    };
                    let ghost rv = row@;
                    stat.push(row);
                    proof {
                        assert(stat.deep_view() =~= pre.push(rv));
                    }
                }
            },
            None => {},
        }
        proof {
            assert(stat.deep_view() =~= spec_io_metric_entries(
                fviews,
                sviews.take(i + 1),
                interval_ms,
            ));
        }
        i += 1;
    }
    proof {
        assert(sviews.take(n as int) =~= sviews);
    }
    IOMetric { timestamp_ms: second.timestamp_ms, stat }
}

} // verus!
