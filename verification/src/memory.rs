// The memory source: reading the labelled kilobyte quantities out of
// the kernel's meminfo text.  Memory usage is already an absolute
// quantity, so its collector reports each sample directly.

use vstd::prelude::*;

use crate::sample::{str_eq, Reading, ReadingView, Sample};
use crate::text::{parse_u64, spec_lines, spec_parse_u64, spec_tokens, split_lines,
    split_whitespace};

verus! {

/// One timestamped snapshot of the labelled memory quantities, each
/// absent when its label was missing or unreadable.
#[derive(Clone, Copy, PartialEq, Eq, Structural, Debug)]
pub struct MemoryMetric {
    pub timestamp_ms: u64,
    pub total: Option<i64>,
    pub free: Option<i64>,
    pub available: Option<i64>,
    pub buffers: Option<i64>,
    pub cached: Option<i64>,
    pub swap_total: Option<i64>,
    pub swap_free: Option<i64>,
}

impl crate::metric::Metric for MemoryMetric {

}

/// The value a line contributes for a label: its second field, when the
/// first field is the label and the value is a representable number.
pub open spec fn spec_meminfo_line_value(line: Seq<char>, label: Seq<char>) -> Option<i64> {
    let toks = spec_tokens(line);
    if toks.len() >= 2 && toks[0] == label && spec_parse_u64(toks[1]) is Some && spec_parse_u64(
        toks[1],
    )->Some_0 <= i64::MAX {
        Some(spec_parse_u64(toks[1])->Some_0 as i64)
    } else {
        None
    }
}

/// The value of a label over a whole text: the last line that readably
/// carries it wins.
pub open spec fn spec_meminfo_value(lines: Seq<Seq<char>>, label: Seq<char>) -> Option<i64>
    decreases lines.len(),
{
    if lines.len() == 0 {
        None
    } else {
        match spec_meminfo_line_value(lines.last(), label) {
            Some(v) => Some(v),
            None => spec_meminfo_value(lines.drop_last(), label),
        }
    }
}

/// Look one label up in the meminfo text.
#[verifier::loop_isolation(false)]
pub fn lookup_meminfo(lines: &Vec<String>, label: &str) -> (r: Option<i64>)
    ensures
        r == spec_meminfo_value(lines.deep_view(), label@),
{
    let ghost lviews = lines.deep_view();
    let n = lines.len();
    let mut best: Option<i64> = None;
    let mut i: usize = 0;
    proof {
        assert(lviews.len() == lines@.len());
        assert(best == spec_meminfo_value(lviews.take(0), label@));
    }
    while i < n
        invariant
            0 <= i <= n,
            best == spec_meminfo_value(lviews.take(i as int), label@),
        decreases n - i,
    {
        proof {
            assert(lviews[i as int] == lines@[i as int]@);
            assert(lviews.take(i + 1).drop_last() =~= lviews.take(i as int));
            assert(lviews.take(i + 1).last() == lviews[i as int]);
        }
        let tokens = split_whitespace(lines[i].as_str());
        if tokens.len() >= 2 {
            proof {
                assert(tokens.deep_view()[0] == tokens@[0]@);
                assert(tokens.deep_view()[1] == tokens@[1]@);
            }
            if str_eq(tokens[0].as_str(), label) {
                match parse_u64(tokens[1].as_str()) {
                    Some(v) => {
                        if v <= i64::MAX as u64 {
                            best = Some(v as i64);
                        }
                    },
                    None => {},
                }
            }
        }
        proof {
            assert(best == spec_meminfo_value(lviews.take(i + 1), label@));
        }
        i += 1;
    }
    proof {
        assert(lviews.take(n as int) =~= lviews);
    }
    best
}

/// Parse the kernel's meminfo text into one timestamped snapshot.
pub fn parse_meminfo(timestamp_ms: u64, text: &str) -> (r: MemoryMetric)
    ensures
        r.timestamp_ms == timestamp_ms,
        r.total == spec_meminfo_value(spec_lines(text@), "MemTotal:"@),
        r.free == spec_meminfo_value(spec_lines(text@), "MemFree:"@),
        r.available == spec_meminfo_value(spec_lines(text@), "MemAvailable:"@),
        r.buffers == spec_meminfo_value(spec_lines(text@), "Buffers:"@),
        r.cached == spec_meminfo_value(spec_lines(text@), "Cached:"@),
        r.swap_total == spec_meminfo_value(spec_lines(text@), "SwapTotal:"@),
        r.swap_free == spec_meminfo_value(spec_lines(text@), "SwapFree:"@),
{
    let lines = split_lines(text);
    MemoryMetric {
        timestamp_ms,
        total: lookup_meminfo(&lines, "MemTotal:"),
        free: lookup_meminfo(&lines, "MemFree:"),
        available: lookup_meminfo(&lines, "MemAvailable:"),
        buffers: lookup_meminfo(&lines, "Buffers:"),
        cached: lookup_meminfo(&lines, "Cached:"),
        swap_total: lookup_meminfo(&lines, "SwapTotal:"),
        swap_free: lookup_meminfo(&lines, "SwapFree:"),
    }
}

/// A missing or negative quantity reports as zero.
pub open spec fn spec_quantity(v: Option<i64>) -> u64 {
    match v {
        Some(x) => if x >= 0 {
            x as u64
        } else {
            0
        },
        None => 0,
    }
}

/// Report a possibly missing quantity, zero when absent.
pub fn quantity(v: Option<i64>) -> (r: u64)
    ensures
        r == spec_quantity(v),
{
    match v {
        Some(x) => if x >= 0 {
            x as u64
        } else {
            0
        },
        None => 0,
    }
}

/// The seven named readings of one memory snapshot.
pub open spec fn spec_memory_readings(m: MemoryMetric) -> Seq<ReadingView> {
    seq![
        ReadingView { name: "total"@, value: spec_quantity(m.total) },
        ReadingView { name: "free"@, value: spec_quantity(m.free) },
        ReadingView { name: "available"@, value: spec_quantity(m.available) },
        ReadingView { name: "buffers"@, value: spec_quantity(m.buffers) },
        ReadingView { name: "cached"@, value: spec_quantity(m.cached) },
        ReadingView { name: "swap_total"@, value: spec_quantity(m.swap_total) },
        ReadingView { name: "swap_free"@, value: spec_quantity(m.swap_free) },
    ]
}

/// Turn a memory snapshot into a generic sample for a direct collector.
pub fn memory_sample(m: &MemoryMetric) -> (r: Sample)
    ensures
        r@.timestamp_ms == m.timestamp_ms,
        r@.readings == spec_memory_readings(*m),
{
    let mut readings: Vec<Reading> = Vec::new();
    readings.push(Reading { name: String::from_str("total"), value: quantity(m.total) });
    readings.push(Reading { name: String::from_str("free"), value: quantity(m.free) });
    readings.push(Reading { name: String::from_str("available"), value: quantity(m.available) });
    readings.push(Reading { name: String::from_str("buffers"), value: quantity(m.buffers) });
    readings.push(Reading { name: String::from_str("cached"), value: quantity(m.cached) });
    readings.push(
        Reading { name: String::from_str("swap_total"), value: quantity(m.swap_total) },
    );
    readings.push(Reading { name: String::from_str("swap_free"), value: quantity(m.swap_free) });
    proof {
        assert(readings.deep_view() =~= spec_memory_readings(*m));
    }
    Sample { timestamp_ms: m.timestamp_ms, readings }
}

} // verus!
