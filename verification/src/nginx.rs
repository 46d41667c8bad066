// The reverse-proxy source: reading the cumulative handled-request
// count out of the status page text, and deriving requests handled per
// minute from a pair of readings.  An optional source: absent
// configuration it reports "not configured", never a fault.

use vstd::prelude::*;

use crate::sample::{Reading, ReadingView, Sample};
use crate::text::{parse_u64, spec_lines, spec_parse_u64, spec_tokens, split_lines,
    split_whitespace};

verus! {

/// Milliseconds per minute.
pub const MILLIS_PER_MINUTE: u64 = 60000;

/// One timestamped reading of the cumulative handled-request counter.
#[derive(Clone, Copy, PartialEq, Eq, Structural, Debug)]
pub struct NginxInstantMetric {
    pub timestamp_ms: u64,
    pub handled_requests: u64,
}

impl crate::metric::Metric for NginxInstantMetric {

}

/// A derived reading: requests handled per minute, a discrete quantity
/// truncated by whole-minute division.
#[derive(Clone, Copy, PartialEq, Eq, Structural, Debug)]
pub struct NginxMetric {
    pub timestamp_ms: u64,
    pub handled_requests: u32,
}

/// What parsing the status page yields: the third field of its third
/// line, the cumulative handled-request count.
pub open spec fn spec_parse_nginx_status(text: Seq<char>) -> Option<u64> {
    let ls = spec_lines(text);
    if ls.len() < 3 {
        None
    } else {
        let toks = spec_tokens(ls[2]);
        if toks.len() >= 3 {
            spec_parse_u64(toks[2])
        } else {
            None
        }
    }
}

/// Parse the status page text into the handled-request counter.
pub fn parse_nginx_status(text: &str) -> (r: Option<u64>)
    ensures
        r == spec_parse_nginx_status(text@),
{
    let lines = split_lines(text);
    proof {
        assert(lines.deep_view().len() == lines@.len());
    }
    if lines.len() < 3 {
        return None;
    }
    proof {
        assert(lines.deep_view()[2] == lines@[2]@);
    }
    let tokens = split_whitespace(lines[2].as_str());
    proof {
        assert(tokens.deep_view().len() == tokens@.len());
    }
    if tokens.len() < 3 {
        return None;
    }
    proof {
        assert(tokens.deep_view()[2] == tokens@[2]@);
    }
    parse_u64(tokens[2].as_str())
}

/// The whole minutes elapsed between two readings (zero when the second
/// is not later).
pub open spec fn spec_elapsed_minutes(first: NginxInstantMetric, second: NginxInstantMetric) -> u64 {
    if second.timestamp_ms > first.timestamp_ms {
        (((second.timestamp_ms - first.timestamp_ms) as u64) / MILLIS_PER_MINUTE) as u64
    } else {
        0
    }
}

/// Derive requests handled per minute from a pair of readings.
///
/// Yields nothing when less than one whole minute elapsed (the divisor
/// would be zero: a defined outcome, never a crash) and when the counter
/// reset (a negative rate is never reported: the interval is dropped).
/// Otherwise the count is the counter delta divided by the elapsed whole
/// minutes, truncated toward zero, narrowed to the stored width.
pub fn nginx_metric_from_stats(first: &NginxInstantMetric, second: &NginxInstantMetric) -> (r:
    Option<NginxMetric>)
    ensures
        r is Some <==> spec_elapsed_minutes(*first, *second) > 0 && second.handled_requests
            >= first.handled_requests,
        r matches Some(m) ==> m.timestamp_ms == second.timestamp_ms && m.handled_requests == (((
        second.handled_requests - first.handled_requests) as u64) / spec_elapsed_minutes(
            *first,
            *second,
        )) as u32,
{
    if second.timestamp_ms <= first.timestamp_ms {
        return None;
    }
    let elapsed_minutes: u64 = (second.timestamp_ms - first.timestamp_ms) / MILLIS_PER_MINUTE;
    if elapsed_minutes == 0 {
        return None;
    }
    if second.handled_requests < first.handled_requests {
        return None;
    }
    let per_minute: u64 = (second.handled_requests - first.handled_requests) / elapsed_minutes;
    Some(
        NginxMetric {
            timestamp_ms: second.timestamp_ms,
            handled_requests: #[verifier::truncate] (per_minute as u32),
        },
    )
}

/// The single reading of one status page sample.
pub open spec fn spec_nginx_readings(m: NginxInstantMetric) -> Seq<ReadingView> {
    seq![ReadingView { name: "handled_requests"@, value: m.handled_requests }]
}

/// Turn a status reading into a generic sample for a differencing
/// collector.
pub fn nginx_sample(m: &NginxInstantMetric) -> (r: Sample)
    ensures
        r@.timestamp_ms == m.timestamp_ms,
        r@.readings == spec_nginx_readings(*m),
{
    let mut readings: Vec<Reading> = Vec::new();
    readings.push(
        Reading { name: String::from_str("handled_requests"), value: m.handled_requests },
    );
    proof {
        assert(readings.deep_view() =~= spec_nginx_readings(*m));
    }
    Sample { timestamp_ms: m.timestamp_ms, readings }
}

} // verus!
