// The load-average source: reading the three instantaneous averages
// out of the kernel's loadavg text, each kept exact in hundredths.
// Load averages are already rate-like, so this collector reports each
// sample directly.

use vstd::prelude::*;

use crate::sample::{Reading, ReadingView, Sample};
use crate::text::{parse_centi, spec_parse_centi, spec_tokens, split_whitespace};

verus! {

/// One timestamped reading of the one-, five- and fifteen-minute load
/// averages, each in hundredths of a unit.
#[derive(Clone, Copy, PartialEq, Eq, Structural, Debug)]
pub struct LoadAverageMetric {
    pub timestamp_ms: u64,
    pub one: u64,
    pub five: u64,
    pub fifteen: u64,
}

impl crate::metric::Metric for LoadAverageMetric {

}

/// What parsing the loadavg text yields: its first three fields, each a
/// decimal fraction read in hundredths.
pub open spec fn spec_parse_loadavg(text: Seq<char>) -> Option<(u64, u64, u64)> {
    let toks = spec_tokens(text);
    if toks.len() >= 3 && spec_parse_centi(toks[0]) is Some && spec_parse_centi(toks[1]) is Some
        && spec_parse_centi(toks[2]) is Some {
        Some(
            (
                spec_parse_centi(toks[0])->Some_0,
                spec_parse_centi(toks[1])->Some_0,
                spec_parse_centi(toks[2])->Some_0,
            ),
        )
    } else {
        None
    }
}

/// Parse the kernel's loadavg text into one timestamped reading.
pub fn parse_loadavg(timestamp_ms: u64, text: &str) -> (r: Option<LoadAverageMetric>)
    ensures
        r is Some <==> spec_parse_loadavg(text@) is Some,
        r matches Some(m) ==> spec_parse_loadavg(text@) matches Some(t) && m.timestamp_ms
            == timestamp_ms && m.one == t.0 && m.five == t.1 && m.fifteen == t.2,
{
    let tokens = split_whitespace(text);
    proof {
        assert(tokens.deep_view().len() == tokens@.len());
    }
    if tokens.len() < 3 {
        return None;
    }
    proof {
        assert(tokens.deep_view()[0] == tokens@[0]@);
        assert(tokens.deep_view()[1] == tokens@[1]@);
        assert(tokens.deep_view()[2] == tokens@[2]@);
    }
    let one = match parse_centi(tokens[0].as_str()) {
        Some(v) => v,
        None => {
            return None;
        },
    };
    let five = match parse_centi(tokens[1].as_str()) {
        Some(v) => v,
        None => {
            return None;
        },
    };
    let fifteen = match parse_centi(tokens[2].as_str()) {
        Some(v) => v,
        None => {
            return None;
        },
    };
    Some(LoadAverageMetric { timestamp_ms, one, five, fifteen })
}

/// The three named readings of one load-average reading, in hundredths.
pub open spec fn spec_loadavg_readings(m: LoadAverageMetric) -> Seq<ReadingView> {
    seq![
        ReadingView { name: "one"@, value: m.one },
        ReadingView { name: "five"@, value: m.five },
        ReadingView { name: "fifteen"@, value: m.fifteen },
    ]
}

/// Turn a load-average reading into a generic sample for a direct
/// collector.
pub fn loadavg_sample(m: &LoadAverageMetric) -> (r: Sample)
    ensures
        r@.timestamp_ms == m.timestamp_ms,
        r@.readings == spec_loadavg_readings(*m),
{
    let mut readings: Vec<Reading> = Vec::new();
    readings.push(Reading { name: String::from_str("one"), value: m.one });
    readings.push(Reading { name: String::from_str("five"), value: m.five });
    readings.push(Reading { name: String::from_str("fifteen"), value: m.fifteen });
    proof {
        assert(readings.deep_view() =~= spec_loadavg_readings(*m));
    }
    Sample { timestamp_ms: m.timestamp_ms, readings }
}

} // verus!
