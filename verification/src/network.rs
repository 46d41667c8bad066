// The network source: parsing per-interface cumulative byte counters
// out of the kernel's interface table, deriving exact per-interval
// rates from an entry pair, and flattening a snapshot into a sample.

use vstd::prelude::*;

use crate::metric::MetricValue;
use crate::sample::{str_eq, Reading, ReadingView, Sample};
use crate::text::{join_name, parse_u64, spec_lines, spec_parse_u64, spec_tokens, split_lines,
    split_whitespace};

verus! {

/// One per-interface snapshot of cumulative receive and transmit bytes.
pub struct InstantNetworkMetricEntry {
    pub device: String,
    pub rx: u64,
    pub tx: u64,
}

/// The mathematical model of an `InstantNetworkMetricEntry`.
pub ghost struct InstantNetworkMetricEntryView {
    pub device: Seq<char>,
    pub rx: u64,
    pub tx: u64,
}

impl View for InstantNetworkMetricEntry {
    type V = InstantNetworkMetricEntryView;

    open spec fn view(&self) -> InstantNetworkMetricEntryView {
        InstantNetworkMetricEntryView { device: self.device@, rx: self.rx, tx: self.tx }
    }
}

impl DeepView for InstantNetworkMetricEntry {
    type V = InstantNetworkMetricEntryView;

    open spec fn deep_view(&self) -> InstantNetworkMetricEntryView {
        self@
    }
}

/// One per-interface row of derived byte rates, kept exact as counter
/// deltas over the elapsed interval.
pub struct NetworkMetricEntry {
    pub device: String,
    pub rx: MetricValue,
    pub tx: MetricValue,
}

/// The mathematical model of a `NetworkMetricEntry`.
pub ghost struct NetworkMetricEntryView {
    pub device: Seq<char>,
    pub rx: MetricValue,
    pub tx: MetricValue,
}

impl View for NetworkMetricEntry {
    type V = NetworkMetricEntryView;

    open spec fn view(&self) -> NetworkMetricEntryView {
        NetworkMetricEntryView { device: self.device@, rx: self.rx, tx: self.tx }
    }
}

impl DeepView for NetworkMetricEntry {
    type V = NetworkMetricEntryView;

    open spec fn deep_view(&self) -> NetworkMetricEntryView {
        self@
    }
}

/// A timestamped raw interface snapshot.
pub struct InstantNetworkMetric {
    pub timestamp_ms: u64,
    pub stat: Vec<InstantNetworkMetricEntry>,
}

/// A timestamped derived interface record.
pub struct NetworkMetric {
    pub timestamp_ms: u64,
    pub stat: Vec<NetworkMetricEntry>,
}

impl crate::metric::Metric for InstantNetworkMetric {

}

/// The entry a tokenised interface line yields: the interface label is
/// the first field (with its trailing colon, as the kernel prints it),
/// the cumulative receive bytes the second, the cumulative transmit
/// bytes the tenth; shorter or unparsable lines yield nothing.
pub open spec fn spec_network_entry(toks: Seq<Seq<char>>) -> Option<InstantNetworkMetricEntryView> {
    if toks.len() >= 10 && spec_parse_u64(toks[1]) is Some && spec_parse_u64(toks[9]) is Some {
        Some(
            InstantNetworkMetricEntryView {
                device: toks[0],
                rx: spec_parse_u64(toks[1])->Some_0,
                tx: spec_parse_u64(toks[9])->Some_0,
            },
        )
    } else {
        None
    }
}

/// Extract one per-interface entry from a tokenised line.
pub fn network_entry_of_tokens(tokens: &Vec<String>) -> (r: Option<InstantNetworkMetricEntry>)
    ensures
        r is Some <==> spec_network_entry(tokens.deep_view()) is Some,
        r matches Some(e) ==> e@ == spec_network_entry(tokens.deep_view())->Some_0,
{
    proof {
        assert(tokens.deep_view().len() == tokens@.len());
    }
    if tokens.len() < 10 {
        return None;
    }
    proof {
        assert(tokens.deep_view()[0] == tokens@[0]@);
        assert(tokens.deep_view()[1] == tokens@[1]@);
        assert(tokens.deep_view()[9] == tokens@[9]@);
    }
    let rx = match parse_u64(tokens[1].as_str()) {
        Some(v) => v,
        None => {
            return None;
        },
    };
    let tx = match parse_u64(tokens[9].as_str()) {
        Some(v) => v,
        None => {
            return None;
        },
    };
    Some(InstantNetworkMetricEntry { device: tokens[0].clone(), rx, tx })
}

/// The per-interface entries of a sequence of lines.
pub open spec fn spec_network_entries(lines: Seq<Seq<char>>) -> Seq<InstantNetworkMetricEntryView>
    decreases lines.len(),
{
    if lines.len() == 0 {
        Seq::empty()
    } else {
        spec_network_entries(lines.drop_last()) + match spec_network_entry(
            spec_tokens(lines.last()),
        ) {
            Some(e) => seq![e],
            None => Seq::empty(),
        }
    }
}

/// What parsing the whole interface table yields: its first two lines
/// are headers and are skipped.
pub open spec fn spec_parse_net_dev(text: Seq<char>) -> Seq<InstantNetworkMetricEntryView> {
    let ls = spec_lines(text);
    if ls.len() <= 2 {
        Seq::empty()
    } else {
        spec_network_entries(ls.skip(2))
    }
}

/// Parse the kernel's interface table into its per-interface entries.
#[verifier::loop_isolation(false)]
pub fn parse_net_dev(text: &str) -> (r: Vec<InstantNetworkMetricEntry>)
    ensures
        r.deep_view() == spec_parse_net_dev(text@),
{
    let lines = split_lines(text);
    let ghost lviews = lines.deep_view();
    let n = lines.len();
    let mut out: Vec<InstantNetworkMetricEntry> = Vec::new();
    proof {
        assert(lviews.len() == lines@.len());
    }
    if n <= 2 {
        proof {
            assert(out.deep_view() =~= spec_parse_net_dev(text@));
        }
        return out;
    }
    let ghost body = lviews.skip(2);
    let mut i: usize = 2;
    proof {
        assert(out.deep_view() =~= spec_network_entries(body.take(0)));
    }
    while i < n
        invariant
            2 <= i <= n,
            out.deep_view() =~= spec_network_entries(body.take(i - 2)),
        decreases n - i,
    {
        proof {
            assert(body[i - 2] == lviews[i as int]);
            assert(lviews[i as int] == lines@[i as int]@);
            assert(body.take(i - 1).drop_last() =~= body.take(i - 2));
            assert(body.take(i - 1).last() == body[i - 2]);
        }
        let tokens = split_whitespace(lines[i].as_str());
        let ghost pre = out.deep_view();
        match network_entry_of_tokens(&tokens) {
            Some(e) => {
                let ghost ev = e@;
                out.push(e);
                proof {
                    assert(out.deep_view() =~= pre.push(ev));
                }
            },
            None => {},
        }
        proof {
            assert(out.deep_view() =~= spec_network_entries(body.take(i - 1)));
        }
        i += 1;
    }
    proof {
        assert(body.take(n - 2) =~= body);
    }
    out
}

/// The two flattened readings of one per-interface entry.
pub open spec fn spec_network_entry_readings(
    e: InstantNetworkMetricEntryView,
) -> Seq<ReadingView> {
    seq![
        ReadingView { name: e.device + "."@ + "rx"@, value: e.rx },
        ReadingView { name: e.device + "."@ + "tx"@, value: e.tx },
    ]
}

/// The flattened readings of a whole snapshot.
pub open spec fn spec_network_readings(
    stat: Seq<InstantNetworkMetricEntryView>,
) -> Seq<ReadingView>
    decreases stat.len(),
{
    if stat.len() == 0 {
        Seq::empty()
    } else {
        spec_network_readings(stat.drop_last()) + spec_network_entry_readings(stat.last())
    }
}

/// Flatten a raw interface snapshot into a generic sample.
#[verifier::loop_isolation(false)]
pub fn network_sample(m: &InstantNetworkMetric) -> (r: Sample)
    ensures
        r@.timestamp_ms == m.timestamp_ms,
        r@.readings == spec_network_readings(m.stat.deep_view()),
{
    let ghost views = m.stat.deep_view();
    let n = m.stat.len();
    let mut readings: Vec<Reading> = Vec::new();
    let mut i: usize = 0;
    proof {
        assert(views.len() == m.stat@.len());
        assert(readings.deep_view() =~= spec_network_readings(views.take(0)));
    }
    while i < n
        invariant
            0 <= i <= n,
            readings.deep_view() =~= spec_network_readings(views.take(i as int)),
        decreases n - i,
    {
        proof {
            assert(views[i as int] == m.stat@[i as int]@);
            assert(views.take(i + 1).drop_last() =~= views.take(i as int));
            assert(views.take(i + 1).last() == views[i as int]);
        }
        let entry = &m.stat[i];
        let ghost pre = readings.deep_view();
        let rx_reading = Reading { name: join_name(entry.device.as_str(), "rx"), value: entry.rx };
        let ghost rv0 = rx_reading@;
        readings.push(rx_reading);
        proof {
            assert(readings.deep_view() =~= pre.push(rv0));
        }
        let ghost pre1 = readings.deep_view();
        let tx_reading = Reading { name: join_name(entry.device.as_str(), "tx"), value: entry.tx };
        let ghost rv1 = tx_reading@;
        readings.push(tx_reading);
        proof {
            assert(readings.deep_view() =~= pre1.push(rv1));
            assert(readings.deep_view() =~= spec_network_readings(views.take(i + 1)));
        }
        i += 1;
    }
    proof {
        assert(views.take(n as int) =~= views);
    }
    Sample { timestamp_ms: m.timestamp_ms, readings }
}

/// The first entry of a snapshot for a given interface, if any.
pub open spec fn spec_find_network(
    stat: Seq<InstantNetworkMetricEntryView>,
    device: Seq<char>,
) -> Option<InstantNetworkMetricEntryView>
    decreases stat.len(),
{
    if stat.len() == 0 {
        None
    } else if stat[0].device == device {
        Some(stat[0])
    } else {
        spec_find_network(stat.drop_first(), device)
    }
}

/// Whether neither counter of the newer entry fell behind the older one.
pub open spec fn network_monotone(
    f: InstantNetworkMetricEntryView,
    s: InstantNetworkMetricEntryView,
) -> bool {
    f.rx <= s.rx && f.tx <= s.tx
}

/// The derived row of one matched pair: exact byte deltas over the
/// elapsed interval.
pub open spec fn spec_network_rate_entry(
    f: InstantNetworkMetricEntryView,
    s: InstantNetworkMetricEntryView,
    interval_ms: u64,
) -> NetworkMetricEntryView
    recommends
        network_monotone(f, s),
{
    NetworkMetricEntryView {
        device: s.device,
        rx: MetricValue::Rate { delta: (s.rx - f.rx) as u64, interval_ms },
        tx: MetricValue::Rate { delta: (s.tx - f.tx) as u64, interval_ms },
    }
}

/// The derived rows of a snapshot pair: each newer entry matched by
/// interface against the older snapshot; unmatched interfaces and reset
/// counters are dropped.
pub open spec fn spec_network_metric_entries(
    first_stat: Seq<InstantNetworkMetricEntryView>,
    second_stat: Seq<InstantNetworkMetricEntryView>,
    interval_ms: u64,
) -> Seq<NetworkMetricEntryView>
    decreases second_stat.len(),
{
    if second_stat.len() == 0 {
        Seq::empty()
    } else {
        spec_network_metric_entries(first_stat, second_stat.drop_last(), interval_ms) + match
            spec_find_network(first_stat, second_stat.last().device) {
            Some(f) => if network_monotone(f, second_stat.last()) {
                seq![spec_network_rate_entry(f, second_stat.last(), interval_ms)]
            } else {
                Seq::empty()
            },
            None => Seq::empty(),
        }
    }
}

/// Convert one matched pair of interface entries into exact rates over
/// the elapsed interval.
pub fn network_metric_from_two_stats(
    interval_ms: u64,
    first: &InstantNetworkMetricEntry,
    second: &InstantNetworkMetricEntry,
) -> (r: NetworkMetricEntry)
    requires
        network_monotone(first@, second@),
    ensures
        r@ == spec_network_rate_entry(first@, second@, interval_ms),
{
    NetworkMetricEntry {
        device: second.device.clone(),
        rx: MetricValue::Rate { delta: second.rx - first.rx, interval_ms },
        tx: MetricValue::Rate { delta: second.tx - first.tx, interval_ms },
    }
}

/// Find the index of an interface's entry in a snapshot.
#[verifier::loop_isolation(false)]
fn find_network(stat: &Vec<InstantNetworkMetricEntry>, device: &str) -> (r: Option<usize>)
    ensures
        r is Some <==> spec_find_network(stat.deep_view(), device@) is Some,
        r matches Some(ix) ==> 0 <= ix < stat@.len() && stat@[ix as int]@ == spec_find_network(
            stat.deep_view(),
            device@,
        )->Some_0,
{
    let ghost views = stat.deep_view();
    let n = stat.len();
    let mut i: usize = 0;
    proof {
        assert(views.len() == stat@.len());
        assert(views.skip(0) =~= views);
    }
    while i < n
        invariant
            0 <= i <= n,
            spec_find_network(views.skip(i as int), device@) == spec_find_network(views, device@),
        decreases n - i,
    {
        proof {
            assert(views[i as int] == stat@[i as int]@);
            assert(views.skip(i as int)[0] == views[i as int]);
            assert(views.skip(i as int).drop_first() =~= views.skip(i + 1));
        }
        if str_eq(stat[i].device.as_str(), device) {
            return Some(i);
        }
        i += 1;
    }
    None
}

/// Convert a pair of time-ordered interface snapshots into exact
/// per-interval rates, pairing entries by interface.
#[verifier::loop_isolation(false)]
pub fn network_metric_from_stats(
    first: &InstantNetworkMetric,
    second: &InstantNetworkMetric,
) -> (r: NetworkMetric)
    requires
        first.timestamp_ms < second.timestamp_ms,
    ensures
        r.timestamp_ms == second.timestamp_ms,
        r.stat.deep_view() == spec_network_metric_entries(
            first.stat.deep_view(),
            second.stat.deep_view(),
            (second.timestamp_ms - first.timestamp_ms) as u64,
        ),
{
    let interval_ms: u64 = second.timestamp_ms - first.timestamp_ms;
    let ghost fviews = first.stat.deep_view();
    let ghost sviews = second.stat.deep_view();
    let n = second.stat.len();
    let mut stat: Vec<NetworkMetricEntry> = Vec::new();
    let mut i: usize = 0;
    proof {
        assert(sviews.len() == second.stat@.len());
        assert(stat.deep_view() =~= spec_network_metric_entries(
            fviews,
            sviews.take(0),
            interval_ms,
        ));
    }
    while i < n
        invariant
            0 <= i <= n,
            stat.deep_view() =~= spec_network_metric_entries(
                fviews,
                sviews.take(i as int),
                interval_ms,
            ),
        decreases n - i,
    {
        proof {
            assert(sviews[i as int] == second.stat@[i as int]@);
            assert(sviews.take(i + 1).drop_last() =~= sviews.take(i as int));
            assert(sviews.take(i + 1).last() == sviews[i as int]);
        }
        let entry = &second.stat[i];
        match find_network(&first.stat, entry.device.as_str()) {
            Some(ix) => {
                let f = &first.stat[ix];
                if f.rx <= entry.rx && f.tx <= entry.tx {
                    let ghost pre = stat.deep_view();
                    let row = network_metric_from_two_stats(interval_ms, f, entry);
                    let ghost rv = row@;
                    stat.push(row);
                    proof {
                        assert(stat.deep_view() =~= pre.push(rv));
                    }
                }
            },
            None => {},
        }
        proof {
            assert(stat.deep_view() =~= spec_network_metric_entries(
                fviews,
                sviews.take(i + 1),
                interval_ms,
            ));
        }
        i += 1;
    }
    proof {
        assert(sviews.take(n as int) =~= sviews);
    }
    NetworkMetric { timestamp_ms: second.timestamp_ms, stat }
}

} // verus!
