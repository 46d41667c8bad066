// Deriving per-container usage deltas: one runtime statistics response
// becomes a raw entry, and two timestamped snapshots become exact
// per-interval deltas, matched per container by name.

use vstd::prelude::*;

use crate::docker::client::{Container, ContainerStats, NetworkStat};
use crate::sample::str_eq;

verus! {

/// One container's raw counters at one instant: processor time in
/// microseconds of usage and host milliseconds, memory in bytes, and
/// network bytes summed over its attached networks.
pub struct InstantDockerContainerMetricEntry {
    pub name: String,
    pub state: String,
    pub cpu_usage: u64,
    pub system_cpu_usage: u64,
    pub memory_usage: u64,
    pub memory_cache: u64,
    pub network_tx: u64,
    pub network_rx: u64,
}

/// The mathematical model of an `InstantDockerContainerMetricEntry`.
pub ghost struct InstantDockerContainerMetricEntryView {
    pub name: Seq<char>,
    pub state: Seq<char>,
    pub cpu_usage: u64,
    pub system_cpu_usage: u64,
    pub memory_usage: u64,
    pub memory_cache: u64,
    pub network_tx: u64,
    pub network_rx: u64,
}

impl View for InstantDockerContainerMetricEntry {
    type V = InstantDockerContainerMetricEntryView;

    open spec fn view(&self) -> InstantDockerContainerMetricEntryView {
        InstantDockerContainerMetricEntryView {
            name: self.name@,
            state: self.state@,
            cpu_usage: self.cpu_usage,
            system_cpu_usage: self.system_cpu_usage,
            memory_usage: self.memory_usage,
            memory_cache: self.memory_cache,
            network_tx: self.network_tx,
            network_rx: self.network_rx,
        }
    }
}

impl DeepView for InstantDockerContainerMetricEntry {
    type V = InstantDockerContainerMetricEntryView;

    open spec fn deep_view(&self) -> InstantDockerContainerMetricEntryView {
        self@
    }
}

/// A timestamped raw snapshot over all listed containers.
pub struct InstantDockerContainerMetric {
    pub timestamp_ms: u64,
    pub stat: Vec<InstantDockerContainerMetricEntry>,
}

impl crate::metric::Metric for InstantDockerContainerMetric {

}

/// One container's derived row: exact counter deltas over the elapsed
/// interval, and its instantaneous memory quantities.
pub struct DockerContainerMetricEntry {
    pub name: String,
    pub state: String,
    pub cpu_delta: u64,
    pub system_cpu_delta: u64,
    pub interval_ms: u64,
    pub memory_usage: u64,
    pub memory_cache: u64,
    pub network_tx_delta: u64,
    pub network_rx_delta: u64,
}

/// The mathematical model of a `DockerContainerMetricEntry`.
pub ghost struct DockerContainerMetricEntryView {
    pub name: Seq<char>,
    pub state: Seq<char>,
    pub cpu_delta: u64,
    pub system_cpu_delta: u64,
    pub interval_ms: u64,
    pub memory_usage: u64,
    pub memory_cache: u64,
    pub network_tx_delta: u64,
    pub network_rx_delta: u64,
}

impl View for DockerContainerMetricEntry {
    type V = DockerContainerMetricEntryView;

    open spec fn view(&self) -> DockerContainerMetricEntryView {
        DockerContainerMetricEntryView {
            name: self.name@,
            state: self.state@,
            cpu_delta: self.cpu_delta,
            system_cpu_delta: self.system_cpu_delta,
            interval_ms: self.interval_ms,
            memory_usage: self.memory_usage,
            memory_cache: self.memory_cache,
            network_tx_delta: self.network_tx_delta,
            network_rx_delta: self.network_rx_delta,
        }
    }
}

impl DeepView for DockerContainerMetricEntry {
    type V = DockerContainerMetricEntryView;

    open spec fn deep_view(&self) -> DockerContainerMetricEntryView {
        self@
    }
}

/// A timestamped derived snapshot over all matched containers.
pub struct DockerContainerMetric {
    pub timestamp_ms: u64,
    pub stat: Vec<DockerContainerMetricEntry>,
}

/// The sum of the received-byte counters over a container's networks.
pub open spec fn spec_sum_rx(ns: Seq<NetworkStat>) -> int
    decreases ns.len(),
{
    if ns.len() == 0 {
        0
    } else {
        spec_sum_rx(ns.drop_last()) + ns.last().rx_bytes
    }
}

/// The sum of the transmitted-byte counters over a container's networks.
pub open spec fn spec_sum_tx(ns: Seq<NetworkStat>) -> int
    decreases ns.len(),
{
    if ns.len() == 0 {
        0
    } else {
        spec_sum_tx(ns.drop_last()) + ns.last().tx_bytes
    }
}

proof fn lemma_sums_bounded(ns: Seq<NetworkStat>)
    ensures
        0 <= spec_sum_rx(ns) <= ns.len() * (u64::MAX as int),
        0 <= spec_sum_tx(ns) <= ns.len() * (u64::MAX as int),
    decreases ns.len(),
{
    if ns.len() > 0 {
        lemma_sums_bounded(ns.drop_last());
    }
}

/// Turn one listed container and its statistics response into a raw
/// entry: the runtime's leading name separator is dropped, processor
/// times are scaled to coarser units, and the per-network byte counters
/// are summed (a sum beyond the counter width wraps).
#[verifier::loop_isolation(false)]
pub fn docker_entry_from_stats(container: &Container, stats: &ContainerStats) -> (r:
    InstantDockerContainerMetricEntry)
    ensures
        r@.name == if stats.name@.len() >= 1 {
            stats.name@.skip(1)
        } else {
            stats.name@
        },
        r@.state == container.state@,
        r@.cpu_usage == (stats.cpu_stats.cpu_usage.total_usage / 1000) as u64,
        r@.system_cpu_usage == (stats.cpu_stats.system_cpu_usage / 1000000) as u64,
        r@.memory_usage == stats.memory_stats.usage,
        r@.memory_cache == stats.memory_stats.stats.cache,
        spec_sum_tx(stats.networks@) <= u64::MAX ==> r@.network_tx == spec_sum_tx(
            stats.networks@,
        ),
        spec_sum_rx(stats.networks@) <= u64::MAX ==> r@.network_rx == spec_sum_rx(
            stats.networks@,
        ),
{
    let name_len = stats.name.as_str().unicode_len();
    let name = if name_len >= 1 {
        String::from_str(stats.name.as_str().substring_char(1, name_len))
    } else {
        stats.name.clone()
    };
    let n = stats.networks.len();
    let mut tx_acc: u128 = 0;
    let mut rx_acc: u128 = 0;
    let mut i: usize = 0;
    proof {
        assert(tx_acc == spec_sum_tx(stats.networks@.take(0)));
        assert(rx_acc == spec_sum_rx(stats.networks@.take(0)));
    }
    while i < n
        invariant
            0 <= i <= n,
            tx_acc == spec_sum_tx(stats.networks@.take(i as int)),
            rx_acc == spec_sum_rx(stats.networks@.take(i as int)),
        decreases n - i,
    {
        proof {
            assert(stats.networks@.take(i + 1).drop_last() =~= stats.networks@.take(i as int));
            assert(stats.networks@.take(i + 1).last() == stats.networks@[i as int]);
            lemma_sums_bounded(stats.networks@.take(i as int));
            assert((i as int) * (u64::MAX as int) <= (usize::MAX as int) * (u64::MAX as int))
                by (nonlinear_arith)
                requires
                    0 <= i <= usize::MAX,
            ;
        }
        let ns = stats.networks[i];
        tx_acc = tx_acc + ns.tx_bytes as u128;
        rx_acc = rx_acc + ns.rx_bytes as u128;
        i += 1;
    }
    proof {
        assert(stats.networks@.take(n as int) =~= stats.networks@);
        lemma_sums_bounded(stats.networks@);
    }
    let network_tx = #[verifier::truncate] (tx_acc as u64);
    let network_rx = #[verifier::truncate] (rx_acc as u64);
    InstantDockerContainerMetricEntry {
        name,
        state: container.state.clone(),
        cpu_usage: #[verifier::truncate] ((stats.cpu_stats.cpu_usage.total_usage / 1000)
            as u64),
        system_cpu_usage: #[verifier::truncate] ((stats.cpu_stats.system_cpu_usage / 1000000)
            as u64),
        memory_usage: stats.memory_stats.usage,
        memory_cache: stats.memory_stats.stats.cache,
        network_tx,
        network_rx,
    }
}

/// Whether a matched pair of entries yields a derived row: processor
/// usage must have advanced (the runtime's own filter) and no counter
/// may have fallen behind.
pub open spec fn docker_pair_kept(
    f: InstantDockerContainerMetricEntryView,
    s: InstantDockerContainerMetricEntryView,
) -> bool {
    f.cpu_usage < s.cpu_usage && f.system_cpu_usage <= s.system_cpu_usage && f.network_tx
        <= s.network_tx && f.network_rx <= s.network_rx
}

/// The derived row of one matched pair.
pub open spec fn spec_docker_rate_entry(
    f: InstantDockerContainerMetricEntryView,
    s: InstantDockerContainerMetricEntryView,
    interval_ms: u64,
) -> DockerContainerMetricEntryView
    recommends
        docker_pair_kept(f, s),
{
    DockerContainerMetricEntryView {
        name: s.name,
        state: s.state,
        cpu_delta: (s.cpu_usage - f.cpu_usage) as u64,
        system_cpu_delta: (s.system_cpu_usage - f.system_cpu_usage) as u64,
        interval_ms,
        memory_usage: s.memory_usage,
        memory_cache: s.memory_cache,
        network_tx_delta: (s.network_tx - f.network_tx) as u64,
        network_rx_delta: (s.network_rx - f.network_rx) as u64,
    }
}

/// The first entry of a snapshot for a given container name, if any.
pub open spec fn spec_find_container(
    stat: Seq<InstantDockerContainerMetricEntryView>,
    name: Seq<char>,
) -> Option<InstantDockerContainerMetricEntryView>
    decreases stat.len(),
{
    if stat.len() == 0 {
        None
    } else if stat[0].name == name {
        Some(stat[0])
    } else {
        spec_find_container(stat.drop_first(), name)
    }
}

/// The derived rows of a snapshot pair: each newer entry matched by
/// container name against the older snapshot; unmatched containers,
/// idle processors and reset counters are dropped.
pub open spec fn spec_docker_metric_entries(
    first_stat: Seq<InstantDockerContainerMetricEntryView>,
    second_stat: Seq<InstantDockerContainerMetricEntryView>,
    interval_ms: u64,
) -> Seq<DockerContainerMetricEntryView>
    decreases second_stat.len(),
{
    if second_stat.len() == 0 {
        Seq::empty()
    } else {
        spec_docker_metric_entries(first_stat, second_stat.drop_last(), interval_ms) + match
            spec_find_container(first_stat, second_stat.last().name) {
            Some(f) => if docker_pair_kept(f, second_stat.last()) {
                seq![spec_docker_rate_entry(f, second_stat.last(), interval_ms)]
            } else {
                Seq::empty()
            },
            None => Seq::empty(),
        }
    }
}

/// Convert one matched pair of container entries into exact deltas over
/// the elapsed interval.
pub fn docker_metric_entry_from_two_stats(
    interval_ms: u64,
    first: &InstantDockerContainerMetricEntry,
    second: &InstantDockerContainerMetricEntry,
) -> (r: DockerContainerMetricEntry)
    requires
        docker_pair_kept(first@, second@),
    ensures
        r@ == spec_docker_rate_entry(first@, second@, interval_ms),
{
    DockerContainerMetricEntry {
        name: second.name.clone(),
        state: second.state.clone(),
        cpu_delta: second.cpu_usage - first.cpu_usage,
        system_cpu_delta: second.system_cpu_usage - first.system_cpu_usage,
        interval_ms,
        memory_usage: second.memory_usage,
        memory_cache: second.memory_cache,
        network_tx_delta: second.network_tx - first.network_tx,
        network_rx_delta: second.network_rx - first.network_rx,
    }
}

/// Find the index of a container's entry in a snapshot.
#[verifier::loop_isolation(false)]
fn find_container(stat: &Vec<InstantDockerContainerMetricEntry>, name: &str) -> (r: Option<usize>)
    ensures
        r is Some <==> spec_find_container(stat.deep_view(), name@) is Some,
        r matches Some(ix) ==> 0 <= ix < stat@.len() && stat@[ix as int]@ == spec_find_container(
            stat.deep_view(),
            name@,
        )->Some_0,
{
    let ghost views = stat.deep_view();
    let n = stat.len();
    let mut i: usize = 0;
    proof {
        assert(views.len() == stat@.len());
        assert(views.skip(0) =~= views);
    }
    while i < n
        invariant
            0 <= i <= n,
            spec_find_container(views.skip(i as int), name@) == spec_find_container(views, name@),
        decreases n - i,
    {
        proof {
            assert(views[i as int] == stat@[i as int]@);
            assert(views.skip(i as int)[0] == views[i as int]);
            assert(views.skip(i as int).drop_first() =~= views.skip(i + 1));
        }
        if str_eq(stat[i].name.as_str(), name) {
            return Some(i);
        }
        i += 1;
    }
    None
}

/// Convert a pair of time-ordered container snapshots into exact
/// per-interval deltas, pairing entries by container name.
#[verifier::loop_isolation(false)]
pub fn docker_metric_from_stats(
    first: &InstantDockerContainerMetric,
    second: &InstantDockerContainerMetric,
) -> (r: DockerContainerMetric)
    requires
        first.timestamp_ms < second.timestamp_ms,
    ensures
        r.timestamp_ms == second.timestamp_ms,
        r.stat.deep_view() == spec_docker_metric_entries(
            first.stat.deep_view(),
            second.stat.deep_view(),
            (second.timestamp_ms - first.timestamp_ms) as u64,
        ),
{
    let interval_ms: u64 = second.timestamp_ms - first.timestamp_ms;
    let ghost fviews = first.stat.deep_view();
    let ghost sviews = second.stat.deep_view();
    let n = second.stat.len();
    let mut stat: Vec<DockerContainerMetricEntry> = Vec::new();
    let mut i: usize = 0;
    proof {
        assert(sviews.len() == second.stat@.len());
        assert(stat.deep_view() =~= spec_docker_metric_entries(
            fviews,
            sviews.take(0),
            interval_ms,
        ));
    }
    while i < n
        invariant
            0 <= i <= n,
            stat.deep_view() =~= spec_docker_metric_entries(
                fviews,
                sviews.take(i as int),
                interval_ms,
            ),
        decreases n - i,
    {
        proof {
            assert(sviews[i as int] == second.stat@[i as int]@);
            assert(sviews.take(i + 1).drop_last() =~= sviews.take(i as int));
            assert(sviews.take(i + 1).last() == sviews[i as int]);
        }
        let entry = &second.stat[i];
        match find_container(&first.stat, entry.name.as_str()) {
            Some(ix) => {
                let f = &first.stat[ix];
                if f.cpu_usage < entry.cpu_usage && f.system_cpu_usage <= entry.system_cpu_usage
                    && f.network_tx <= entry.network_tx && f.network_rx <= entry.network_rx {
                    let ghost pre = stat.deep_view();
                    let row = docker_metric_entry_from_two_stats(interval_ms, f, entry);
                    let ghost rv = row@;
                    stat.push(row);
                    proof {
                        assert(stat.deep_view() =~= pre.push(rv));
                    }
                }
            },
            None => {},
        }
        proof {
            assert(stat.deep_view() =~= spec_docker_metric_entries(
                fviews,
                sviews.take(i + 1),
                interval_ms,
            ));
        }
        i += 1;
    }
    proof {
        assert(sviews.take(n as int) =~= sviews);
    }
    DockerContainerMetric { timestamp_ms: second.timestamp_ms, stat }
}

} // verus!
