// The CPU source: parsing per-CPU cumulative tick counters out of the
// kernel's stat text, turning an entry pair into truncated per-second
// rates, and flattening a snapshot into a generic sample.

use vstd::prelude::*;

use crate::encode::dec_digits;
use crate::encode::u64_to_string;
use crate::rate::{per_second_rate, spec_per_second};
use crate::sample::{Reading, ReadingView, Sample};
use crate::text::{join_name, parse_u16, parse_u64, spec_lines, spec_parse_u16, spec_parse_u64,
    spec_tokens, split_lines, split_whitespace};

verus! {

/// One per-CPU snapshot of the kernel's cumulative tick counters.
#[derive(Clone, Copy, PartialEq, Eq, Structural, Debug)]
pub struct InstantCPUMetricEntry {
    pub cpu: u16,
    pub user: u64,
    pub nice: u64,
    pub system: u64,
    pub idle: u64,
    pub iowait: u64,
    pub irq: u64,
    pub softirq: u64,
    pub guest: u64,
    pub steal: u64,
    pub guest_nice: u64,
}

/// One per-CPU row of derived per-second rates.
#[derive(Clone, Copy, PartialEq, Eq, Structural, Debug)]
pub struct CPUMetricEntry {
    pub cpu: u16,
    pub user: u64,
    pub nice: u64,
    pub system: u64,
    pub idle: u64,
    pub iowait: u64,
    pub irq: u64,
    pub softirq: u64,
    pub guest: u64,
    pub steal: u64,
    pub guest_nice: u64,
}

/// A timestamped raw CPU snapshot.
pub struct InstantCPUMetric {
    pub timestamp_ms: u64,
    pub stat: Vec<InstantCPUMetricEntry>,
}

/// A timestamped derived CPU record.
pub struct CPUMetric {
    pub timestamp_ms: u64,
    pub stat: Vec<CPUMetricEntry>,
}

impl crate::metric::Metric for InstantCPUMetric {

}

/// Whether a tokenised line is one per-CPU counter row: eleven fields
/// whose first is `cpu` followed by the CPU number.
pub open spec fn spec_is_cpu_line(toks: Seq<Seq<char>>) -> bool {
    toks.len() == 11 && toks[0].len() > 3 && toks[0][0] == 'c' && toks[0][1] == 'p'
        && toks[0][2] == 'u'
}

/// Executable test matching `spec_is_cpu_line`.
pub fn is_cpu_line(tokens: &Vec<String>) -> (r: bool)
    ensures
        r == spec_is_cpu_line(tokens.deep_view()),
{
    proof {
        assert(tokens.deep_view().len() == tokens@.len());
    }
    if tokens.len() != 11 {
        return false;
    }
    proof {
        assert(tokens.deep_view()[0] == tokens@[0]@);
    }
    let t0 = tokens[0].as_str();
    let l = t0.unicode_len();
    if l <= 3 {
        return false;
    }
    t0.get_char(0) == 'c' && t0.get_char(1) == 'p' && t0.get_char(2) == 'u'
}

/// The entry a tokenised line yields: every counter parsed, or nothing
/// for any other line.
pub open spec fn spec_cpu_entry(toks: Seq<Seq<char>>) -> Option<InstantCPUMetricEntry> {
    if spec_is_cpu_line(toks) && spec_parse_u16(toks[0].skip(3)) is Some && spec_parse_u64(
        toks[1],
    ) is Some && spec_parse_u64(toks[2]) is Some && spec_parse_u64(toks[3]) is Some
        && spec_parse_u64(toks[4]) is Some && spec_parse_u64(toks[5]) is Some && spec_parse_u64(
        toks[6],
    ) is Some && spec_parse_u64(toks[7]) is Some && spec_parse_u64(toks[8]) is Some
        && spec_parse_u64(toks[9]) is Some && spec_parse_u64(toks[10]) is Some {
        Some(
            InstantCPUMetricEntry {
                cpu: spec_parse_u16(toks[0].skip(3))->Some_0,
                user: spec_parse_u64(toks[1])->Some_0,
                nice: spec_parse_u64(toks[2])->Some_0,
                system: spec_parse_u64(toks[3])->Some_0,
                idle: spec_parse_u64(toks[4])->Some_0,
                iowait: spec_parse_u64(toks[5])->Some_0,
                irq: spec_parse_u64(toks[6])->Some_0,
                softirq: spec_parse_u64(toks[7])->Some_0,
                guest: spec_parse_u64(toks[8])->Some_0,
                steal: spec_parse_u64(toks[9])->Some_0,
                guest_nice: spec_parse_u64(toks[10])->Some_0,
            },
        )
    } else {
        None
    }
}

/// Extract one per-CPU entry from a tokenised line.
pub fn cpu_entry_of_tokens(tokens: &Vec<String>) -> (r: Option<InstantCPUMetricEntry>)
    ensures
        r == spec_cpu_entry(tokens.deep_view()),
{
    if !is_cpu_line(tokens) {
        return None;
    }
    proof {
        assert(tokens.deep_view()[0] == tokens@[0]@);
        assert(tokens.deep_view()[1] == tokens@[1]@);
        assert(tokens.deep_view()[2] == tokens@[2]@);
        assert(tokens.deep_view()[3] == tokens@[3]@);
        assert(tokens.deep_view()[4] == tokens@[4]@);
        assert(tokens.deep_view()[5] == tokens@[5]@);
        assert(tokens.deep_view()[6] == tokens@[6]@);
        assert(tokens.deep_view()[7] == tokens@[7]@);
        assert(tokens.deep_view()[8] == tokens@[8]@);
        assert(tokens.deep_view()[9] == tokens@[9]@);
        assert(tokens.deep_view()[10] == tokens@[10]@);
    }
    let t0 = tokens[0].as_str();
    let l = t0.unicode_len();
    let cpu_str = t0.substring_char(3, l);
    proof {
        assert(cpu_str@ =~= tokens.deep_view()[0].skip(3));
    }
    let cpu = match parse_u16(cpu_str) {
        Some(v) => v,
        None => {
            return None;
        },
    };
    let user = match parse_u64(tokens[1].as_str()) {
        Some(v) => v,
        None => {
            return None;
        },
    };
    let nice = match parse_u64(tokens[2].as_str()) {
        Some(v) => v,
        None => {
            return None;
        },
    };
    let system = match parse_u64(tokens[3].as_str()) {
        Some(v) => v,
        None => {
            return None;
        },
    };
    let idle = match parse_u64(tokens[4].as_str()) {
        Some(v) => v,
        None => {
            return None;
        },
    };
    let iowait = match parse_u64(tokens[5].as_str()) {
        Some(v) => v,
        None => {
            return None;
        },
    };
    let irq = match parse_u64(tokens[6].as_str()) {
        Some(v) => v,
        None => {
            return None;
        },
    };
    let softirq = match parse_u64(tokens[7].as_str()) {
        Some(v) => v,
        None => {
            return None;
        },
    };
    let guest = match parse_u64(tokens[8].as_str()) {
        Some(v) => v,
        None => {
            return None;
        },
    };
    let steal = match parse_u64(tokens[9].as_str()) {
        Some(v) => v,
        None => {
            return None;
        },
    };
    let guest_nice = match parse_u64(tokens[10].as_str()) {
        Some(v) => v,
        None => {
            return None;
        },
    };
    Some(
        InstantCPUMetricEntry {
            cpu,
            user,
            nice,
            system,
            idle,
            iowait,
            irq,
            softirq,
            guest,
            steal,
            guest_nice,
        },
    )
}

/// The per-CPU entries of the kernel stat text, line by line: rows that
/// are not per-CPU counter rows, and rows that fail to parse, are
/// dropped.
pub open spec fn spec_cpu_entries(lines: Seq<Seq<char>>) -> Seq<InstantCPUMetricEntry>
    decreases lines.len(),
{
    if lines.len() == 0 {
        Seq::empty()
    } else {
        spec_cpu_entries(lines.drop_last()) + match spec_cpu_entry(spec_tokens(lines.last())) {
            Some(e) => seq![e],
            None => Seq::empty(),
        }
    }
}

/// What parsing the whole stat text yields.
pub open spec fn spec_parse_proc_stat(text: Seq<char>) -> Seq<InstantCPUMetricEntry> {
    spec_cpu_entries(spec_lines(text))
}

/// Parse the kernel's stat text into its per-CPU counter entries.
#[verifier::loop_isolation(false)]
pub fn parse_proc_stat(text: &str) -> (r: Vec<InstantCPUMetricEntry>)
    ensures
        r@ == spec_parse_proc_stat(text@),
{
    let lines = split_lines(text);
    let ghost lviews = lines.deep_view();
    let n = lines.len();
    let mut out: Vec<InstantCPUMetricEntry> = Vec::new();
    let mut i: usize = 0;
    proof {
        assert(lviews.len() == lines@.len());
        assert(out@ =~= spec_cpu_entries(lviews.take(0)));
    }
    while i < n
        invariant
            0 <= i <= n,
            out@ =~= spec_cpu_entries(lviews.take(i as int)),
        decreases n - i,
    {
        proof {
            assert(lviews[i as int] == lines@[i as int]@);
            assert(lviews.take(i + 1).drop_last() =~= lviews.take(i as int));
            assert(lviews.take(i + 1).last() == lviews[i as int]);
        }
        let tokens = split_whitespace(lines[i].as_str());
        match cpu_entry_of_tokens(&tokens) {
            Some(e) => {
                out.push(e);
            },
            None => {},
        }
        proof {
            assert(out@ =~= spec_cpu_entries(lviews.take(i + 1)));
        }
        i += 1;
    }
    proof {
        assert(lviews.take(n as int) =~= lviews);
    }
    out
}

/// The name of one flattened CPU counter: the CPU label and the field.
pub open spec fn spec_cpu_field_name(cpu: u16, field: Seq<char>) -> Seq<char> {
    "cpu"@ + dec_digits(cpu as int) + "."@ + field
}

/// The ten flattened readings of one per-CPU entry.
pub open spec fn spec_cpu_entry_readings(e: InstantCPUMetricEntry) -> Seq<ReadingView> {
    seq![
        ReadingView { name: spec_cpu_field_name(e.cpu, "user"@), value: e.user },
        ReadingView { name: spec_cpu_field_name(e.cpu, "nice"@), value: e.nice },
        ReadingView { name: spec_cpu_field_name(e.cpu, "system"@), value: e.system },
        ReadingView { name: spec_cpu_field_name(e.cpu, "idle"@), value: e.idle },
        ReadingView { name: spec_cpu_field_name(e.cpu, "iowait"@), value: e.iowait },
        ReadingView { name: spec_cpu_field_name(e.cpu, "irq"@), value: e.irq },
        ReadingView { name: spec_cpu_field_name(e.cpu, "softirq"@), value: e.softirq },
        ReadingView { name: spec_cpu_field_name(e.cpu, "guest"@), value: e.guest },
        ReadingView { name: spec_cpu_field_name(e.cpu, "steal"@), value: e.steal },
        ReadingView { name: spec_cpu_field_name(e.cpu, "guest_nice"@), value: e.guest_nice },
    ]
}

/// Flatten one per-CPU entry into named readings.
pub fn cpu_entry_readings(e: &InstantCPUMetricEntry) -> (r: Vec<Reading>)
    ensures
        r.deep_view() == spec_cpu_entry_readings(*e),
{
    let mut label = String::from_str("cpu");
    let num = u64_to_string(e.cpu as u64);
    label.append(num.as_str());
    proof {
        assert(label@ == "cpu"@ + dec_digits(e.cpu as int));
    }
    let mut out: Vec<Reading> = Vec::new();
    out.push(Reading { name: join_name(label.as_str(), "user"), value: e.user });
    out.push(Reading { name: join_name(label.as_str(), "nice"), value: e.nice });
    out.push(Reading { name: join_name(label.as_str(), "system"), value: e.system });
    out.push(Reading { name: join_name(label.as_str(), "idle"), value: e.idle });
    out.push(Reading { name: join_name(label.as_str(), "iowait"), value: e.iowait });
    out.push(Reading { name: join_name(label.as_str(), "irq"), value: e.irq });
    out.push(Reading { name: join_name(label.as_str(), "softirq"), value: e.softirq });
    out.push(Reading { name: join_name(label.as_str(), "guest"), value: e.guest });
    out.push(Reading { name: join_name(label.as_str(), "steal"), value: e.steal });
    out.push(Reading { name: join_name(label.as_str(), "guest_nice"), value: e.guest_nice });
    proof {
        assert(out.deep_view() =~= spec_cpu_entry_readings(*e));
    }
    out
}

/// The flattened readings of a whole snapshot, entry after entry.
pub open spec fn spec_cpu_readings(stat: Seq<InstantCPUMetricEntry>) -> Seq<ReadingView>
    decreases stat.len(),
{
    if stat.len() == 0 {
        Seq::empty()
    } else {
        spec_cpu_readings(stat.drop_last()) + spec_cpu_entry_readings(stat.last())
    }
}

/// Flatten a raw CPU snapshot into a generic sample.
#[verifier::loop_isolation(false)]
pub fn cpu_sample(m: &InstantCPUMetric) -> (r: Sample)
    ensures
        r@.timestamp_ms == m.timestamp_ms,
        r@.readings == spec_cpu_readings(m.stat@),
{
    let n = m.stat.len();
    let mut readings: Vec<Reading> = Vec::new();
    let mut i: usize = 0;
    proof {
        assert(readings.deep_view() =~= spec_cpu_readings(m.stat@.take(0)));
    }
    while i < n
        invariant
            0 <= i <= n,
            readings.deep_view() =~= spec_cpu_readings(m.stat@.take(i as int)),
        decreases n - i,
    {
        proof {
            assert(m.stat@.take(i + 1).drop_last() =~= m.stat@.take(i as int));
            assert(m.stat@.take(i + 1).last() == m.stat@[i as int]);
        }
        let ghost pre = readings.deep_view();
        let mut piece = cpu_entry_readings(&m.stat[i]);
        let ghost piece_view = piece.deep_view();
        readings.append(&mut piece);
        proof {
            assert forall|j: int| 0 <= j < readings.deep_view().len() implies readings
                .deep_view()[j] == (pre + piece_view)[j] by {
                assert(readings.deep_view()[j] == readings@[j].deep_view());
                if j < pre.len() {
                    assert(readings@[j].deep_view() == pre[j]);
                } else {
                    assert(readings@[j].deep_view() == piece_view[j - pre.len()]);
                }
            }
            assert(readings.deep_view() =~= pre + piece_view);
            assert(readings.deep_view() =~= spec_cpu_readings(m.stat@.take(i + 1)));
        }
        i += 1;
    }
    proof {
        assert(m.stat@.take(n as int) =~= m.stat@);
    }
    Sample { timestamp_ms: m.timestamp_ms, readings }
}

/// Whether no counter of the newer entry fell behind the older one.
pub open spec fn cpu_monotone(f: InstantCPUMetricEntry, s: InstantCPUMetricEntry) -> bool {
    f.user <= s.user && f.nice <= s.nice && f.system <= s.system && f.idle <= s.idle && f.iowait
        <= s.iowait && f.irq <= s.irq && f.softirq <= s.softirq && f.guest <= s.guest && f.steal
        <= s.steal && f.guest_nice <= s.guest_nice
}

/// The first entry of a snapshot for a given CPU, if any.
pub open spec fn spec_find_cpu(
    stat: Seq<InstantCPUMetricEntry>,
    cpu: u16,
) -> Option<InstantCPUMetricEntry>
    decreases stat.len(),
{
    if stat.len() == 0 {
        None
    } else if stat[0].cpu == cpu {
        Some(stat[0])
    } else {
        spec_find_cpu(stat.drop_first(), cpu)
    }
}

/// The derived row of one matched entry pair.
pub open spec fn spec_cpu_rate_entry(
    f: InstantCPUMetricEntry,
    s: InstantCPUMetricEntry,
    interval_ms: u64,
) -> CPUMetricEntry
    recommends
        cpu_monotone(f, s),
        interval_ms > 0,
{
    CPUMetricEntry {
        cpu: s.cpu,
        user: spec_per_second((s.user - f.user) as u64, interval_ms),
        nice: spec_per_second((s.nice - f.nice) as u64, interval_ms),
        system: spec_per_second((s.system - f.system) as u64, interval_ms),
        idle: spec_per_second((s.idle - f.idle) as u64, interval_ms),
        iowait: spec_per_second((s.iowait - f.iowait) as u64, interval_ms),
        irq: spec_per_second((s.irq - f.irq) as u64, interval_ms),
        softirq: spec_per_second((s.softirq - f.softirq) as u64, interval_ms),
        guest: spec_per_second((s.guest - f.guest) as u64, interval_ms),
        steal: spec_per_second((s.steal - f.steal) as u64, interval_ms),
        guest_nice: spec_per_second((s.guest_nice - f.guest_nice) as u64, interval_ms),
    }
}

/// The derived rows of a snapshot pair: each newer entry matched by CPU
/// number against the older snapshot; unmatched CPUs and reset counters
/// are dropped.
pub open spec fn spec_cpu_metric_entries(
    first_stat: Seq<InstantCPUMetricEntry>,
    second_stat: Seq<InstantCPUMetricEntry>,
    interval_ms: u64,
) -> Seq<CPUMetricEntry>
    decreases second_stat.len(),
{
    if second_stat.len() == 0 {
        Seq::empty()
    } else {
        spec_cpu_metric_entries(first_stat, second_stat.drop_last(), interval_ms) + match
            spec_find_cpu(first_stat, second_stat.last().cpu) {
            Some(f) => if cpu_monotone(f, second_stat.last()) {
                seq![spec_cpu_rate_entry(f, second_stat.last(), interval_ms)]
            } else {
                Seq::empty()
            },
            None => Seq::empty(),
        }
    }
}

/// Find the entry of a given CPU in a snapshot.
#[verifier::loop_isolation(false)]
pub fn find_cpu(stat: &Vec<InstantCPUMetricEntry>, cpu: u16) -> (r: Option<
    InstantCPUMetricEntry,
>)
    ensures
        r == spec_find_cpu(stat@, cpu),
{
    let n = stat.len();
    let mut i: usize = 0;
    proof {
        assert(stat@.skip(0) =~= stat@);
    }
    while i < n
        invariant
            0 <= i <= n,
            spec_find_cpu(stat@.skip(i as int), cpu) == spec_find_cpu(stat@, cpu),
        decreases n - i,
    {
        proof {
            assert(stat@.skip(i as int)[0] == stat@[i as int]);
            assert(stat@.skip(i as int).drop_first() =~= stat@.skip(i + 1));
        }
        if stat[i].cpu == cpu {
            return Some(stat[i]);
        }
        i += 1;
    }
    None
}

/// Convert one matched pair of per-CPU entries into per-second rates
/// over the elapsed interval, truncated to whole units: tick counts are
/// discrete quantities.
pub fn cpu_metric_entry_from_two_stats(
    interval_ms: u64,
    first: InstantCPUMetricEntry,
    second: InstantCPUMetricEntry,
) -> (r: CPUMetricEntry)
    requires
        interval_ms > 0,
        cpu_monotone(first, second),
    ensures
        r == spec_cpu_rate_entry(first, second, interval_ms),
{
    CPUMetricEntry {
        cpu: second.cpu,
        user: per_second_rate(second.user - first.user, interval_ms),
        nice: per_second_rate(second.nice - first.nice, interval_ms),
        system: per_second_rate(second.system - first.system, interval_ms),
        idle: per_second_rate(second.idle - first.idle, interval_ms),
        iowait: per_second_rate(second.iowait - first.iowait, interval_ms),
        irq: per_second_rate(second.irq - first.irq, interval_ms),
        softirq: per_second_rate(second.softirq - first.softirq, interval_ms),
        guest: per_second_rate(second.guest - first.guest, interval_ms),
        steal: per_second_rate(second.steal - first.steal, interval_ms),
        guest_nice: per_second_rate(second.guest_nice - first.guest_nice, interval_ms),
    }
}

/// Convert a pair of time-ordered CPU snapshots into per-second rates,
/// pairing entries by CPU number.
#[verifier::loop_isolation(false)]
pub fn cpu_metric_from_stats(first: &InstantCPUMetric, second: &InstantCPUMetric) -> (r: CPUMetric)
    requires
        first.timestamp_ms < second.timestamp_ms,
    ensures
        r.timestamp_ms == second.timestamp_ms,
        r.stat@ == spec_cpu_metric_entries(
            first.stat@,
            second.stat@,
            (second.timestamp_ms - first.timestamp_ms) as u64,
        ),
{
    let interval_ms: u64 = second.timestamp_ms - first.timestamp_ms;
    let n = second.stat.len();
    let mut stat: Vec<CPUMetricEntry> = Vec::new();
    let mut i: usize = 0;
    proof {
        assert(stat@ =~= spec_cpu_metric_entries(first.stat@, second.stat@.take(0), interval_ms));
    }
    while i < n
        invariant
            0 <= i <= n,
            stat@ =~= spec_cpu_metric_entries(
                first.stat@,
                second.stat@.take(i as int),
                interval_ms,
            ),
        decreases n - i,
    {
        proof {
            assert(second.stat@.take(i + 1).drop_last() =~= second.stat@.take(i as int));
            assert(second.stat@.take(i + 1).last() == second.stat@[i as int]);
        }
        let entry = second.stat[i];
        match find_cpu(&first.stat, entry.cpu) {
            Some(f) => {
                let monotone = f.user <= entry.user && f.nice <= entry.nice && f.system
                    <= entry.system && f.idle <= entry.idle && f.iowait <= entry.iowait && f.irq
                    <= entry.irq && f.softirq <= entry.softirq && f.guest <= entry.guest && f.steal
                    <= entry.steal && f.guest_nice <= entry.guest_nice;
                if monotone {
                    stat.push(cpu_metric_entry_from_two_stats(interval_ms, f, entry));
                }
            },
            None => {},
        }
        proof {
            assert(stat@ =~= spec_cpu_metric_entries(
                first.stat@,
                second.stat@.take(i + 1),
                interval_ms,
            ));
        }
        i += 1;
    }
    proof {
        assert(second.stat@.take(n as int) =~= second.stat@);
    }
    CPUMetric { timestamp_ms: second.timestamp_ms, stat }
}

} // verus!
