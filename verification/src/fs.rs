// The filesystem source: parsing the disk-usage table (one header line,
// then one row per filesystem), dropping pseudo-filesystems, and keeping
// one row per filesystem name.  Usage is an absolute quantity, so its
// collector reports each sample directly.

use vstd::prelude::*;

use crate::sample::{str_eq, Reading, ReadingView, Sample};
use crate::text::{join_name, parse_u64, spec_lines, spec_parse_u64, spec_tokens, split_lines,
    split_whitespace};

verus! {

/// One filesystem's total and used size.
pub struct FilesystemUsageMetricEntry {
    pub filesystem: String,
    pub total: i64,
    pub used: i64,
}

/// The mathematical model of a `FilesystemUsageMetricEntry`.
pub ghost struct FilesystemUsageMetricEntryView {
    pub filesystem: Seq<char>,
    pub total: i64,
    pub used: i64,
}

impl View for FilesystemUsageMetricEntry {
    type V = FilesystemUsageMetricEntryView;

    open spec fn view(&self) -> FilesystemUsageMetricEntryView {
        FilesystemUsageMetricEntryView {
            filesystem: self.filesystem@,
            total: self.total,
            used: self.used,
        }
    }
}

impl DeepView for FilesystemUsageMetricEntry {
    type V = FilesystemUsageMetricEntryView;

    open spec fn deep_view(&self) -> FilesystemUsageMetricEntryView {
        self@
    }
}

/// A timestamped filesystem usage snapshot.
pub struct FilesystemUsageMetric {
    pub timestamp_ms: u64,
    pub stat: Vec<FilesystemUsageMetricEntry>,
}

impl crate::metric::Metric for FilesystemUsageMetric {

}

/// Whether a filesystem label names one of the pseudo-filesystems that
/// the report leaves out.
pub open spec fn spec_fs_excluded(name: Seq<char>) -> bool {
    name == "tmpfs"@ || name == "overlay"@ || name == "shm"@
}

/// The entry a tokenised usage row yields: label, total and used size;
/// excluded labels and unreadable rows yield nothing.
pub open spec fn spec_fs_entry(toks: Seq<Seq<char>>) -> Option<FilesystemUsageMetricEntryView> {
    if toks.len() >= 3 && !spec_fs_excluded(toks[0]) && spec_parse_u64(toks[1]) is Some
        && spec_parse_u64(toks[1])->Some_0 <= i64::MAX && spec_parse_u64(toks[2]) is Some
        && spec_parse_u64(toks[2])->Some_0 <= i64::MAX {
        Some(
            FilesystemUsageMetricEntryView {
                filesystem: toks[0],
                total: spec_parse_u64(toks[1])->Some_0 as i64,
                used: spec_parse_u64(toks[2])->Some_0 as i64,
            },
        )
    } else {
        None
    }
}

/// Extract one usage entry from a tokenised row.
pub fn fs_entry_of_tokens(tokens: &Vec<String>) -> (r: Option<FilesystemUsageMetricEntry>)
    ensures
        r is Some <==> spec_fs_entry(tokens.deep_view()) is Some,
        r matches Some(e) ==> e@ == spec_fs_entry(tokens.deep_view())->Some_0,
{
    proof {
        assert(tokens.deep_view().len() == tokens@.len());
    }
    if tokens.len() < 3 {
        return None;
    }
    proof {
        assert(tokens.deep_view()[0] == tokens@[0]@);
        assert(tokens.deep_view()[1] == tokens@[1]@);
        assert(tokens.deep_view()[2] == tokens@[2]@);
    }
    let name = tokens[0].as_str();
    if str_eq(name, "tmpfs") || str_eq(name, "overlay") || str_eq(name, "shm") {
        return None;
    }
    let total = match parse_u64(tokens[1].as_str()) {
        Some(v) => if v <= i64::MAX as u64 {
            v as i64
        } else {
            return None;
        },
        None => {
            return None;
        },
    };
    let used = match parse_u64(tokens[2].as_str()) {
        Some(v) => if v <= i64::MAX as u64 {
            v as i64
        } else {
            return None;
        },
        None => {
            return None;
        },
    };
    Some(FilesystemUsageMetricEntry { filesystem: tokens[0].clone(), total, used })
}

/// The usage entries of a sequence of rows.
pub open spec fn spec_fs_entries(lines: Seq<Seq<char>>) -> Seq<FilesystemUsageMetricEntryView>
    decreases lines.len(),
{
    if lines.len() == 0 {
        Seq::empty()
    } else {
        spec_fs_entries(lines.drop_last()) + match spec_fs_entry(spec_tokens(lines.last())) {
            Some(e) => seq![e],
            None => Seq::empty(),
        }
    }
}

/// Whether a filesystem name occurs among some entries.
pub open spec fn spec_contains_fs(
    es: Seq<FilesystemUsageMetricEntryView>,
    name: Seq<char>,
) -> bool {
    exists|j: int| 0 <= j < es.len() && es[j].filesystem == name
}

/// One entry per filesystem name: of duplicate labels the last row
/// wins, standing at its own position.
pub open spec fn spec_fs_dedup(
    es: Seq<FilesystemUsageMetricEntryView>,
) -> Seq<FilesystemUsageMetricEntryView>
    decreases es.len(),
{
    if es.len() == 0 {
        Seq::empty()
    } else if spec_contains_fs(es.drop_first(), es[0].filesystem) {
        spec_fs_dedup(es.drop_first())
    } else {
        seq![es[0]] + spec_fs_dedup(es.drop_first())
    }
}

/// What parsing the whole usage table yields: the header line skipped,
/// rows parsed, pseudo-filesystems dropped, duplicates collapsed.
pub open spec fn spec_parse_df(text: Seq<char>) -> Seq<FilesystemUsageMetricEntryView> {
    let ls = spec_lines(text);
    if ls.len() <= 1 {
        Seq::empty()
    } else {
        spec_fs_dedup(spec_fs_entries(ls.skip(1)))
    }
}

/// Whether any remaining entry carries this filesystem name.
#[verifier::loop_isolation(false)]
fn contains_fs(entries: &Vec<FilesystemUsageMetricEntry>, name: &str) -> (r: bool)
    ensures
        r == spec_contains_fs(entries.deep_view(), name@),
{
    let ghost views = entries.deep_view();
    let n = entries.len();
    let mut i: usize = 0;
    proof {
        assert(views.len() == entries@.len());
    }
    while i < n
        invariant
            0 <= i <= n,
            forall|j: int| 0 <= j < i ==> (#[trigger] views[j]).filesystem != name@,
        decreases n - i,
    {
        proof {
            assert(views[i as int] == entries@[i as int]@);
        }
        if str_eq(entries[i].filesystem.as_str(), name) {
            return true;
        }
        i += 1;
    }
    false
}

/// Parse the disk-usage table into one entry per filesystem.
#[verifier::loop_isolation(false)]
pub fn parse_df(text: &str) -> (r: Vec<FilesystemUsageMetricEntry>)
    ensures
        r.deep_view() == spec_parse_df(text@),
{
    let lines = split_lines(text);
    let ghost lviews = lines.deep_view();
    let n = lines.len();
    let mut entries: Vec<FilesystemUsageMetricEntry> = Vec::new();
    proof {
        assert(lviews.len() == lines@.len());
    }
    if n <= 1 {
        proof {
            assert(entries.deep_view() =~= spec_parse_df(text@));
        }
        return entries;
    }
    let ghost body = lviews.skip(1);
    let mut i: usize = 1;
    proof {
        assert(entries.deep_view() =~= spec_fs_entries(body.take(0)));
    }
    while i < n
        invariant
            1 <= i <= n,
            entries.deep_view() =~= spec_fs_entries(body.take(i - 1)),
        decreases n - i,
    {
        proof {
            assert(body[i - 1] == lviews[i as int]);
            assert(lviews[i as int] == lines@[i as int]@);
            assert(body.take(i as int).drop_last() =~= body.take(i - 1));
            assert(body.take(i as int).last() == body[i - 1]);
        }
        let tokens = split_whitespace(lines[i].as_str());
        let ghost pre = entries.deep_view();
        match fs_entry_of_tokens(&tokens) {
            Some(e) => {
                let ghost ev = e@;
                entries.push(e);
                proof {
                    assert(entries.deep_view() =~= pre.push(ev));
                }
            },
            None => {},
        }
        proof {
            assert(entries.deep_view() =~= spec_fs_entries(body.take(i as int)));
        }
        i += 1;
    }
    proof {
        assert(body.take(n - 1) =~= body);
    }
    let ghost parsed = entries.deep_view();
    let mut out: Vec<FilesystemUsageMetricEntry> = Vec::new();
    let total_entries = entries.len();
    let ghost m = total_entries as int;
    proof {
        assert(m == parsed.len());
    }
    let mut k: usize = 0;
    let mut entries = entries;
    proof {
        assert(entries.deep_view() =~= parsed.skip(0));
        assert(out.deep_view() + spec_fs_dedup(parsed.skip(0)) =~= spec_fs_dedup(parsed));
    }
    while entries.len() > 0
        invariant
            0 <= k <= m,
            m == parsed.len(),
            entries.deep_view() =~= parsed.skip(k as int),
            out.deep_view() + spec_fs_dedup(parsed.skip(k as int)) =~= spec_fs_dedup(parsed),
        decreases entries.len(),
    {
        let ghost prev_rows = entries@;
        proof {
            assert(entries.deep_view().len() == parsed.skip(k as int).len());
            assert(k < m);
            assert forall|j: int| 0 <= j < prev_rows.len() implies #[trigger] prev_rows[j]
                .deep_view() == parsed[k + j] by {
                assert(entries.deep_view()[j] == prev_rows[j].deep_view());
                assert(parsed.skip(k as int)[j] == parsed[k + j]);
            }
        }
        let e = entries.remove(0);
        proof {
            assert(e == prev_rows[0]);
            assert(prev_rows[0].deep_view() == parsed[k + 0]);
            assert(e@ == parsed[k as int]);
            assert forall|j: int| 0 <= j < entries.deep_view().len() implies entries
                .deep_view()[j] == parsed.skip(k + 1)[j] by {
                assert(entries.deep_view()[j] == entries@[j].deep_view());
                assert(entries@[j] == prev_rows[j + 1]);
                assert(parsed.skip(k + 1)[j] == parsed[k + 1 + j]);
            }
            assert(entries.deep_view() =~= parsed.skip(k + 1));
            assert(parsed.skip(k as int).drop_first() =~= parsed.skip(k + 1));
            assert(parsed.skip(k as int)[0] == parsed[k as int]);
        }
        if !contains_fs(&entries, e.filesystem.as_str()) {
            let ghost pre = out.deep_view();
            let ghost ev = e@;
            out.push(e);
            proof {
                assert(out.deep_view() =~= pre.push(ev));
                assert(out.deep_view() + spec_fs_dedup(parsed.skip(k + 1)) =~= spec_fs_dedup(
                    parsed,
                ));
            }
        } else {
            proof {
                assert(out.deep_view() + spec_fs_dedup(parsed.skip(k + 1)) =~= spec_fs_dedup(
                    parsed,
                ));
            }
        }
        k += 1;
    }
    proof {
        assert(parsed.skip(m as int) =~= Seq::<FilesystemUsageMetricEntryView>::empty());
        assert(out.deep_view() =~= spec_fs_dedup(parsed));
    }
    out
}

/// A size reported as a counter: negative sizes never occur and report
/// as zero.
pub open spec fn spec_fs_size(v: i64) -> u64 {
    if v >= 0 {
        v as u64
    } else {
        0
    }
}

/// The two flattened readings of one usage entry.
pub open spec fn spec_fs_entry_readings(e: FilesystemUsageMetricEntryView) -> Seq<ReadingView> {
    seq![
        ReadingView { name: e.filesystem + "."@ + "total"@, value: spec_fs_size(e.total) },
        ReadingView { name: e.filesystem + "."@ + "used"@, value: spec_fs_size(e.used) },
    ]
}

/// The flattened readings of a whole snapshot.
pub open spec fn spec_fs_readings(stat: Seq<FilesystemUsageMetricEntryView>) -> Seq<ReadingView>
    decreases stat.len(),
{
    if stat.len() == 0 {
        Seq::empty()
    } else {
        spec_fs_readings(stat.drop_last()) + spec_fs_entry_readings(stat.last())
    }
}

/// Turn a usage snapshot into a generic sample for a direct collector.
#[verifier::loop_isolation(false)]
pub fn fs_sample(m: &FilesystemUsageMetric) -> (r: Sample)
    ensures
        r@.timestamp_ms == m.timestamp_ms,
        r@.readings == spec_fs_readings(m.stat.deep_view()),
{
    let ghost views = m.stat.deep_view();
    let n = m.stat.len();
    let mut readings: Vec<Reading> = Vec::new();
    let mut i: usize = 0;
    proof {
        assert(views.len() == m.stat@.len());
        assert(readings.deep_view() =~= spec_fs_readings(views.take(0)));
    }
    while i < n
        invariant
            0 <= i <= n,
            readings.deep_view() =~= spec_fs_readings(views.take(i as int)),
        decreases n - i,
    {
        proof {
            assert(views[i as int] == m.stat@[i as int]@);
            assert(views.take(i + 1).drop_last() =~= views.take(i as int));
            assert(views.take(i + 1).last() == views[i as int]);
        }
        let entry = &m.stat[i];
        let total: u64 = if entry.total >= 0 {
            entry.total as u64
        } else {
            0
        };
        let used: u64 = if entry.used >= 0 {
            entry.used as u64
        } else {
            0
        };
        let ghost pre = readings.deep_view();
        let total_reading = Reading {
            name: join_name(entry.filesystem.as_str(), "total"),
            value: total,
        };
        let ghost rv0 = total_reading@;
        readings.push(total_reading);
        proof {
            assert(readings.deep_view() =~= pre.push(rv0));
        }
        let ghost pre1 = readings.deep_view();
        let used_reading = Reading {
            name: join_name(entry.filesystem.as_str(), "used"),
            value: used,
        };
        let ghost rv1 = used_reading@;
        readings.push(used_reading);
        proof {
            assert(readings.deep_view() =~= pre1.push(rv1));
            assert(readings.deep_view() =~= spec_fs_readings(views.take(i + 1)));
        }
        i += 1;
    }
    proof {
        assert(views.take(n as int) =~= views);
    }
    Sample { timestamp_ms: m.timestamp_ms, readings }
}

} // verus!
