// The rate calculator: the generic two-sample delta logic shared by
// every counter-based source.  A pair of time-ordered samples from one
// source becomes a record of exact per-interval rates; counter resets
// are dropped, never reported as negative rates; a non-positive elapsed
// time is a defined error.

use vstd::prelude::*;

use crate::errors::MetricCollectionError;
use crate::metric::{MetricEntry, MetricEntryView, MetricRecord, MetricRecordView, MetricValue};
use crate::metric::record_has_key;
use crate::sample::{lookup_reading, sample_has_key, ReadingView, Sample, SampleView};

verus! {

/// Whether a reading of the newer sample yields a rate entry: its key
/// must be present in the older sample and must not have reset.
pub open spec fn rate_entry_kept(first: SampleView, r: ReadingView) -> bool {
    match lookup_reading(first.readings, r.name) {
        Some(v) => r.value >= v,
        None => false,
    }
}

/// The rate entry a kept reading of the newer sample yields.
pub open spec fn rate_entry_of(first: SampleView, r: ReadingView, interval_ms: u64) -> MetricEntryView
    recommends
        rate_entry_kept(first, r),
{
    MetricEntryView {
        name: r.name,
        value: MetricValue::Rate {
            delta: (r.value - lookup_reading(first.readings, r.name)->Some_0) as u64,
            interval_ms,
        },
    }
}

/// The entries derived from the newer sample's readings, in their order:
/// keys missing from the older sample and keys that reset are dropped.
pub open spec fn rate_entries(
    first: SampleView,
    rs: Seq<ReadingView>,
    interval_ms: u64,
) -> Seq<MetricEntryView>
    decreases rs.len(),
{
    if rs.len() == 0 {
        Seq::empty()
    } else {
        let prefix = rate_entries(first, rs.drop_last(), interval_ms);
        if rate_entry_kept(first, rs.last()) {
            prefix.push(rate_entry_of(first, rs.last(), interval_ms))
        } else {
            prefix
        }
    }
}

/// The record a valid pair of samples yields.
pub open spec fn rate_record(first: SampleView, second: SampleView) -> MetricRecordView
    recommends
        first.timestamp_ms < second.timestamp_ms,
{
    MetricRecordView {
        timestamp_ms: second.timestamp_ms,
        entries: rate_entries(
            first,
            second.readings,
            (second.timestamp_ms - first.timestamp_ms) as u64,
        ),
    }
}

/// Convert a pair of time-ordered samples from the same source into a
/// record of per-interval rates.
///
/// Fails with `InvalidInterval` exactly when the second sample is not
/// strictly later than the first; otherwise each counter key present in
/// both samples and not reset yields one exact rate entry, and keys
/// present in only one sample, or reset between the two, are omitted.
pub fn rate_from_pair(first: &Sample, second: &Sample) -> (r: Result<
    MetricRecord,
    MetricCollectionError,
>)
    ensures
        r is Ok <==> first@.timestamp_ms < second@.timestamp_ms,
        r matches Ok(m) ==> m@ == rate_record(first@, second@),
        r is Err ==> r matches Err(MetricCollectionError::InvalidInterval),
{
    if second.timestamp_ms <= first.timestamp_ms {
        return Err(MetricCollectionError::InvalidInterval);
    }
    let interval_ms: u64 = second.timestamp_ms - first.timestamp_ms;
    let n = second.readings.len();
    let mut entries: Vec<MetricEntry> = Vec::new();
    let mut i: usize = 0;
    while i < n
        invariant
            n == second.readings.len(),
            0 <= i <= n,
            interval_ms == second@.timestamp_ms - first@.timestamp_ms,
            entries.deep_view() =~= rate_entries(
                first@,
                second@.readings.take(i as int),
                interval_ms,
            ),
        decreases n - i,
    {
        let reading = &second.readings[i];
        proof {
            assert(second@.readings.take(i + 1).drop_last() =~= second@.readings.take(i as int));
            assert(second@.readings.take(i + 1).last() == second@.readings[i as int]);
        }
        match first.find_reading(reading.name.as_str()) {
            Some(v) => {
                if reading.value >= v {
                    entries.push(
                        MetricEntry {
                            name: reading.name.clone(),
                            value: MetricValue::Rate { delta: reading.value - v, interval_ms },
                        },
                    );
                }
            },
            None => {},
        }
        proof {
            assert(entries.deep_view() =~= rate_entries(
                first@,
                second@.readings.take(i + 1),
                interval_ms,
            ));
        }
        i += 1;
    }
    proof {
        assert(second@.readings.take(n as int) =~= second@.readings);
    }
    Ok(MetricRecord { timestamp_ms: second.timestamp_ms, entries })
}

/// The truncated per-second rate of a counter delta over an interval,
/// saturating at the type bound.
pub open spec fn spec_per_second(delta: u64, interval_ms: u64) -> u64
    recommends
        interval_ms > 0,
{
    if delta * 1000 / (interval_ms as int) > u64::MAX {
        u64::MAX
    } else {
        (delta * 1000 / (interval_ms as int)) as u64
    }
}

/// Compute the truncated per-second rate of a counter delta, for the
/// sources whose reported values are discrete units per second.
pub fn per_second_rate(delta: u64, interval_ms: u64) -> (r: u64)
    requires
        interval_ms > 0,
    ensures
        r == spec_per_second(delta, interval_ms),
{
    let scaled: u128 = (delta as u128) * 1000;
    let q: u128 = scaled / (interval_ms as u128);
    if q > u64::MAX as u128 {
        u64::MAX
    } else {
        q as u64
    }
}

/// Key mismatch law: the record derived from a pair holds a key exactly
/// when the newer sample has a reading with that key that the older
/// sample also knows and that did not reset.  In particular a key absent
/// from either sample never reaches the record.
pub proof fn lemma_rate_common_keys(first: SampleView, second: SampleView, name: Seq<char>)
    requires
        first.timestamp_ms < second.timestamp_ms,
    ensures
        record_has_key(rate_record(first, second), name) <==> exists|i: int|
            0 <= i < second.readings.len() && second.readings[i].name == name && rate_entry_kept(
                first,
                second.readings[i],
            ),
        !sample_has_key(first, name) ==> !record_has_key(rate_record(first, second), name),
        !sample_has_key(second, name) ==> !record_has_key(rate_record(first, second), name),
{
    let interval_ms = (second.timestamp_ms - first.timestamp_ms) as u64;
    lemma_rate_entries_keys(first, second.readings, interval_ms, name);
    crate::sample::lemma_lookup_some_iff(second.readings, name);
}

/// Every entry of the derived record is an exact, non-negative rate over
/// the pair's elapsed time: its delta is the difference of the two
/// samples' values for its key (counter resets never appear).
pub proof fn lemma_rate_entries_form(
    first: SampleView,
    rs: Seq<ReadingView>,
    interval_ms: u64,
)
    ensures
        forall|j: int| 0 <= j < rate_entries(first, rs, interval_ms).len()
            ==> exists|i: int|
                0 <= i < rs.len() && rate_entry_kept(first, rs[i]) && #[trigger] rate_entries(
                    first,
                    rs,
                    interval_ms,
                )[j] == rate_entry_of(first, rs[i], interval_ms),
    decreases rs.len(),
{
    if rs.len() > 0 {
        lemma_rate_entries_form(first, rs.drop_last(), interval_ms);
        let whole = rate_entries(first, rs, interval_ms);
        let prefix = rate_entries(first, rs.drop_last(), interval_ms);
        assert forall|j: int| 0 <= j < whole.len() implies exists|i: int|
            0 <= i < rs.len() && rate_entry_kept(first, rs[i]) && #[trigger] whole[j]
                == rate_entry_of(first, rs[i], interval_ms) by {
            if j < prefix.len() {
                let i = choose|i: int|
                    0 <= i < rs.drop_last().len() && rate_entry_kept(first, rs.drop_last()[i])
                        && prefix[j] == rate_entry_of(first, rs.drop_last()[i], interval_ms);
                assert(rs.drop_last()[i] == rs[i]);
                assert(whole[j] == rate_entry_of(first, rs[i], interval_ms));
            } else {
                assert(rate_entry_kept(first, rs.last()));
                assert(whole[j] == rate_entry_of(first, rs[rs.len() - 1], interval_ms));
            }
        }
    }
}

proof fn lemma_rate_entries_keys(
    first: SampleView,
    rs: Seq<ReadingView>,
    interval_ms: u64,
    name: Seq<char>,
)
    ensures
        (exists|j: int|
            0 <= j < rate_entries(first, rs, interval_ms).len() && rate_entries(
                first,
                rs,
                interval_ms,
            )[j].name == name) <==> exists|i: int|
            0 <= i < rs.len() && rs[i].name == name && rate_entry_kept(first, rs[i]),
    decreases rs.len(),
{
    if rs.len() > 0 {
        lemma_rate_entries_keys(first, rs.drop_last(), interval_ms, name);
        let whole = rate_entries(first, rs, interval_ms);
        let prefix = rate_entries(first, rs.drop_last(), interval_ms);
        if exists|j: int| 0 <= j < whole.len() && whole[j].name == name {
            let j = choose|j: int| 0 <= j < whole.len() && whole[j].name == name;
            if j < prefix.len() {
                assert(prefix[j].name == name);
                let i = choose|i: int|
                    0 <= i < rs.drop_last().len() && rs.drop_last()[i].name == name
                        && rate_entry_kept(first, rs.drop_last()[i]);
                assert(rs[i].name == name && rate_entry_kept(first, rs[i]));
            } else {
                assert(rate_entry_kept(first, rs.last()));
                assert(rs[rs.len() - 1].name == name && rate_entry_kept(
                    first,
                    rs[rs.len() - 1],
                ));
            }
        }
        if exists|i: int| 0 <= i < rs.len() && rs[i].name == name && rate_entry_kept(first, rs[i]) {
            let i = choose|i: int|
                0 <= i < rs.len() && rs[i].name == name && rate_entry_kept(first, rs[i]);
            if i < rs.len() - 1 {
                assert(rs.drop_last()[i].name == name && rate_entry_kept(
                    first,
                    rs.drop_last()[i],
                ));
                let j = choose|j: int| 0 <= j < prefix.len() && prefix[j].name == name;
                assert(whole[j].name == name);
            } else {
                assert(rate_entry_kept(first, rs.last()));
                assert(whole[whole.len() - 1].name == name);
            }
        }
    }
}

} // verus!
