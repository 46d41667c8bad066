// An in-memory model of the persistence adapter: an append-only table
// of metric rows with age-based pruning per source.  The real storage
// backend implements the same narrow interface (append, purge, ping);
// this model is what the framework's persistence behaviour is stated
// and proved against.

use vstd::prelude::*;

use crate::metric::{MetricRow, MetricRowView};

verus! {

/// The rows kept by a purge: a row survives exactly when it belongs to
/// another source or is not older than the cutoff.
pub open spec fn kept_rows(
    rows: Seq<MetricRowView>,
    source: Seq<char>,
    cutoff_ms: u64,
) -> Seq<MetricRowView>
    decreases rows.len(),
{
    if rows.len() == 0 {
        Seq::empty()
    } else {
        let prefix = kept_rows(rows.drop_last(), source, cutoff_ms);
        if rows.last().source != source || rows.last().timestamp_ms >= cutoff_ms {
            prefix.push(rows.last())
        } else {
            prefix
        }
    }
}

/// A store of persisted metric rows.
pub struct MetricStore {
    pub rows: Vec<MetricRow>,
}

impl View for MetricStore {
    type V = Seq<MetricRowView>;

    open spec fn view(&self) -> Seq<MetricRowView> {
        self.rows.deep_view()
    }
}

impl MetricStore {
    /// An empty store.
    pub fn new() -> (r: MetricStore)
        ensures
            r@ == Seq::<MetricRowView>::empty(),
    {
        let store = MetricStore { rows: Vec::new() };
        proof {
            assert(store@ =~= Seq::<MetricRowView>::empty());
        }
        store
    }

    /// How many rows are stored.
    pub fn len(&self) -> (r: usize)
        ensures
            r == self@.len(),
    {
        self.rows.len()
    }

    /// Append one row.
    pub fn append(&mut self, row: MetricRow)
        ensures
            final(self)@ == old(self)@.push(row@),
    {
        let ghost pre = self@;
        let ghost rv = row@;
        self.rows.push(row);
        proof {
            assert(self@ =~= pre.push(rv));
        }
    }

    /// Append a batch of rows in order.
    pub fn append_all(&mut self, rows: Vec<MetricRow>)
        ensures
            final(self)@ == old(self)@ + rows.deep_view(),
    {
        let ghost pre = self@;
        let ghost incoming = rows.deep_view();
        let mut rows = rows;
        let ghost n = rows.len() as int;
        let mut i: usize = 0;
        while rows.len() > 0
            invariant
                n == incoming.len(),
                n <= usize::MAX,
                0 <= i <= n,
                rows.deep_view() =~= incoming.skip(i as int),
                self@ =~= pre + incoming.take(i as int),
            decreases rows.len(),
        {
            let ghost prev_rows = rows@;
            proof {
                assert(rows.deep_view().len() == incoming.skip(i as int).len());
                assert(i < n);
                assert forall|k: int| 0 <= k < prev_rows.len() implies #[trigger] prev_rows[k]
                    .deep_view() == incoming[i + k] by {
                    assert(rows.deep_view()[k] == prev_rows[k].deep_view());
                    assert(incoming.skip(i as int)[k] == incoming[i + k]);
                }
            }
            let row = rows.remove(0);
            proof {
                assert(row == prev_rows[0]);
                assert(prev_rows[0].deep_view() == incoming[i + 0]);
                assert(row@ == incoming[i as int]);
            }
            self.append(row);
            proof {
                assert forall|j: int| 0 <= j < rows.deep_view().len() implies rows.deep_view()[j]
                    == incoming.skip(i + 1)[j] by {
                    assert(rows.deep_view()[j] == rows@[j].deep_view());
                    assert(rows@[j] == prev_rows[j + 1]);
                    assert(incoming.skip(i + 1)[j] == incoming[i + 1 + j]);
                }
                assert(rows.deep_view() =~= incoming.skip(i + 1));
                assert(self@ =~= pre + incoming.take(i + 1));
            }
            i += 1;
        }
        proof {
            assert(incoming.take(i as int) =~= incoming);
        }
    }

    /// Delete every row of `source` strictly older than `cutoff_ms`;
    /// rows of other sources, and rows within the retention window, stay,
    /// in their order.  Idempotent and safe when no row matches.
    pub fn purge_older_than(&mut self, source: &str, cutoff_ms: u64)
        ensures
            final(self)@ == kept_rows(old(self)@, source@, cutoff_ms),
    {
        let ghost orig = self@;
        let mut kept: Vec<MetricRow> = Vec::new();
        let ghost n = self.rows.len() as int;
        let mut i: usize = 0;
        while self.rows.len() > 0
            invariant
                n == orig.len(),
                n <= usize::MAX,
                0 <= i <= n,
                self.rows.deep_view() =~= orig.skip(i as int),
                kept.deep_view() =~= kept_rows(orig.take(i as int), source@, cutoff_ms),
            decreases self.rows.len(),
        {
            let ghost prev_rows = self.rows@;
            proof {
                assert(self.rows.deep_view().len() == orig.skip(i as int).len());
                assert(i < n);
                assert forall|k: int| 0 <= k < prev_rows.len() implies #[trigger] prev_rows[k]
                    .deep_view() == orig[i + k] by {
                    assert(self.rows.deep_view()[k] == prev_rows[k].deep_view());
                    assert(orig.skip(i as int)[k] == orig[i + k]);
                }
            }
            let row = self.rows.remove(0);
            proof {
                assert(row == prev_rows[0]);
                assert(prev_rows[0].deep_view() == orig[i + 0]);
                assert(row@ == orig[i as int]);
                assert(orig.take(i + 1).drop_last() =~= orig.take(i as int));
                assert(orig.take(i + 1).last() == orig[i as int]);
            }
            let other_source = !crate::sample::str_eq(row.source.as_str(), source);
            if other_source || row.timestamp_ms >= cutoff_ms {
                let ghost pre = kept.deep_view();
                let ghost rv = row@;
                kept.push(row);
                proof {
                    assert(kept.deep_view() =~= pre.push(rv));
                }
            }
            proof {
                assert forall|j: int| 0 <= j < self.rows.deep_view().len() implies self
                    .rows.deep_view()[j] == orig.skip(i + 1)[j] by {
                    assert(self.rows.deep_view()[j] == self.rows@[j].deep_view());
                    assert(self.rows@[j] == prev_rows[j + 1]);
                    assert(orig.skip(i + 1)[j] == orig[i + 1 + j]);
                }
                assert(self.rows.deep_view() =~= orig.skip(i + 1));
                assert(kept.deep_view() =~= kept_rows(orig.take(i + 1), source@, cutoff_ms));
            }
            i += 1;
        }
        proof {
            assert(orig.take(i as int) =~= orig);
        }
        self.rows = kept;
    }
}

/// Cleanup is idempotent: purging a second time with the same source
/// and cutoff changes nothing, and purging an empty store is safe.
pub proof fn lemma_purge_idempotent(rows: Seq<MetricRowView>, source: Seq<char>, cutoff_ms: u64)
    ensures
        kept_rows(kept_rows(rows, source, cutoff_ms), source, cutoff_ms) == kept_rows(
            rows,
            source,
            cutoff_ms,
        ),
    decreases rows.len(),
{
    if rows.len() > 0 {
        lemma_purge_idempotent(rows.drop_last(), source, cutoff_ms);
        let prefix = kept_rows(rows.drop_last(), source, cutoff_ms);
        if rows.last().source != source || rows.last().timestamp_ms >= cutoff_ms {
            let once = prefix.push(rows.last());
            assert(once.drop_last() =~= prefix);
            assert(once.last() == rows.last());
        }
    }
}

/// Retention law: after a purge for one source, a row is present exactly
/// when it was present before and either belongs to another source or is
/// no older than the cutoff.  A record persisted with a timestamp older
/// than the horizon is gone; one within the window remains.
pub proof fn lemma_purge_membership(
    rows: Seq<MetricRowView>,
    source: Seq<char>,
    cutoff_ms: u64,
    row: MetricRowView,
)
    ensures
        kept_rows(rows, source, cutoff_ms).contains(row) <==> rows.contains(row) && (row.source
            != source || row.timestamp_ms >= cutoff_ms),
    decreases rows.len(),
{
    if rows.len() > 0 {
        lemma_purge_membership(rows.drop_last(), source, cutoff_ms, row);
        let whole = kept_rows(rows, source, cutoff_ms);
        let prefix = kept_rows(rows.drop_last(), source, cutoff_ms);
        if rows.last().source != source || rows.last().timestamp_ms >= cutoff_ms {
            assert(whole == prefix.push(rows.last()));
            if whole.contains(row) {
                let j = choose|j: int| 0 <= j < whole.len() && whole[j] == row;
                if j < prefix.len() {
                    assert(prefix.contains(row));
                    assert(rows.drop_last().contains(row));
                    let k = choose|k: int|
                        0 <= k < rows.drop_last().len() && rows.drop_last()[k] == row;
                    assert(rows[k] == row);
                } else {
                    assert(row == rows.last());
                    assert(rows[rows.len() - 1] == row);
                }
            }
            if rows.contains(row) && (row.source != source || row.timestamp_ms >= cutoff_ms) {
                let k = choose|k: int| 0 <= k < rows.len() && rows[k] == row;
                if k < rows.len() - 1 {
                    assert(rows.drop_last()[k] == row);
                    assert(rows.drop_last().contains(row));
                    let j = choose|j: int| 0 <= j < prefix.len() && prefix[j] == row;
                    assert(whole[j] == row);
                } else {
                    assert(whole[whole.len() - 1] == row);
                }
            }
        } else {
            assert(whole == prefix);
            if rows.contains(row) && (row.source != source || row.timestamp_ms >= cutoff_ms) {
                let k = choose|k: int| 0 <= k < rows.len() && rows[k] == row;
                if k < rows.len() - 1 {
                    assert(rows.drop_last()[k] == row);
                    assert(rows.drop_last().contains(row));
                } else {
                    assert(row == rows.last());
                }
            }
            if whole.contains(row) {
                assert(rows.drop_last().contains(row));
                let k = choose|k: int|
                    0 <= k < rows.drop_last().len() && rows.drop_last()[k] == row;
                assert(rows[k] == row);
            }
        }
    }
}

} // verus!
