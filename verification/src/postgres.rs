// The database-internals source: tuple-throughput counters differenced
// between two statistics snapshots, and per-table size rows reported as
// they stand.  An optional source, configured by naming the database to
// monitor; the queries themselves live with the storage adapter.

use vstd::prelude::*;

verus! {

/// One snapshot of the cumulative tuple-throughput counters, as the
/// database server reports them.
#[derive(Clone, Copy, PartialEq, Eq, Structural, Debug)]
pub struct DatabaseStat {
    pub tup_returned: i32,
    pub tup_fetched: i32,
    pub tup_inserted: i32,
    pub tup_updated: i32,
    pub tup_deleted: i32,
}

/// The per-interval deltas of the tuple-throughput counters.
#[derive(Clone, Copy, PartialEq, Eq, Structural, Debug)]
pub struct DatabaseMetric {
    pub tup_returned: i32,
    pub tup_fetched: i32,
    pub tup_inserted: i32,
    pub tup_updated: i32,
    pub tup_deleted: i32,
}

/// One table's estimated row count and total size.
pub struct TableStat {
    pub table: String,
    pub rows: i64,
    pub total_bytes: i64,
}

/// The mathematical model of a `TableStat`.
pub ghost struct TableStatView {
    pub table: Seq<char>,
    pub rows: i64,
    pub total_bytes: i64,
}

impl View for TableStat {
    type V = TableStatView;

    open spec fn view(&self) -> TableStatView {
        TableStatView { table: self.table@, rows: self.rows, total_bytes: self.total_bytes }
    }
}

impl DeepView for TableStat {
    type V = TableStatView;

    open spec fn deep_view(&self) -> TableStatView {
        self@
    }
}

/// One table's reported row: the estimate narrowed to the stored width.
pub struct TableMetric {
    pub table: String,
    pub rows: i32,
    pub total_bytes: i64,
}

/// The mathematical model of a `TableMetric`.
pub ghost struct TableMetricView {
    pub table: Seq<char>,
    pub rows: i32,
    pub total_bytes: i64,
}

impl View for TableMetric {
    type V = TableMetricView;

    open spec fn view(&self) -> TableMetricView {
        TableMetricView { table: self.table@, rows: self.rows, total_bytes: self.total_bytes }
    }
}

impl DeepView for TableMetric {
    type V = TableMetricView;

    open spec fn deep_view(&self) -> TableMetricView {
        self@
    }
}

/// A timestamped raw statistics snapshot.
pub struct InstantPostgresMetric {
    pub timestamp_ms: u64,
    pub database_stat: DatabaseStat,
    pub table_stat: Vec<TableStat>,
}

impl crate::metric::Metric for InstantPostgresMetric {

}

/// A timestamped derived statistics record.
pub struct PostgresMetric {
    pub timestamp_ms: u64,
    pub database_metric: DatabaseMetric,
    pub table_metrics: Vec<TableMetric>,
}

/// The rate calculator's precondition for these counters: non-negative
/// and non-decreasing between the two snapshots.
pub open spec fn db_monotone(f: DatabaseStat, s: DatabaseStat) -> bool {
    0 <= f.tup_returned <= s.tup_returned && 0 <= f.tup_fetched <= s.tup_fetched && 0
        <= f.tup_inserted <= s.tup_inserted && 0 <= f.tup_updated <= s.tup_updated && 0
        <= f.tup_deleted <= s.tup_deleted
}

/// Difference two tuple-throughput snapshots field by field.
pub fn table_metric_from_two_stats(first: &DatabaseStat, second: &DatabaseStat) -> (r:
    DatabaseMetric)
    requires
        db_monotone(*first, *second),
    ensures
        r.tup_returned == second.tup_returned - first.tup_returned,
        r.tup_fetched == second.tup_fetched - first.tup_fetched,
        r.tup_inserted == second.tup_inserted - first.tup_inserted,
        r.tup_updated == second.tup_updated - first.tup_updated,
        r.tup_deleted == second.tup_deleted - first.tup_deleted,
{
    DatabaseMetric {
        tup_returned: second.tup_returned - first.tup_returned,
        tup_fetched: second.tup_fetched - first.tup_fetched,
        tup_inserted: second.tup_inserted - first.tup_inserted,
        tup_updated: second.tup_updated - first.tup_updated,
        tup_deleted: second.tup_deleted - first.tup_deleted,
    }
}

/// A row estimate narrowed to the stored width, clamped at its bounds.
pub open spec fn spec_clamp_i32(v: i64) -> i32 {
    if v > i32::MAX {
        i32::MAX
    } else if v < i32::MIN {
        i32::MIN
    } else {
        v as i32
    }
}

/// The reported row of one table.
pub open spec fn spec_table_metric(t: TableStatView) -> TableMetricView {
    TableMetricView { table: t.table, rows: spec_clamp_i32(t.rows), total_bytes: t.total_bytes }
}

/// Derive the reporting-ready record from a pair of time-ordered
/// statistics snapshots: tuple counters differenced, table rows taken
/// from the newer snapshot.
#[verifier::loop_isolation(false)]
pub fn postgres_metric_from_stats(
    first: &InstantPostgresMetric,
    second: &InstantPostgresMetric,
) -> (r: PostgresMetric)
    requires
        db_monotone(first.database_stat, second.database_stat),
    ensures
        r.timestamp_ms == second.timestamp_ms,
        r.database_metric.tup_returned == second.database_stat.tup_returned
            - first.database_stat.tup_returned,
        r.database_metric.tup_fetched == second.database_stat.tup_fetched
            - first.database_stat.tup_fetched,
        r.database_metric.tup_inserted == second.database_stat.tup_inserted
            - first.database_stat.tup_inserted,
        r.database_metric.tup_updated == second.database_stat.tup_updated
            - first.database_stat.tup_updated,
        r.database_metric.tup_deleted == second.database_stat.tup_deleted
            - first.database_stat.tup_deleted,
        r.table_metrics.deep_view() == second.table_stat.deep_view().map_values(
            |t: TableStatView| spec_table_metric(t),
        ),
{
    let ghost tviews = second.table_stat.deep_view();
    let ghost mapped = tviews.map_values(|t: TableStatView| spec_table_metric(t));
    let n = second.table_stat.len();
    let mut table_metrics: Vec<TableMetric> = Vec::new();
    let mut i: usize = 0;
    proof {
        assert(tviews.len() == second.table_stat@.len());
        assert(table_metrics.deep_view() =~= mapped.take(0));
    }
    while i < n
        invariant
            0 <= i <= n,
            table_metrics.deep_view() =~= mapped.take(i as int),
        decreases n - i,
    {
        proof {
            assert(tviews[i as int] == second.table_stat@[i as int]@);
        }
        let t = &second.table_stat[i];
        let rows: i32 = if t.rows > i32::MAX as i64 {
            i32::MAX
        } else if t.rows < i32::MIN as i64 {
            i32::MIN
        } else {
            t.rows as i32
        };
        let ghost pre = table_metrics.deep_view();
        let row = TableMetric { table: t.table.clone(), rows, total_bytes: t.total_bytes };
        let ghost rv = row@;
        table_metrics.push(row);
        proof {
            assert(table_metrics.deep_view() =~= pre.push(rv));
            assert(rv == mapped[i as int]);
            assert(table_metrics.deep_view() =~= mapped.take(i + 1));
        }
        i += 1;
    }
    proof {
        assert(mapped.take(n as int) =~= mapped);
    }
    PostgresMetric {
        timestamp_ms: second.timestamp_ms,
        database_metric: table_metric_from_two_stats(&first.database_stat, &second.database_stat),
        table_metrics,
    }
}

} // verus!
