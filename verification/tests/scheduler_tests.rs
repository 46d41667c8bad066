// The scheduler: per-collector isolation, storage liveness decisions,
// the cleanup cadence and retention, and the configuration defaults.

use metrics_agent::collector::{Collector, CollectorMode};
use metrics_agent::config::{get_max_metrics_age, get_metric_report_interval};
use metrics_agent::errors::MetricCollectionError;
use metrics_agent::sample::{Reading, Sample};
use metrics_agent::scheduler::{retention_cutoff, storage_status, Scheduler, StorageStatus};
use metrics_agent::store::MetricStore;

fn sample(timestamp_ms: u64, readings: Vec<(&str, u64)>) -> Sample {
    let readings = readings
        .into_iter()
        .map(|(name, value)| Reading { name: name.to_string(), value })
        .collect();
    Sample { timestamp_ms, readings }
}

fn three_collector_scheduler() -> Scheduler {
    let mut scheduler = Scheduler::new(100, 14 * 24 * 3_600_000);
    scheduler.register(Collector::new("cpu".to_string(), CollectorMode::Differencing));
    scheduler.register(Collector::new("io".to_string(), CollectorMode::Differencing));
    scheduler.register(Collector::new("memory".to_string(), CollectorMode::Direct));
    scheduler
}

fn failing() -> Result<Sample, MetricCollectionError> {
    Err(MetricCollectionError::FailedToRead { description: "unreachable".to_string() })
}

#[test]
fn one_failing_collector_never_blocks_the_others() {
    let mut scheduler = three_collector_scheduler();
    let mut store = MetricStore::new();
    // First cycle: the middle collector always fails to acquire.
    let (results, cleaned) = scheduler.run_cycle(
        vec![
            Ok(sample(1_000, vec![("user", 100)])),
            failing(),
            Ok(sample(1_000, vec![("total", 4096)])),
        ],
        &mut store,
        "host-a",
        1_000,
    );
    assert!(!cleaned);
    assert!(results[0].is_ok());
    assert!(results[1].is_err());
    assert!(results[2].is_ok());
    // The direct collector saved its record on the very first cycle.
    assert_eq!(store.len(), 1);
    assert_eq!(store.rows[0].source, "memory");

    // Second cycle: the healthy differencing collector is ready too.
    let (results, _) = scheduler.run_cycle(
        vec![
            Ok(sample(61_000, vec![("user", 160)])),
            failing(),
            Ok(sample(61_000, vec![("total", 4096)])),
        ],
        &mut store,
        "host-a",
        61_000,
    );
    assert!(results[0].is_ok());
    assert!(results[1].is_err());
    assert!(results[2].is_ok());
    let sources: Vec<&str> = store.rows.iter().map(|r| r.source.as_str()).collect();
    assert_eq!(sources, vec!["memory", "cpu", "memory"]);
}

#[test]
fn storage_liveness_decisions() {
    assert_eq!(storage_status(true, false), StorageStatus::Live);
    assert_eq!(storage_status(true, true), StorageStatus::Live);
    assert_eq!(storage_status(false, true), StorageStatus::Recovered);
    assert_eq!(storage_status(false, false), StorageStatus::Fatal);
}

#[test]
fn reconnect_then_resume_loses_no_baseline() {
    let mut scheduler = Scheduler::new(100, 1_000_000);
    scheduler.register(Collector::new("cpu".to_string(), CollectorMode::Differencing));
    let mut store = MetricStore::new();
    let (results, _) = scheduler.run_cycle(
        vec![Ok(sample(1_000, vec![("user", 100)]))],
        &mut store,
        "h",
        1_000,
    );
    assert!(results[0].is_ok());

    // The next liveness check fails once and the reconnect succeeds:
    // polling resumes, nothing was dropped in between.
    assert_eq!(storage_status(false, true), StorageStatus::Recovered);
    let (results, _) = scheduler.run_cycle(
        vec![Ok(sample(121_000, vec![("user", 700)]))],
        &mut store,
        "h",
        121_000,
    );
    assert!(results[0].is_ok());
    assert_eq!(store.len(), 1);
    // Differenced against the baseline from before the outage, over the
    // widened interval.
    match store.rows[0].value {
        metrics_agent::metric::MetricValue::Rate { delta, interval_ms } => {
            assert_eq!(delta, 600);
            assert_eq!(interval_ms, 120_000);
        },
        _ => panic!("expected a rate row"),
    }

    // Had the reconnect failed too, the loop must terminate.
    assert_eq!(storage_status(false, false), StorageStatus::Fatal);
}

#[test]
fn cleanup_runs_only_every_hundredth_cycle() {
    let mut scheduler = Scheduler::new(100, 1_000_000);
    let mut store = MetricStore::new();
    for cycle in 1..=100u64 {
        let (_, cleaned) = scheduler.run_cycle(vec![], &mut store, "h", cycle);
        assert_eq!(cleaned, cycle == 100);
    }
}

#[test]
fn cleanup_cycle_prunes_rows_older_than_the_horizon() {
    // Cleanup on every cycle, horizon of 10 seconds.
    let mut scheduler = Scheduler::new(1, 10_000);
    scheduler.register(Collector::new("cpu".to_string(), CollectorMode::Differencing));
    let mut store = MetricStore::new();
    scheduler.run_cycle(
        vec![Ok(sample(1_000, vec![("user", 1)]))],
        &mut store,
        "h",
        1_000,
    );
    scheduler.run_cycle(
        vec![Ok(sample(2_000, vec![("user", 2)]))],
        &mut store,
        "h",
        2_000,
    );
    assert_eq!(store.len(), 1);

    // Much later, the row stamped 2000 is beyond the horizon and the
    // fresh one remains.
    scheduler.run_cycle(
        vec![Ok(sample(50_000, vec![("user", 9)]))],
        &mut store,
        "h",
        50_000,
    );
    assert_eq!(store.len(), 1);
    assert_eq!(store.rows[0].timestamp_ms, 50_000);
}

#[test]
fn retention_cutoff_saturates_at_zero() {
    assert_eq!(retention_cutoff(100_000, 10_000), 90_000);
    assert_eq!(retention_cutoff(5_000, 10_000), 0);
}

#[test]
fn report_interval_defaults_to_one_minute() {
    assert_eq!(get_metric_report_interval(None), 60);
    assert_eq!(get_metric_report_interval(Some(15)), 15);
}

#[test]
fn max_metrics_age_defaults_to_two_weeks() {
    assert_eq!(get_max_metrics_age(None), 336 * 3_600_000);
    assert_eq!(get_max_metrics_age(Some(1)), 3_600_000);
    assert_eq!(get_max_metrics_age(Some(u64::MAX)), u64::MAX);
}

#[test]
fn collector_count_follows_registration() {
    let scheduler = three_collector_scheduler();
    assert_eq!(scheduler.collector_count(), 3);
}
