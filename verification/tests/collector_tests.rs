// The collector lifecycle: uninitialized, armed, ready; saving,
// encoding and cleanup against the store model.

use metrics_agent::collector::{Collector, CollectorMode, MetricCollector};
use metrics_agent::errors::{MetricCollectionError, MetricEncodingError};
use metrics_agent::metric::MetricValue;
use metrics_agent::sample::{Reading, Sample};
use metrics_agent::store::MetricStore;

fn sample(timestamp_ms: u64, readings: Vec<(&str, u64)>) -> Sample {
    let readings = readings
        .into_iter()
        .map(|(name, value)| Reading { name: name.to_string(), value })
        .collect();
    Sample { timestamp_ms, readings }
}

#[test]
fn single_sample_then_save_writes_nothing() {
    let mut collector = Collector::new("cpu".to_string(), CollectorMode::Differencing);
    let mut store = MetricStore::new();
    collector
        .collect(Ok(sample(1_000, vec![("user", 100)])))
        .unwrap();
    collector.save(&mut store, "host-a").unwrap();
    assert_eq!(store.len(), 0);
}

#[test]
fn second_sample_arms_a_record() {
    let mut collector = Collector::new("cpu".to_string(), CollectorMode::Differencing);
    let mut store = MetricStore::new();
    collector.collect(Ok(sample(1_000, vec![("user", 100)]))).unwrap();
    assert!(!collector.has_record());
    collector.collect(Ok(sample(2_000, vec![("user", 160)]))).unwrap();
    assert!(collector.has_record());
    collector.save(&mut store, "host-a").unwrap();
    assert_eq!(store.len(), 1);
    let row = &store.rows[0];
    assert_eq!(row.hostname, "host-a");
    assert_eq!(row.source, "cpu");
    assert_eq!(row.timestamp_ms, 2_000);
    assert_eq!(row.name, "user");
    assert!(matches!(row.value, MetricValue::Rate { delta: 60, interval_ms: 1_000 }));
}

#[test]
fn failed_acquisition_keeps_state_and_returns_the_error() {
    let mut collector = Collector::new("io".to_string(), CollectorMode::Differencing);
    collector.collect(Ok(sample(1_000, vec![("sectors", 10)]))).unwrap();
    let outcome = collector.collect(Err(MetricCollectionError::FailedToRead {
        description: "transport down".to_string(),
    }));
    assert!(matches!(
        outcome,
        Err(MetricCollectionError::FailedToRead { .. })
    ));
    assert!(!collector.has_record());
    // The baseline survived the outage: the next sample differences
    // against the first one, over the widened interval.
    collector.collect(Ok(sample(4_000, vec![("sectors", 40)]))).unwrap();
    let mut store = MetricStore::new();
    collector.save(&mut store, "h").unwrap();
    assert!(matches!(
        store.rows[0].value,
        MetricValue::Rate { delta: 30, interval_ms: 3_000 }
    ));
}

#[test]
fn non_advancing_timestamp_is_reported_and_record_unchanged() {
    let mut collector = Collector::new("net".to_string(), CollectorMode::Differencing);
    collector.collect(Ok(sample(1_000, vec![("rx", 5)]))).unwrap();
    let outcome = collector.collect(Ok(sample(1_000, vec![("rx", 9)])));
    assert!(matches!(outcome, Err(MetricCollectionError::InvalidInterval)));
    assert!(!collector.has_record());
}

#[test]
fn direct_collector_is_ready_after_one_sample() {
    let mut collector = Collector::new("memory".to_string(), CollectorMode::Direct);
    let mut store = MetricStore::new();
    collector.collect(Ok(sample(5_000, vec![("total", 8192), ("free", 1024)]))).unwrap();
    assert!(collector.has_record());
    collector.save(&mut store, "h").unwrap();
    assert_eq!(store.len(), 2);
    assert!(matches!(store.rows[0].value, MetricValue::Absolute { value: 8192 }));
    assert!(matches!(store.rows[1].value, MetricValue::Absolute { value: 1024 }));
}

#[test]
fn encode_without_record_is_a_distinct_error() {
    let collector = Collector::new("cpu".to_string(), CollectorMode::Differencing);
    assert!(matches!(collector.encode(), Err(MetricEncodingError::NoRecord)));
}

#[test]
fn encode_renders_the_current_record() {
    let mut collector = Collector::new("nginx".to_string(), CollectorMode::Differencing);
    collector.collect(Ok(sample(0, vec![("req", 1000)]))).unwrap();
    collector.collect(Ok(sample(10_000, vec![("req", 5000)]))).unwrap();
    let text = collector.encode().unwrap();
    assert_eq!(
        text,
        "{\"timestamp_ms\":10000,\"entries\":[{\"name\":\"req\",\"rate\":{\"delta\":4000,\"interval_ms\":10000}}]}"
    );
}

#[test]
fn cleanup_purges_only_this_source_and_only_old_rows() {
    let mut collector = Collector::new("cpu".to_string(), CollectorMode::Differencing);
    collector.collect(Ok(sample(1_000, vec![("user", 1)]))).unwrap();
    collector.collect(Ok(sample(2_000, vec![("user", 2)]))).unwrap();
    let mut store = MetricStore::new();
    collector.save(&mut store, "h").unwrap();

    let mut other = Collector::new("io".to_string(), CollectorMode::Differencing);
    other.collect(Ok(sample(1_000, vec![("sectors", 1)]))).unwrap();
    other.collect(Ok(sample(2_000, vec![("sectors", 2)]))).unwrap();
    other.save(&mut store, "h").unwrap();
    assert_eq!(store.len(), 2);

    // The cutoff is after both rows: this collector's row vanishes, the
    // other source's row stays untouched.
    collector.cleanup(&mut store, 10_000).unwrap();
    assert_eq!(store.len(), 1);
    assert_eq!(store.rows[0].source, "io");

    // Idempotent: running it again changes nothing.
    collector.cleanup(&mut store, 10_000).unwrap();
    assert_eq!(store.len(), 1);
}

#[test]
fn retained_row_survives_cleanup_within_the_window() {
    let mut collector = Collector::new("cpu".to_string(), CollectorMode::Differencing);
    collector.collect(Ok(sample(1_000, vec![("user", 1)]))).unwrap();
    collector.collect(Ok(sample(8_000, vec![("user", 2)]))).unwrap();
    let mut store = MetricStore::new();
    collector.save(&mut store, "h").unwrap();
    collector.cleanup(&mut store, 8_000).unwrap();
    assert_eq!(store.len(), 1);
    assert_eq!(store.rows[0].timestamp_ms, 8_000);
}

#[test]
fn collector_key_is_the_registration_key() {
    let collector = Collector::new("load_average".to_string(), CollectorMode::Direct);
    assert_eq!(collector.key(), "load_average");
}
