// The store model, the text encoder, the error taxonomy and the clock.

use metrics_agent::clock::current_timestamp_ms;
use metrics_agent::encode::u64_to_string;
use metrics_agent::errors::{MetricCollectionError, MetricEncodingError, MetricSaveError};
use metrics_agent::metric::{MetricEntry, MetricRecord, MetricRow, MetricValue};
use metrics_agent::sample::Sample;
use metrics_agent::store::MetricStore;

fn row(source: &str, timestamp_ms: u64, name: &str) -> MetricRow {
    MetricRow {
        hostname: "h".to_string(),
        source: source.to_string(),
        timestamp_ms,
        name: name.to_string(),
        value: MetricValue::Absolute { value: 1 },
    }
}

#[test]
fn purge_removes_exactly_the_old_rows_of_one_source() {
    let mut store = MetricStore::new();
    store.append(row("cpu", 1_000, "user"));
    store.append(row("cpu", 9_000, "user"));
    store.append(row("io", 1_000, "read"));
    store.purge_older_than("cpu", 5_000);
    assert_eq!(store.len(), 2);
    assert_eq!(store.rows[0].source, "cpu");
    assert_eq!(store.rows[0].timestamp_ms, 9_000);
    assert_eq!(store.rows[1].source, "io");
}

#[test]
fn append_all_keeps_order() {
    let mut store = MetricStore::new();
    store.append_all(vec![row("a", 1, "x"), row("b", 2, "y")]);
    assert_eq!(store.len(), 2);
    assert_eq!(store.rows[0].source, "a");
    assert_eq!(store.rows[1].source, "b");
}

#[test]
fn decimal_rendering() {
    assert_eq!(u64_to_string(0), "0");
    assert_eq!(u64_to_string(7), "7");
    assert_eq!(u64_to_string(12345), "12345");
    assert_eq!(u64_to_string(u64::MAX), "18446744073709551615");
}

#[test]
fn record_encoding_is_exact() {
    let record = MetricRecord {
        timestamp_ms: 42,
        entries: vec![
            MetricEntry {
                name: "rx".to_string(),
                value: MetricValue::Rate { delta: 10, interval_ms: 2_000 },
            },
            MetricEntry { name: "total".to_string(), value: MetricValue::Absolute { value: 99 } },
        ],
    };
    assert_eq!(
        record.encode(),
        "{\"timestamp_ms\":42,\"entries\":[{\"name\":\"rx\",\"rate\":{\"delta\":10,\"interval_ms\":2000}},{\"name\":\"total\",\"value\":99}]}"
    );
}

#[test]
fn empty_record_encodes_an_empty_entry_list() {
    let record = MetricRecord { timestamp_ms: 0, entries: vec![] };
    assert_eq!(record.encode(), "{\"timestamp_ms\":0,\"entries\":[]}");
}

#[test]
fn error_messages_name_the_failure() {
    let e = MetricCollectionError::NotConfigured { description: "no endpoint".to_string() };
    assert!(e.is_not_configured());
    assert_eq!(e.message(), "not configured: no endpoint");
    let e = MetricCollectionError::InvalidInterval;
    assert!(!e.is_not_configured());
    assert_eq!(e.message(), "invalid interval between samples");
    let e = MetricSaveError::DatabaseQueryFailed { description: "boom".to_string() };
    assert_eq!(e.message(), "database query failed: boom");
    assert_eq!(MetricEncodingError::NoRecord.message(), "no record");
}

#[test]
fn clock_stamps_samples() {
    let now = current_timestamp_ms();
    let s = Sample { timestamp_ms: now, readings: vec![] };
    assert_eq!(s.timestamp_ms, now);
    // The agent postdates the epoch.
    assert!(now > 0);
}

#[test]
fn sample_lookup_finds_the_first_occurrence() {
    let s = Sample {
        timestamp_ms: 0,
        readings: vec![
            metrics_agent::sample::Reading { name: "a".to_string(), value: 1 },
            metrics_agent::sample::Reading { name: "b".to_string(), value: 2 },
            metrics_agent::sample::Reading { name: "a".to_string(), value: 3 },
        ],
    };
    assert_eq!(s.find_reading("a"), Some(1));
    assert_eq!(s.find_reading("b"), Some(2));
    assert_eq!(s.find_reading("c"), None);
}
