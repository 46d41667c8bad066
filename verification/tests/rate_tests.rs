// The rate calculator on concrete sample pairs.

use metrics_agent::errors::MetricCollectionError;
use metrics_agent::metric::MetricValue;
use metrics_agent::rate::{per_second_rate, rate_from_pair};
use metrics_agent::sample::{Reading, Sample};

fn sample(timestamp_ms: u64, readings: Vec<(&str, u64)>) -> Sample {
    let readings = readings
        .into_iter()
        .map(|(name, value)| Reading { name: name.to_string(), value })
        .collect();
    Sample { timestamp_ms, readings }
}

#[test]
fn rate_correctness_units_per_second() {
    let first = sample(50_000, vec![("read", 1000)]);
    let second = sample(60_000, vec![("read", 5000)]);
    let record = rate_from_pair(&first, &second).unwrap();
    assert_eq!(record.timestamp_ms, 60_000);
    assert_eq!(record.entries.len(), 1);
    assert_eq!(record.entries[0].name, "read");
    match record.entries[0].value {
        MetricValue::Rate { delta, interval_ms } => {
            assert_eq!(delta, 4000);
            assert_eq!(interval_ms, 10_000);
            let per_second = delta as f64 / (interval_ms as f64 / 1000.0);
            assert_eq!(per_second, 400.0);
        },
        MetricValue::Absolute { .. } => panic!("expected a rate entry"),
    }
}

#[test]
fn counter_reset_is_dropped_never_negative() {
    let first = sample(0, vec![("x", 500)]);
    let second = sample(5_000, vec![("x", 100)]);
    let record = rate_from_pair(&first, &second).unwrap();
    assert!(record.entries.is_empty());
}

#[test]
fn key_mismatch_keeps_only_common_keys() {
    let first = sample(0, vec![("a", 10), ("b", 20), ("c", 30)]);
    let second = sample(1_000, vec![("b", 25), ("d", 40), ("a", 11)]);
    let record = rate_from_pair(&first, &second).unwrap();
    let names: Vec<&str> = record.entries.iter().map(|e| e.name.as_str()).collect();
    assert_eq!(names, vec!["b", "a"]);
}

#[test]
fn disjoint_key_sets_yield_no_entries() {
    let first = sample(0, vec![("a", 10)]);
    let second = sample(1_000, vec![("b", 20)]);
    let record = rate_from_pair(&first, &second).unwrap();
    assert!(record.entries.is_empty());
}

#[test]
fn zero_interval_is_a_defined_error() {
    let first = sample(7_000, vec![("x", 1)]);
    let second = sample(7_000, vec![("x", 2)]);
    match rate_from_pair(&first, &second) {
        Err(MetricCollectionError::InvalidInterval) => {},
        _ => panic!("expected the invalid-interval error"),
    }
}

#[test]
fn inverted_interval_is_a_defined_error() {
    let first = sample(9_000, vec![("x", 1)]);
    let second = sample(8_000, vec![("x", 2)]);
    assert!(matches!(
        rate_from_pair(&first, &second),
        Err(MetricCollectionError::InvalidInterval)
    ));
}

#[test]
fn unchanged_counter_reports_zero_rate() {
    let first = sample(0, vec![("x", 42)]);
    let second = sample(3_000, vec![("x", 42)]);
    let record = rate_from_pair(&first, &second).unwrap();
    assert_eq!(record.entries.len(), 1);
    assert!(matches!(
        record.entries[0].value,
        MetricValue::Rate { delta: 0, interval_ms: 3_000 }
    ));
}

#[test]
fn per_second_rate_truncates() {
    assert_eq!(per_second_rate(4000, 10_000), 400);
    assert_eq!(per_second_rate(10, 3_000), 3);
    assert_eq!(per_second_rate(0, 1), 0);
    assert_eq!(per_second_rate(u64::MAX, 1), u64::MAX);
}
