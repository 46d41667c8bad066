// The per-source flatteners feeding the generic collector.

use metrics_agent::collector::{Collector, CollectorMode, MetricCollector};
use metrics_agent::fs::{fs_sample, FilesystemUsageMetric, FilesystemUsageMetricEntry};
use metrics_agent::io::{io_sample, InstantIOMetric, InstantIOMetricEntry};
use metrics_agent::load_avg::{loadavg_sample, LoadAverageMetric};
use metrics_agent::memory::{memory_sample, parse_meminfo};
use metrics_agent::metric::MetricValue;
use metrics_agent::network::{network_sample, InstantNetworkMetric, InstantNetworkMetricEntry};
use metrics_agent::nginx::{nginx_sample, NginxInstantMetric};
use metrics_agent::store::MetricStore;

#[test]
fn memory_sample_reports_absolute_quantities() {
    let m = parse_meminfo(9, "MemTotal: 2048 kB\nMemFree: 512 kB\n");
    let s = memory_sample(&m);
    assert_eq!(s.timestamp_ms, 9);
    assert_eq!(s.readings.len(), 7);
    assert_eq!(s.readings[0].name, "total");
    assert_eq!(s.readings[0].value, 2048);
    assert_eq!(s.readings[1].name, "free");
    assert_eq!(s.readings[1].value, 512);
    // Absent labels report as zero.
    assert_eq!(s.readings[2].name, "available");
    assert_eq!(s.readings[2].value, 0);
}

#[test]
fn loadavg_sample_keeps_hundredths() {
    let m = LoadAverageMetric { timestamp_ms: 3, one: 52, five: 58, fifteen: 59 };
    let s = loadavg_sample(&m);
    assert_eq!(s.readings.len(), 3);
    assert_eq!(s.readings[0].name, "one");
    assert_eq!(s.readings[0].value, 52);
    assert_eq!(s.readings[2].name, "fifteen");
    assert_eq!(s.readings[2].value, 59);
}

#[test]
fn fs_sample_names_per_filesystem() {
    let m = FilesystemUsageMetric {
        timestamp_ms: 1,
        stat: vec![FilesystemUsageMetricEntry {
            filesystem: "/dev/sda1".to_string(),
            total: 1000,
            used: 250,
        }],
    };
    let s = fs_sample(&m);
    assert_eq!(s.readings.len(), 2);
    assert_eq!(s.readings[0].name, "/dev/sda1.total");
    assert_eq!(s.readings[0].value, 1000);
    assert_eq!(s.readings[1].name, "/dev/sda1.used");
    assert_eq!(s.readings[1].value, 250);
}

#[test]
fn io_and_network_samples_name_per_device() {
    let io = InstantIOMetric {
        timestamp_ms: 1,
        stat: vec![InstantIOMetricEntry {
            device_name: "sda".to_string(),
            sectors_read: 10,
            sectors_written: 20,
        }],
    };
    let s = io_sample(&io);
    assert_eq!(s.readings[0].name, "sda.sectors_read");
    assert_eq!(s.readings[1].name, "sda.sectors_written");

    let net = InstantNetworkMetric {
        timestamp_ms: 1,
        stat: vec![InstantNetworkMetricEntry { device: "eth0:".to_string(), rx: 7, tx: 8 }],
    };
    let s = network_sample(&net);
    assert_eq!(s.readings[0].name, "eth0:.rx");
    assert_eq!(s.readings[0].value, 7);
    assert_eq!(s.readings[1].name, "eth0:.tx");
    assert_eq!(s.readings[1].value, 8);
}

#[test]
fn nginx_sample_feeds_the_differencing_collector() {
    let mut collector = Collector::new("nginx".to_string(), CollectorMode::Differencing);
    let mut store = MetricStore::new();
    let first = NginxInstantMetric { timestamp_ms: 0, handled_requests: 1_000 };
    let second = NginxInstantMetric { timestamp_ms: 10_000, handled_requests: 5_000 };
    collector.collect(Ok(nginx_sample(&first))).unwrap();
    collector.collect(Ok(nginx_sample(&second))).unwrap();
    collector.save(&mut store, "h").unwrap();
    assert_eq!(store.len(), 1);
    assert_eq!(store.rows[0].name, "handled_requests");
    assert!(matches!(
        store.rows[0].value,
        MetricValue::Rate { delta: 4_000, interval_ms: 10_000 }
    ));
}
