// The typed per-source derivations on concrete snapshots.

use metrics_agent::cpu::{cpu_metric_entry_from_two_stats, cpu_metric_from_stats, cpu_sample,
    CPUMetricEntry, InstantCPUMetric, InstantCPUMetricEntry};
use metrics_agent::docker::client::{Container, ContainerStats, CPUStats, CPUUsage, MemoryStats,
    MemoryUsageStats, NetworkStat};
use metrics_agent::docker::metric::{docker_entry_from_stats, docker_metric_from_stats,
    InstantDockerContainerMetric, InstantDockerContainerMetricEntry};
use metrics_agent::io::{io_metric_from_stats, InstantIOMetric, InstantIOMetricEntry};
use metrics_agent::metric::MetricValue;
use metrics_agent::network::{network_metric_from_stats, network_metric_from_two_stats,
    InstantNetworkMetric, InstantNetworkMetricEntry};
use metrics_agent::nginx::{nginx_metric_from_stats, NginxInstantMetric};
use metrics_agent::postgres::{postgres_metric_from_stats, table_metric_from_two_stats,
    DatabaseStat, InstantPostgresMetric, TableStat};

fn cpu_entry(cpu: u16, base: u64) -> InstantCPUMetricEntry {
    InstantCPUMetricEntry {
        cpu,
        user: base,
        nice: base + 1,
        system: base + 2,
        idle: base + 3,
        iowait: base + 4,
        irq: base + 5,
        softirq: base + 6,
        guest: base + 7,
        steal: base + 8,
        guest_nice: base + 9,
    }
}

#[test]
fn cpu_entry_rates_truncate_per_second() {
    let first = cpu_entry(0, 100);
    let mut second = cpu_entry(0, 100);
    second.user = 160;
    second.idle = 103 + 25;
    let row: CPUMetricEntry = cpu_metric_entry_from_two_stats(10_000, first, second);
    assert_eq!(row.cpu, 0);
    assert_eq!(row.user, 6);  // 60 ticks over 10 s
    assert_eq!(row.idle, 2);  // 25 ticks over 10 s, truncated
    assert_eq!(row.nice, 0);
}

#[test]
fn cpu_pairing_drops_unmatched_and_reset_entries() {
    let first = InstantCPUMetric {
        timestamp_ms: 0,
        stat: vec![cpu_entry(0, 100), cpu_entry(1, 100)],
    };
    let mut reset = cpu_entry(1, 50);
    reset.user = 10;  // fell behind: a reset
    let second = InstantCPUMetric {
        timestamp_ms: 1_000,
        stat: vec![cpu_entry(0, 200), reset, cpu_entry(7, 300)],
    };
    let derived = cpu_metric_from_stats(&first, &second);
    assert_eq!(derived.timestamp_ms, 1_000);
    assert_eq!(derived.stat.len(), 1);
    assert_eq!(derived.stat[0].cpu, 0);
    assert_eq!(derived.stat[0].user, 100);
}

#[test]
fn cpu_sample_flattens_names() {
    let m = InstantCPUMetric { timestamp_ms: 5, stat: vec![cpu_entry(3, 10)] };
    let s = cpu_sample(&m);
    assert_eq!(s.timestamp_ms, 5);
    assert_eq!(s.readings.len(), 10);
    assert_eq!(s.readings[0].name, "cpu3.user");
    assert_eq!(s.readings[0].value, 10);
    assert_eq!(s.readings[9].name, "cpu3.guest_nice");
    assert_eq!(s.readings[9].value, 19);
}

#[test]
fn io_rates_are_exact_byte_deltas() {
    let first = InstantIOMetric {
        timestamp_ms: 0,
        stat: vec![InstantIOMetricEntry {
            device_name: "sda".to_string(),
            sectors_read: 1000,
            sectors_written: 400,
        }],
    };
    let second = InstantIOMetric {
        timestamp_ms: 2_000,
        stat: vec![InstantIOMetricEntry {
            device_name: "sda".to_string(),
            sectors_read: 1100,
            sectors_written: 500,
        }],
    };
    let derived = io_metric_from_stats(&first, &second);
    assert_eq!(derived.stat.len(), 1);
    assert_eq!(derived.stat[0].device, "sda");
    // 100 sectors of 512 bytes over two seconds.
    assert!(matches!(
        derived.stat[0].read,
        MetricValue::Rate { delta: 51_200, interval_ms: 2_000 }
    ));
    assert!(matches!(
        derived.stat[0].write,
        MetricValue::Rate { delta: 51_200, interval_ms: 2_000 }
    ));
}

#[test]
fn network_rates_pair_by_interface() {
    let eth = |rx: u64, tx: u64| InstantNetworkMetricEntry {
        device: "eth0:".to_string(),
        rx,
        tx,
    };
    let first = InstantNetworkMetric { timestamp_ms: 0, stat: vec![eth(100, 50)] };
    let second = InstantNetworkMetric { timestamp_ms: 4_000, stat: vec![eth(500, 250)] };
    let derived = network_metric_from_stats(&first, &second);
    assert_eq!(derived.stat.len(), 1);
    assert!(matches!(
        derived.stat[0].rx,
        MetricValue::Rate { delta: 400, interval_ms: 4_000 }
    ));
    let row = network_metric_from_two_stats(4_000, &first.stat[0], &second.stat[0]);
    assert!(matches!(row.tx, MetricValue::Rate { delta: 200, interval_ms: 4_000 }));
}

#[test]
fn nginx_requests_per_minute_truncate() {
    let first = NginxInstantMetric { timestamp_ms: 0, handled_requests: 1_000 };
    let second = NginxInstantMetric { timestamp_ms: 120_000, handled_requests: 1_151 };
    let m = nginx_metric_from_stats(&first, &second).unwrap();
    assert_eq!(m.timestamp_ms, 120_000);
    assert_eq!(m.handled_requests, 75);  // 151 requests over two minutes
}

#[test]
fn nginx_sub_minute_interval_and_reset_yield_nothing() {
    let first = NginxInstantMetric { timestamp_ms: 0, handled_requests: 1_000 };
    let close = NginxInstantMetric { timestamp_ms: 59_999, handled_requests: 2_000 };
    assert!(nginx_metric_from_stats(&first, &close).is_none());
    let same = NginxInstantMetric { timestamp_ms: 0, handled_requests: 2_000 };
    assert!(nginx_metric_from_stats(&first, &same).is_none());
    let reset = NginxInstantMetric { timestamp_ms: 120_000, handled_requests: 500 };
    assert!(nginx_metric_from_stats(&first, &reset).is_none());
}

#[test]
fn postgres_counters_are_differenced() {
    let first = DatabaseStat {
        tup_returned: 100,
        tup_fetched: 50,
        tup_inserted: 10,
        tup_updated: 5,
        tup_deleted: 1,
    };
    let second = DatabaseStat {
        tup_returned: 180,
        tup_fetched: 90,
        tup_inserted: 30,
        tup_updated: 9,
        tup_deleted: 4,
    };
    let d = table_metric_from_two_stats(&first, &second);
    assert_eq!(d.tup_returned, 80);
    assert_eq!(d.tup_fetched, 40);
    assert_eq!(d.tup_inserted, 20);
    assert_eq!(d.tup_updated, 4);
    assert_eq!(d.tup_deleted, 3);
}

#[test]
fn postgres_record_keeps_tables_and_clamps_row_estimates() {
    let stat = |ts: u64, db: DatabaseStat, tables: Vec<TableStat>| InstantPostgresMetric {
        timestamp_ms: ts,
        database_stat: db,
        table_stat: tables,
    };
    let db0 = DatabaseStat {
        tup_returned: 0,
        tup_fetched: 0,
        tup_inserted: 0,
        tup_updated: 0,
        tup_deleted: 0,
    };
    let db1 = DatabaseStat {
        tup_returned: 7,
        tup_fetched: 3,
        tup_inserted: 2,
        tup_updated: 1,
        tup_deleted: 0,
    };
    let tables = vec![
        TableStat { table: "events".to_string(), rows: 1234, total_bytes: 8_192 },
        TableStat { table: "huge".to_string(), rows: 9_000_000_000, total_bytes: 1 },
    ];
    let derived = postgres_metric_from_stats(&stat(0, db0, vec![]), &stat(60_000, db1, tables));
    assert_eq!(derived.timestamp_ms, 60_000);
    assert_eq!(derived.database_metric.tup_returned, 7);
    assert_eq!(derived.table_metrics.len(), 2);
    assert_eq!(derived.table_metrics[0].table, "events");
    assert_eq!(derived.table_metrics[0].rows, 1234);
    assert_eq!(derived.table_metrics[1].rows, i32::MAX);
}

fn stats_for(name: &str, total_usage: u128, system: u128) -> ContainerStats {
    ContainerStats {
        name: name.to_string(),
        cpu_stats: CPUStats {
            cpu_usage: CPUUsage { total_usage },
            system_cpu_usage: system,
        },
        memory_stats: MemoryStats { usage: 2_048, stats: MemoryUsageStats { cache: 512 } },
        networks: vec![
            NetworkStat { rx_bytes: 100, tx_bytes: 40 },
            NetworkStat { rx_bytes: 23, tx_bytes: 2 },
        ],
    }
}

#[test]
fn docker_entry_scales_and_sums() {
    let container = Container { id: "abc".to_string(), state: "running".to_string() };
    let stats = stats_for("/web", 9_000_000, 4_000_000_000);
    let entry = docker_entry_from_stats(&container, &stats);
    assert_eq!(entry.name, "web");
    assert_eq!(entry.state, "running");
    assert_eq!(entry.cpu_usage, 9_000);
    assert_eq!(entry.system_cpu_usage, 4_000);
    assert_eq!(entry.memory_usage, 2_048);
    assert_eq!(entry.memory_cache, 512);
    assert_eq!(entry.network_rx, 123);
    assert_eq!(entry.network_tx, 42);
}

#[test]
fn docker_pairs_by_name_and_requires_cpu_progress() {
    let entry = |name: &str, cpu: u64| InstantDockerContainerMetricEntry {
        name: name.to_string(),
        state: "running".to_string(),
        cpu_usage: cpu,
        system_cpu_usage: cpu * 10,
        memory_usage: 1,
        memory_cache: 1,
        network_tx: cpu,
        network_rx: cpu,
    };
    let first = InstantDockerContainerMetric {
        timestamp_ms: 0,
        stat: vec![entry("web", 100), entry("db", 100)],
    };
    let second = InstantDockerContainerMetric {
        timestamp_ms: 60_000,
        stat: vec![entry("web", 160), entry("db", 100), entry("new", 5)],
    };
    let derived = docker_metric_from_stats(&first, &second);
    // "db" made no processor progress, "new" has no baseline.
    assert_eq!(derived.stat.len(), 1);
    assert_eq!(derived.stat[0].name, "web");
    assert_eq!(derived.stat[0].cpu_delta, 60);
    assert_eq!(derived.stat[0].system_cpu_delta, 600);
    assert_eq!(derived.stat[0].interval_ms, 60_000);
    assert_eq!(derived.stat[0].network_tx_delta, 60);
}
