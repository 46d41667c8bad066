// The source parsers on realistic adapter output.

use metrics_agent::cpu::{is_cpu_line, parse_proc_stat};
use metrics_agent::fs::parse_df;
use metrics_agent::io::parse_diskstats;
use metrics_agent::load_avg::parse_loadavg;
use metrics_agent::memory::parse_meminfo;
use metrics_agent::network::parse_net_dev;
use metrics_agent::nginx::parse_nginx_status;
use metrics_agent::text::{parse_centi, parse_u16, parse_u64, split_lines, split_whitespace};

#[test]
fn parse_u64_accepts_digits_only() {
    assert_eq!(parse_u64("0"), Some(0));
    assert_eq!(parse_u64("12345"), Some(12345));
    assert_eq!(parse_u64("18446744073709551615"), Some(u64::MAX));
    assert_eq!(parse_u64("18446744073709551616"), None);
    assert_eq!(parse_u64(""), None);
    assert_eq!(parse_u64("12a"), None);
    assert_eq!(parse_u64("-5"), None);
}

#[test]
fn parse_u16_bounds() {
    assert_eq!(parse_u16("65535"), Some(65535));
    assert_eq!(parse_u16("65536"), None);
    assert_eq!(parse_u16("7"), Some(7));
}

#[test]
fn parse_centi_reads_hundredths() {
    assert_eq!(parse_centi("0.52"), Some(52));
    assert_eq!(parse_centi("1.05"), Some(105));
    assert_eq!(parse_centi("12"), Some(1200));
    assert_eq!(parse_centi("3.7"), Some(370));
    assert_eq!(parse_centi("3.789"), Some(378));
    assert_eq!(parse_centi("0."), Some(0));
    assert_eq!(parse_centi(".5"), None);
    assert_eq!(parse_centi("a.5"), None);
    assert_eq!(parse_centi("1.x"), None);
}

#[test]
fn split_lines_and_whitespace() {
    assert_eq!(split_lines("a\nb\n"), vec!["a", "b"]);
    assert_eq!(split_lines("a\r\nb"), vec!["a", "b"]);
    assert_eq!(split_lines(""), Vec::<String>::new());
    assert_eq!(split_whitespace("  one  two\tthree "), vec!["one", "two", "three"]);
    assert_eq!(split_whitespace("   "), Vec::<String>::new());
}

#[test]
fn cpu_line_recognition() {
    let line: Vec<String> = split_whitespace("cpu0 100 2 3 4 5 6 7 8 9 10");
    assert!(is_cpu_line(&line));
    let aggregate: Vec<String> = split_whitespace("cpu 100 2 3 4 5 6 7 8 9 10");
    assert!(!is_cpu_line(&aggregate));
    let short: Vec<String> = split_whitespace("cpu1 100 2 3");
    assert!(!is_cpu_line(&short));
}

#[test]
fn proc_stat_parses_per_cpu_rows() {
    let text = "cpu  790 0 496 26931 166 0 35 0 0 0\n\
                cpu0 395 0 248 13465 83 0 17 0 0 0\n\
                cpu1 395 0 248 13466 83 0 18 0 0 0\n\
                intr 127392 11 0 0 0\n\
                ctxt 254383\n";
    let entries = parse_proc_stat(text);
    assert_eq!(entries.len(), 2);
    assert_eq!(entries[0].cpu, 0);
    assert_eq!(entries[0].user, 395);
    assert_eq!(entries[0].idle, 13465);
    assert_eq!(entries[1].cpu, 1);
    assert_eq!(entries[1].softirq, 18);
}

#[test]
fn diskstats_parses_sector_counters() {
    let text = "   8       0 sda 8523 1821 648480 118736 2269 2689 99999 3364 0 4411 6728\n\
                   8       1 sda1 110 0 6354 42 1 0 1 0 0 42 42\n\
                 253       0 dm-0 broken line\n";
    let entries = parse_diskstats(text);
    assert_eq!(entries.len(), 2);
    assert_eq!(entries[0].device_name, "sda");
    assert_eq!(entries[0].sectors_read, 648480);
    assert_eq!(entries[0].sectors_written, 118736);
    assert_eq!(entries[1].device_name, "sda1");
}

#[test]
fn net_dev_skips_the_two_header_lines() {
    let text = "Inter-|   Receive                                                |  Transmit\n\
 face |bytes    packets errs drop fifo frame compressed multicast|bytes    packets errs drop fifo colls carrier compressed\n\
    lo:  286337     600    0    0    0     0          0         0   286337     600    0    0    0     0       0          0\n\
  eth0: 7215742    6375    0    0    0     0          0         0   489312    4200    0    0    0     0       0          0\n";
    let entries = parse_net_dev(text);
    assert_eq!(entries.len(), 2);
    assert_eq!(entries[0].device, "lo:");
    assert_eq!(entries[0].rx, 286337);
    assert_eq!(entries[0].tx, 286337);
    assert_eq!(entries[1].device, "eth0:");
    assert_eq!(entries[1].rx, 7215742);
    assert_eq!(entries[1].tx, 489312);
}

#[test]
fn meminfo_reads_the_labelled_quantities() {
    let text = "MemTotal:       16384256 kB\n\
                MemFree:         8123456 kB\n\
                MemAvailable:   12000000 kB\n\
                Buffers:          312345 kB\n\
                Cached:          4123456 kB\n\
                SwapCached:            0 kB\n\
                SwapTotal:       2097148 kB\n\
                SwapFree:        2097148 kB\n";
    let m = parse_meminfo(42, text);
    assert_eq!(m.timestamp_ms, 42);
    assert_eq!(m.total, Some(16384256));
    assert_eq!(m.free, Some(8123456));
    assert_eq!(m.available, Some(12000000));
    assert_eq!(m.buffers, Some(312345));
    assert_eq!(m.cached, Some(4123456));
    assert_eq!(m.swap_total, Some(2097148));
    assert_eq!(m.swap_free, Some(2097148));
}

#[test]
fn meminfo_missing_label_is_absent() {
    let m = parse_meminfo(0, "MemTotal: 1024 kB\n");
    assert_eq!(m.total, Some(1024));
    assert_eq!(m.available, None);
}

#[test]
fn loadavg_reads_three_averages_in_hundredths() {
    let m = parse_loadavg(7, "0.52 0.58 0.59 1/467 12345\n").unwrap();
    assert_eq!(m.timestamp_ms, 7);
    assert_eq!(m.one, 52);
    assert_eq!(m.five, 58);
    assert_eq!(m.fifteen, 59);
    assert!(parse_loadavg(7, "0.52 0.58\n").is_none());
}

#[test]
fn df_filters_pseudo_filesystems_and_deduplicates() {
    let text = "Filesystem     1K-blocks      Used Available Use% Mounted on\n\
                /dev/sda1       41152812   9582512  29856016  25% /\n\
                tmpfs            8192128         0   8192128   0% /dev/shm\n\
                overlay         41152812   9582512  29856016  25% /var/lib\n\
                /dev/sda1       41152812   9582600  29855928  25% /mnt/bind\n\
                /dev/sdb1      103081248  55123456  42707520  57% /data\n";
    let entries = parse_df(text);
    let names: Vec<&str> = entries.iter().map(|e| e.filesystem.as_str()).collect();
    assert_eq!(names, vec!["/dev/sda1", "/dev/sdb1"]);
    // Of the duplicated filesystem the later row wins.
    assert_eq!(entries[0].used, 9582600);
    assert_eq!(entries[1].total, 103081248);
}

#[test]
fn nginx_status_reads_the_handled_requests_counter() {
    let text = "Active connections: 2\n\
                server accepts handled requests\n\
                 16630948 16630948 31070465\n\
                Reading: 0 Writing: 1 Waiting: 1\n";
    assert_eq!(parse_nginx_status(text), Some(31070465));
    assert_eq!(parse_nginx_status("too\nshort\n"), None);
}
