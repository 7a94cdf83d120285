use std::collections::HashSet;

use server_monitor::auth::{parse_line, parse_log, AuthStatus, EventLog};
use server_monitor::engine::{
    age_of, derive_sample, sample_due, Age, DiskSpace, Monitor, ProcessStats, RawSnapshot,
};
use server_monitor::rate::{cpu_share, disk_percent, percent, RateState};
use server_monitor::rolling::RollingSeries;

fn snapshot(target: Option<ProcessStats>) -> RawSnapshot {
    RawSnapshot {
        cores: 4,
        total_memory: 8_000,
        target,
        disk: Some(DiskSpace { total: 1_000, available: 400 }),
        extra_disk_bytes: 100,
        net_received: 5_000,
        net_transmitted: 7_000,
    }
}

#[test]
fn rolling_capacity_three_keeps_last_three() {
    let mut s = RollingSeries::new(3);
    s.push(1, 10);
    s.push(2, 20);
    s.push(3, 30);
    s.push(4, 40);
    assert_eq!(s.points(), vec![(2, 20), (3, 30), (4, 40)]);
    assert_eq!(s.len(), 3);
    assert_eq!(s.latest(), Some(40));
    assert_eq!(s.first_timestamp(), Some(2));
    assert_eq!(s.last_timestamp(), Some(4));
}

#[test]
fn rolling_holds_min_of_pushes_and_capacity() {
    for m in 0..12u64 {
        let mut s = RollingSeries::new(5);
        for k in 0..m {
            s.push(k, k * 2);
        }
        let expected: Vec<(u64, u64)> = (m.saturating_sub(5)..m).map(|k| (k, k * 2)).collect();
        assert_eq!(s.len() as u64, m.min(5));
        assert_eq!(s.points(), expected);
    }
}

#[test]
fn rolling_empty_and_zero_capacity() {
    let mut s = RollingSeries::new(0);
    assert_eq!(s.latest(), None);
    assert_eq!(s.first_timestamp(), None);
    assert_eq!(s.last_timestamp(), None);
    s.push(1, 1);
    assert_eq!(s.len(), 0);
    assert_eq!(s.capacity(), 0);
}

#[test]
fn rate_first_observation_is_zero() {
    let mut r = RateState::new();
    assert_eq!(r.baseline(), None);
    assert_eq!(r.observe(123_456, 5_000), 0);
    assert_eq!(r.baseline(), Some((123_456, 5_000)));
}

#[test]
fn rate_one_mib_over_one_second() {
    let mut r = RateState::new();
    assert_eq!(r.observe(1000, 0), 0);
    assert_eq!(r.observe(1000 + 1_048_576, 1000), 1_000_000);
    assert_eq!(r.baseline(), Some((1000 + 1_048_576, 1000)));
}

#[test]
fn rate_counter_decrease_is_zero() {
    let mut r = RateState::new();
    r.observe(5_000_000, 0);
    assert_eq!(r.observe(10, 2000), 0);
    assert_eq!(r.baseline(), Some((10, 2000)));
    assert_eq!(r.observe(10 + 2 * 1_048_576, 4000), 1_000_000);
}

#[test]
fn rate_steady_increase_matches_formula() {
    let d: u64 = 3 * 1_048_576;
    let t_ms: u64 = 2000;
    let mut r = RateState::new();
    r.observe(0, 10_000);
    let got = r.observe(d, 10_000 + t_ms) as f64 / 1_000_000.0;
    let want = d as f64 / ((t_ms as f64 / 1000.0) * 1_048_576.0);
    assert!((got - want).abs() < 1e-6);
}

#[test]
fn rate_clock_not_moving_is_zero() {
    let mut r = RateState::new();
    r.observe(100, 5000);
    assert_eq!(r.observe(200, 5000), 0);
    assert_eq!(r.observe(300, 4000), 0);
    assert_eq!(r.baseline(), Some((300, 4000)));
}

#[test]
fn rate_saturates() {
    let mut r = RateState::new();
    r.observe(0, 0);
    assert_eq!(r.observe(u64::MAX, 1), u64::MAX);
}

#[test]
fn percentages() {
    assert_eq!(percent(1, 4), 2500);
    assert_eq!(percent(5, 0), 0);
    assert_eq!(percent(3, 3), 10_000);
    assert_eq!(disk_percent(1_000, 400, 100), 7_000);
    assert_eq!(disk_percent(0, 0, 100), 0);
    assert_eq!(disk_percent(100, 200, 50), 5_000);
    assert_eq!(cpu_share(400, 4), 100);
    assert_eq!(cpu_share(400, 0), 0);
}

#[test]
fn parse_failed_line() {
    let ev = parse_line(b"Failed password for root from 10.0.0.5 port 22 ssh2", 77).unwrap();
    assert_eq!(ev.identifier, b"10.0.0.5".to_vec());
    assert_eq!(ev.status, AuthStatus::Failed);
    assert_eq!(ev.timestamp, 77);
}

#[test]
fn parse_accepted_line() {
    let ev = parse_line(b"sshd[1]: Accepted password for bob from 192.168.1.9 port 5000", 5).unwrap();
    assert_eq!(ev.identifier, b"192.168.1.9".to_vec());
    assert_eq!(ev.status, AuthStatus::Success);
}

#[test]
fn parse_line_without_marker_gives_nothing() {
    assert!(parse_line(b"Connection closed by 10.0.0.5 port 22", 1).is_none());
    assert!(parse_line(b"", 1).is_none());
}

#[test]
fn parse_line_without_source_is_unknown() {
    let ev = parse_line(b"Failed password for root", 1).unwrap();
    assert_eq!(ev.identifier, b"unknown".to_vec());
    let ev = parse_line(b"Failed password for root from ", 1).unwrap();
    assert_eq!(ev.identifier, b"unknown".to_vec());
    let ev = parse_line(b"Failed password from 10.1.1.1", 1).unwrap();
    assert_eq!(ev.identifier, b"10.1.1.1".to_vec());
}

#[test]
fn parse_log_lines_in_order() {
    let log = b"noise\nFailed password for a from 1.1.1.1 port 1\r\nAccepted password for b from 2.2.2.2 port 2\nother";
    let evs = parse_log(log, 9);
    assert_eq!(evs.len(), 2);
    assert_eq!(evs[0].identifier, b"1.1.1.1".to_vec());
    assert_eq!(evs[0].status, AuthStatus::Failed);
    assert_eq!(evs[1].identifier, b"2.2.2.2".to_vec());
    assert_eq!(evs[1].status, AuthStatus::Success);
    assert!(parse_log(b"", 9).is_empty());
}

/// Offers each event to a store of keys with insert-or-ignore, and hands its answer on.
fn store_and_take(m: &mut Monitor, store: &mut HashSet<(u64, Vec<u8>)>, log: &[u8], now: u64) -> usize {
    let mut inserted_rows = 0;
    for ev in m.poll_events(log, now) {
        let inserted = store.insert((ev.timestamp, ev.identifier.clone()));
        if m.take_stored_event(ev, inserted) {
            inserted_rows += 1;
        }
    }
    inserted_rows
}

#[test]
fn ingest_twice_adds_nothing() {
    let log = b"Failed password for a from 1.1.1.1 port 1\nFailed password for a from 1.1.1.1 port 1\nAccepted password for b from 2.2.2.2 port 2\n";
    let mut m = Monitor::new();
    let mut store = HashSet::new();
    assert_eq!(m.poll_events(log, 100).len(), 3);
    assert_eq!(store_and_take(&mut m, &mut store, log, 100), 2);
    assert_eq!(store.len(), 2);
    assert_eq!(m.events.len(), 2);
    assert_eq!(store_and_take(&mut m, &mut store, log, 100), 0);
    assert_eq!(store.len(), 2);
    assert_eq!(m.events.len(), 2);
    assert_eq!(store_and_take(&mut m, &mut store, log, 101), 2);
    assert_eq!(store.len(), 4);
    assert_eq!(m.events.len(), 4);
}

fn accept_all(l: &mut EventLog, log: &[u8], now: u64) {
    for ev in parse_log(log, now) {
        l.accept(ev);
    }
}

#[test]
fn event_list_drops_oldest_over_cap() {
    let mut l = EventLog::new(2);
    accept_all(&mut l, b"Failed password from 1.1.1.1\nFailed password from 2.2.2.2\nFailed password from 3.3.3.3", 1);
    assert_eq!(l.len(), 2);
    let v = l.visible();
    assert_eq!(v.len(), 2);
    assert_eq!(v[0].identifier, b"3.3.3.3".to_vec());
    assert_eq!(v[1].identifier, b"2.2.2.2".to_vec());
}

#[test]
fn ignored_event_stays_out_of_list() {
    let mut m = Monitor::new();
    let ev = parse_line(b"Failed password from 9.9.9.9", 3).unwrap();
    assert!(!m.take_stored_event(ev, false));
    assert_eq!(m.events.len(), 0);
}

#[test]
fn scrolling_stays_in_bounds() {
    let mut l = EventLog::new(10);
    accept_all(&mut l, b"Failed password from a\nFailed password from b\nFailed password from c\nFailed password from d\nFailed password from e", 1);
    l.scroll_up();
    assert_eq!(l.scroll_offset(), 0);
    l.scroll_down();
    l.scroll_down();
    l.scroll_down();
    assert_eq!(l.scroll_offset(), 2);
    let v = l.visible();
    assert_eq!(v.len(), 3);
    assert_eq!(v[0].identifier, b"c".to_vec());
    assert_eq!(v[2].identifier, b"a".to_vec());
    l.scroll_up();
    assert_eq!(l.scroll_offset(), 1);
}

#[test]
fn missing_target_gives_zero_metrics() {
    let s = derive_sample(&snapshot(None), 42);
    assert_eq!(s.cpu_percent, 0);
    assert_eq!(s.memory_percent, 0);
    assert_eq!(s.memory_used, 0);
    assert_eq!(s.target_memory, 0);
    assert_eq!(s.target_disk_read, 0);
    assert_eq!(s.target_disk_write, 0);
    assert_eq!(s.disk_percent, 7_000);
    assert_eq!(s.memory_total, 8_000);
}

#[test]
fn sample_from_target() {
    let p = ProcessStats { cpu_usage: 800, memory: 2_000, disk_read: 3, disk_written: 4 };
    let s = derive_sample(&snapshot(Some(p)), 42);
    assert_eq!(s.timestamp_ms, 42);
    assert_eq!(s.cpu_percent, 200);
    assert_eq!(s.memory_percent, 2_500);
    assert_eq!(s.memory_used, 2_000);
    assert_eq!(s.target_disk_read, 3);
    assert_eq!(s.target_disk_write, 4);
    assert_eq!(s.net_received, 5_000);
}

#[test]
fn monitor_records_series_and_rates() {
    let mut m = Monitor::new();
    let mut raw = snapshot(None);
    m.record(&raw, 0);
    raw.net_received += 1_048_576;
    raw.net_transmitted += 2 * 1_048_576;
    m.record(&raw, 1000);
    assert_eq!(m.received.points(), vec![(0, 0), (1000, 1_000_000)]);
    assert_eq!(m.transmitted.points(), vec![(0, 0), (1000, 2_000_000)]);
    assert_eq!(m.disk.latest(), Some(7_000));
    assert_eq!(m.cpu.len(), 2);
    for k in 0..150u64 {
        m.record(&raw, 2000 + k);
    }
    assert_eq!(m.cpu.len(), 100);
}

#[test]
fn cadence_and_compaction() {
    assert!(sample_due(1000, 3000));
    assert!(!sample_due(1000, 2999));
    assert!(!sample_due(5000, 1000));
    let mut m = Monitor::new();
    for _ in 0..21599 {
        assert!(!m.end_cycle());
    }
    assert!(m.end_cycle());
    assert_eq!(m.cycles, 0);
    assert!(!m.end_cycle());
}

#[test]
fn monitor_polls_events() {
    let mut m = Monitor::new();
    let mut store = HashSet::new();
    let n = store_and_take(&mut m, &mut store, b"Failed password for x from 10.0.0.5 port 22\nnothing", 50);
    assert_eq!(n, 1);
    assert_eq!(m.events.len(), 1);
    m.scroll_logs_down();
    m.scroll_logs_up();
    assert_eq!(m.events.scroll_offset(), 0);
}

#[test]
fn ages() {
    assert_eq!(age_of(100, 70), Age::Seconds(30));
    assert_eq!(age_of(1000, 100), Age::Minutes(15));
    assert_eq!(age_of(10_000, 100), Age::Hours(2));
    assert_eq!(age_of(100, 200), Age::Seconds(0));
}
