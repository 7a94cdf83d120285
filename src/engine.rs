use vstd::prelude::*;
use crate::auth::{accept_model, AuthEvent, EventLog, events_of_log, views, VISIBLE_EVENTS};
use crate::rate::{cpu_share, disk_percent, disk_used, percent, percent_of, observed_rate, RateState};
use crate::rolling::{push_model, RollingSeries};

verus! {

/// Points kept in each series.
pub const WINDOW_SIZE: usize = 100;

/// Authentication events kept in memory.
pub const MAX_EVENTS: usize = 1000;

/// Milliseconds between two samples.
pub const CADENCE_MS: u64 = 2000;

/// Samples between two compactions of the durable store.
pub const COMPACTION_CYCLES: u64 = 21600;

/// What the target process reports: its CPU usage in hundredths of a percent (of one
/// core), its resident memory in bytes, and the bytes it has read from and written to disk.
#[derive(Clone, Copy, Debug, PartialEq, Eq)]
pub struct ProcessStats {
    pub cpu_usage: u64,
    pub memory: u64,
    pub disk_read: u64,
    pub disk_written: u64,
}

/// Total and available bytes of the first disk.
#[derive(Clone, Copy, Debug, PartialEq, Eq)]
pub struct DiskSpace {
    pub total: u64,
    pub available: u64,
}

/// The counters that the system reports at one moment.
#[derive(Clone, Copy, Debug, PartialEq, Eq)]
pub struct RawSnapshot {
    /// Number of CPU cores.
    pub cores: u64,
    /// Total memory in bytes.
    pub total_memory: u64,
    /// The target process, if it runs.
    pub target: Option<ProcessStats>,
    /// The first disk, if there is one.
    pub disk: Option<DiskSpace>,
    /// Bytes of the watched directory, counted as used on top of what the disk reports.
    pub extra_disk_bytes: u64,
    /// Bytes received over all interfaces since start (cumulative).
    pub net_received: u64,
    /// Bytes sent over all interfaces since start (cumulative).
    pub net_transmitted: u64,
}

/// One sample, as it is written to the durable store. Percentages are in hundredths
/// of a percent.
#[derive(Clone, Copy, Debug, PartialEq, Eq)]
pub struct MetricSample {
    /// Milliseconds since the epoch.
    pub timestamp_ms: u64,
    /// CPU usage of the target process spread over all cores.
    pub cpu_percent: u64,
    /// Memory of the target process against total memory.
    pub memory_percent: u64,
    pub memory_total: u64,
    pub memory_used: u64,
    /// Used space of the first disk, the watched directory counted in.
    pub disk_percent: u64,
    pub net_received: u64,
    pub net_transmitted: u64,
    pub target_memory: u64,
    pub target_disk_read: u64,
    pub target_disk_write: u64,
}

/// The target's stats, or all zero when it does not run.
pub open spec fn target_or_zero(raw: RawSnapshot) -> ProcessStats {
    match raw.target {
        Some(p) => p,
        None => ProcessStats { cpu_usage: 0, memory: 0, disk_read: 0, disk_written: 0 },
    }
}

/// The disk usage that a snapshot gives: 0 when there is no disk.
pub open spec fn disk_percent_of(raw: RawSnapshot) -> int {
    match raw.disk {
        Some(d) => percent_of(disk_used(d.total, d.available, raw.extra_disk_bytes), d.total as int),
        None => 0,
    }
}

/// The sample that a snapshot taken at `now_ms` gives.
pub open spec fn sample_of(raw: RawSnapshot, now_ms: u64) -> MetricSample {
    let p = target_or_zero(raw);
    MetricSample {
        timestamp_ms: now_ms,
        cpu_percent: (if raw.cores == 0 { 0 } else { p.cpu_usage / raw.cores }),
        memory_percent: percent_of(p.memory as int, raw.total_memory as int) as u64,
        memory_total: raw.total_memory,
        memory_used: p.memory,
        disk_percent: disk_percent_of(raw) as u64,
        net_received: raw.net_received,
        net_transmitted: raw.net_transmitted,
        target_memory: p.memory,
        target_disk_read: p.disk_read,
        target_disk_write: p.disk_written,
    }
}

/// Computes the sample of a snapshot taken at `now_ms`.
pub fn derive_sample(raw: &RawSnapshot, now_ms: u64) -> (r: MetricSample)
    ensures
        r == sample_of(*raw, now_ms),
{
    let p = match raw.target {
        Some(p) => p,
        None => ProcessStats { cpu_usage: 0, memory: 0, disk_read: 0, disk_written: 0 },
    };
    let disk = match raw.disk {
        Some(d) => disk_percent(d.total, d.available, raw.extra_disk_bytes),
        None => 0,
    };
    MetricSample {
        timestamp_ms: now_ms,
        cpu_percent: cpu_share(p.cpu_usage, raw.cores),
        memory_percent: percent(p.memory, raw.total_memory),
        memory_total: raw.total_memory,
        memory_used: p.memory,
        disk_percent: disk,
        net_received: raw.net_received,
        net_transmitted: raw.net_transmitted,
        target_memory: p.memory,
        target_disk_read: p.disk_read,
        target_disk_write: p.disk_written,
    }
}

/// When the target process does not run, every metric drawn from it is zero.
pub proof fn lemma_missing_target_is_zero(raw: RawSnapshot, now_ms: u64)
    requires
        raw.target is None,
    ensures
        sample_of(raw, now_ms).cpu_percent == 0,
        sample_of(raw, now_ms).memory_percent == 0,
        sample_of(raw, now_ms).memory_used == 0,
        sample_of(raw, now_ms).target_memory == 0,
        sample_of(raw, now_ms).target_disk_read == 0,
        sample_of(raw, now_ms).target_disk_write == 0,
{
}

/// A new sample is due when at least `CADENCE_MS` have passed since the last one;
/// a clock that went back is not due.
pub fn sample_due(last_ms: u64, now_ms: u64) -> (r: bool)
    ensures
        r == (now_ms >= last_ms && now_ms - last_ms >= CADENCE_MS),
{
    now_ms >= last_ms && now_ms - last_ms >= CADENCE_MS
}

/// The state of a monitor: the five series, the two network baselines, the recent
/// authentication events, and the cycles since the last compaction.
pub struct Monitor {
    pub cpu: RollingSeries,
    pub memory: RollingSeries,
    pub disk: RollingSeries,
    pub received: RollingSeries,
    pub transmitted: RollingSeries,
    pub events: EventLog,
    pub received_rate: RateState,
    pub transmitted_rate: RateState,
    pub cycles: u64,
}

impl Monitor {
    pub open spec fn wf(&self) -> bool {
        &&& self.cpu.wf()
        &&& self.memory.wf()
        &&& self.disk.wf()
        &&& self.received.wf()
        &&& self.transmitted.wf()
        &&& self.events.wf()
        &&& self.cycles < COMPACTION_CYCLES
    }

    /// `self` and `o` have the same five series and the same two network baselines.
    pub open spec fn same_series(&self, o: &Monitor) -> bool {
        &&& self.cpu == o.cpu
        &&& self.memory == o.memory
        &&& self.disk == o.disk
        &&& self.received == o.received
        &&& self.transmitted == o.transmitted
        &&& self.received_rate == o.received_rate
        &&& self.transmitted_rate == o.transmitted_rate
    }

    /// A monitor with `WINDOW_SIZE` points per series and `MAX_EVENTS` events.
    pub fn new() -> (r: Monitor)
        ensures
            r.wf(),
            r.cpu@.len() == 0 && r.cpu.cap() == WINDOW_SIZE,
            r.memory@.len() == 0 && r.memory.cap() == WINDOW_SIZE,
            r.disk@.len() == 0 && r.disk.cap() == WINDOW_SIZE,
            r.received@.len() == 0 && r.received.cap() == WINDOW_SIZE,
            r.transmitted@.len() == 0 && r.transmitted.cap() == WINDOW_SIZE,
            r.events@.len() == 0 && r.events.max() == MAX_EVENTS,
            r.events.offset() == 0,
            r.received_rate@ is None,
            r.transmitted_rate@ is None,
            r.cycles == 0,
    {
        Monitor {
            cpu: RollingSeries::new(WINDOW_SIZE),
            memory: RollingSeries::new(WINDOW_SIZE),
            disk: RollingSeries::new(WINDOW_SIZE),
            received: RollingSeries::new(WINDOW_SIZE),
            transmitted: RollingSeries::new(WINDOW_SIZE),
            events: EventLog::new(MAX_EVENTS),
            received_rate: RateState::new(),
            transmitted_rate: RateState::new(),
            cycles: 0,
        }
    }

    /// Takes in a snapshot taken at `now_ms`: pushes CPU, memory and disk usage and
    /// the two network rates onto their series, and returns the sample to persist.
    pub fn record(&mut self, raw: &RawSnapshot, now_ms: u64) -> (r: MetricSample)
        requires
            old(self).wf(),
        ensures
            final(self).wf(),
            r == sample_of(*raw, now_ms),
            final(self).cpu@ == push_model(old(self).cpu@, (now_ms, r.cpu_percent), old(self).cpu.cap()),
            final(self).memory@ == push_model(
                old(self).memory@,
                (now_ms, r.memory_percent),
                old(self).memory.cap(),
            ),
            final(self).disk@ == push_model(old(self).disk@, (now_ms, r.disk_percent), old(self).disk.cap()),
            final(self).received@ == push_model(
                old(self).received@,
                (now_ms, observed_rate(old(self).received_rate@, raw.net_received, now_ms) as u64),
                old(self).received.cap(),
            ),
            final(self).transmitted@ == push_model(
                old(self).transmitted@,
                (now_ms, observed_rate(old(self).transmitted_rate@, raw.net_transmitted, now_ms) as u64),
                old(self).transmitted.cap(),
            ),
            final(self).received_rate@ == Some((raw.net_received, now_ms)),
            final(self).transmitted_rate@ == Some((raw.net_transmitted, now_ms)),
            final(self).cpu.cap() == old(self).cpu.cap(),
            final(self).memory.cap() == old(self).memory.cap(),
            final(self).disk.cap() == old(self).disk.cap(),
            final(self).received.cap() == old(self).received.cap(),
            final(self).transmitted.cap() == old(self).transmitted.cap(),
            final(self).events == old(self).events,
            final(self).cycles == old(self).cycles,
    {
        let sample = derive_sample(raw, now_ms);
        let rx = self.received_rate.observe(raw.net_received, now_ms);
        let tx = self.transmitted_rate.observe(raw.net_transmitted, now_ms);
        self.cpu.push(now_ms, sample.cpu_percent);
        self.memory.push(now_ms, sample.memory_percent);
        self.disk.push(now_ms, sample.disk_percent);
        self.received.push(now_ms, rx);
        self.transmitted.push(now_ms, tx);
        sample
    }

    /// The events that the authentication log text seen at `now_s` (seconds) reports,
    /// in order, to be offered to the durable store.
    pub fn poll_events(&self, log: &[u8], now_s: u64) -> (r: Vec<AuthEvent>)
        ensures
            views(r@) == events_of_log(log@, now_s),
    {
        crate::auth::parse_log(log, now_s)
    }

    /// Takes the durable store's answer for an event: one it inserted joins the event
    /// list (the oldest leaving when the list is full); one it ignored does not.
    /// Returns whether the event joined.
    pub fn take_stored_event(&mut self, ev: AuthEvent, inserted: bool) -> (r: bool)
        requires
            old(self).wf(),
        ensures
            final(self).wf(),
            r == inserted,
            final(self).events@ == if inserted {
                accept_model(old(self).events@, ev@, old(self).events.max())
            } else {
                old(self).events@
            },
            final(self).events.max() == old(self).events.max(),
            final(self).events.offset() == old(self).events.offset(),
            final(self).same_series(&*old(self)),
            final(self).cycles == old(self).cycles,
    {
        if inserted {
            self.events.accept(ev);
        }
        inserted
    }

    /// Counts one sampling cycle; returns whether the durable store is due for a
    /// compaction, which is once every `COMPACTION_CYCLES` cycles.
    pub fn end_cycle(&mut self) -> (r: bool)
        requires
            old(self).wf(),
        ensures
            final(self).wf(),
            r == (old(self).cycles + 1 == COMPACTION_CYCLES),
            final(self).cycles == if r { 0 } else { old(self).cycles + 1 },
            final(self).same_series(&*old(self)),
            final(self).events == old(self).events,
    {
        self.cycles = self.cycles + 1;
        if self.cycles >= COMPACTION_CYCLES {
            self.cycles = 0;
            true
        } else {
            false
        }
    }

    pub fn scroll_logs_up(&mut self)
        requires
            old(self).wf(),
        ensures
            final(self).wf(),
            final(self).same_series(&*old(self)),
            final(self).cycles == old(self).cycles,
            final(self).events.max() == old(self).events.max(),
            final(self).events@ == old(self).events@,
            final(self).events.offset() == if old(self).events.offset() > 0 {
                old(self).events.offset() - 1
            } else {
                0
            },
    {
        self.events.scroll_up();
    }

    pub fn scroll_logs_down(&mut self)
        requires
            old(self).wf(),
        ensures
            final(self).wf(),
            final(self).same_series(&*old(self)),
            final(self).cycles == old(self).cycles,
            final(self).events.max() == old(self).events.max(),
            final(self).events@ == old(self).events@,
            final(self).events.offset() == if old(self).events.offset() + VISIBLE_EVENTS < old(self).events@.len() {
                old(self).events.offset() + 1
            } else {
                old(self).events.offset()
            },
    {
        self.events.scroll_down();
    }
}

/// How long ago something happened, in the largest whole unit below the next one.
#[derive(Clone, Copy, Debug, PartialEq, Eq, Structural)]
pub enum Age {
    Seconds(u64),
    Minutes(u64),
    Hours(u64),
}

/// The age of an event at `ts` seen at `now` (both in seconds): under a minute in
/// seconds, under an hour in minutes, else in hours; a time ahead of `now` is 0 seconds.
pub fn age_of(now: u64, ts: u64) -> (r: Age)
    ensures
        r == (if ts >= now {
            Age::Seconds(0)
        } else if now - ts < 60 {
            Age::Seconds((now - ts) as u64)
        } else if now - ts < 3600 {
            Age::Minutes(((now - ts) / 60) as u64)
        } else {
            Age::Hours(((now - ts) / 3600) as u64)
        }),
{
    if ts >= now {
        Age::Seconds(0)
    } else {
        let d = now - ts;
        if d < 60 {
            Age::Seconds(d)
        } else if d < 3600 {
            Age::Minutes(d / 60)
        } else {
            Age::Hours(d / 3600)
        }
    }
}

} // verus!
