use vstd::prelude::*;

verus! {

/// Bytes in one MiB.
pub const MIB: u64 = 1_048_576;

/// Rates are given in millionths of a MiB per second.
pub const RATE_SCALE: u64 = 1_000_000;

/// Percentages are given in hundredths of a percent (10000 is 100%).
pub const PERCENT_SCALE: u64 = 10_000;

/// `x` capped at the largest `u64`.
pub open spec fn saturate(x: int) -> int {
    if x > u64::MAX {
        u64::MAX as int
    } else {
        x
    }
}

/// Throughput of `delta` bytes over `elapsed_ms` milliseconds, in millionths of a MiB
/// per second, rounded down: `delta / (elapsed_s * MIB)` scaled by `RATE_SCALE`.
pub open spec fn rate_of(delta: int, elapsed_ms: int) -> int {
    (delta * RATE_SCALE * 1000) / (elapsed_ms * MIB)
}

/// The rate that an observation of `value` at `t` gives against `baseline`.
pub open spec fn observed_rate(baseline: Option<(u64, u64)>, value: u64, t: u64) -> int {
    match baseline {
        None => 0,
        Some((v0, t0)) => if t <= t0 || value < v0 {
            0
        } else {
            saturate(rate_of(value - v0, t - t0))
        },
    }
}

/// Memory of the last observation of a cumulative counter: its value and the time of
/// the observation in milliseconds, or nothing before the first one.
pub struct RateState {
    baseline: Option<(u64, u64)>,
}

impl View for RateState {
    type V = Option<(u64, u64)>;

    closed spec fn view(&self) -> Option<(u64, u64)> {
        self.baseline
    }
}

impl RateState {
    pub fn new() -> (r: RateState)
        ensures
            r@ is None,
    {
        RateState { baseline: None }
    }

    /// The last observation, as (value, time in milliseconds).
    pub fn baseline(&self) -> (r: Option<(u64, u64)>)
        ensures
            r == self@,
    {
        self.baseline
    }

    /// Records `value` observed at `t_ms` and returns the throughput since the last
    /// observation. The first observation, a time that does not move forward and a
    /// counter that went down all give 0. The observation always becomes the new baseline.
    pub fn observe(&mut self, value: u64, t_ms: u64) -> (r: u64)
        ensures
            r == observed_rate(old(self)@, value, t_ms),
            final(self)@ == Some((value, t_ms)),
    {
        let r: u64 = match self.baseline {
            None => 0,
            Some((v0, t0)) => {
                if t_ms <= t0 || value < v0 {
                    0
                } else {
                    let delta: u128 = (value - v0) as u128;
                    let elapsed: u128 = (t_ms - t0) as u128;
                    proof {
                        assert(delta * 1_000_000_000 <= u64::MAX * 1_000_000_000) by (nonlinear_arith)
                            requires delta <= u64::MAX;
                        assert(elapsed * 1_048_576 <= u64::MAX * 1_048_576) by (nonlinear_arith)
                            requires elapsed <= u64::MAX;
                    }
                    let q: u128 = (delta * 1_000_000_000) / (elapsed * 1_048_576);
                    if q > u64::MAX as u128 {
                        u64::MAX
                    } else {
                        q as u64
                    }
                }
            },
        };
        self.baseline = Some((value, t_ms));
        r
    }
}

/// A first observation gives 0; a counter that went down gives 0; a counter that grew
/// by `value - v0` bytes over `t - t0` milliseconds gives that many bytes per elapsed
/// second over `MIB`, in millionths, rounded down.
pub proof fn lemma_rate_cases(v0: u64, t0: u64, value: u64, t: u64)
    ensures
        observed_rate(None, value, t) == 0,
        value < v0 ==> observed_rate(Some((v0, t0)), value, t) == 0,
        t0 < t && v0 <= value ==> observed_rate(Some((v0, t0)), value, t) == saturate(
            ((value - v0) * 1_000_000_000) / ((t - t0) * 1_048_576),
        ),
{
}

/// `part` as hundredths of a percent of `whole` (rounded down, capped at the largest
/// `u64`); 0 when `whole` is 0.
pub open spec fn percent_of(part: int, whole: int) -> int {
    if whole == 0 {
        0
    } else {
        saturate((part * PERCENT_SCALE) / whole)
    }
}

/// Space in use on a disk of `total` bytes with `available` free, with `extra` bytes
/// added: `total - available` (0 if `available` exceeds `total`) plus `extra`.
pub open spec fn disk_used(total: u64, available: u64, extra: u64) -> int {
    (if available > total { 0 } else { total - available }) + extra
}

pub fn percent(part: u64, whole: u64) -> (r: u64)
    ensures
        r == percent_of(part as int, whole as int),
{
    if whole == 0 {
        0
    } else {
        let p: u128 = part as u128;
        proof {
            assert(p * 10_000 <= u64::MAX * 10_000) by (nonlinear_arith)
                requires p <= u64::MAX;
        }
        let q: u128 = (p * 10_000) / (whole as u128);
        if q > u64::MAX as u128 {
            u64::MAX
        } else {
            q as u64
        }
    }
}

/// Disk usage in hundredths of a percent of `total`, counting `extra` bytes as used on
/// top of what the disk reports; 0 when `total` is 0.
pub fn disk_percent(total: u64, available: u64, extra: u64) -> (r: u64)
    ensures
        r == percent_of(disk_used(total, available, extra), total as int),
{
    if total == 0 {
        0
    } else {
        let base: u128 = if available > total {
            0
        } else {
            (total - available) as u128
        };
        let used: u128 = base + extra as u128;
        proof {
            assert(used * 10_000 <= (2 * u64::MAX as int) * 10_000) by (nonlinear_arith)
                requires used <= 2 * u64::MAX as int;
        }
        let q: u128 = (used * 10_000) / (total as u128);
        if q > u64::MAX as u128 {
            u64::MAX
        } else {
            q as u64
        }
    }
}

/// A process's CPU usage spread over `cores` cores (same unit as `usage`, rounded
/// down); 0 when `cores` is 0.
pub fn cpu_share(usage: u64, cores: u64) -> (r: u64)
    ensures
        r == (if cores == 0 { 0 } else { usage / cores }),
{
    if cores == 0 {
        0
    } else {
        usage / cores
    }
}

} // verus!
