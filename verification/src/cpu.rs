//! Integer side of the CPU and memory samples.
//!
//! Processor times are 64-bit tick counts assembled from two 32-bit halves.
//! Utilisation is the busy share of the ticks that elapsed between two
//! readings: kernel time includes idle time, so busy ticks are kernel plus
//! user ticks minus idle ticks. All differences saturate at zero and sums at
//! `u64::MAX`, as counters that went backwards or overflowed must not wrap.

use vstd::prelude::*;

verus! {

/// Cumulative idle, kernel and user ticks of all processors.
#[derive(Debug, Clone, Copy, PartialEq, Eq, Structural)]
pub struct CpuTimes {
    pub idle: u64,
    pub kernel: u64,
    pub user: u64,
}

/// Ticks that elapsed between two readings, and how many of them were busy.
#[derive(Debug, Clone, Copy, PartialEq, Eq, Structural)]
pub struct CpuDelta {
    pub busy: u64,
    pub total: u64,
}

/// Physical memory in use and installed, in bytes.
#[derive(Debug, Clone, Copy, PartialEq, Eq, Structural)]
pub struct MemorySample {
    pub used_bytes: u64,
    pub total_bytes: u64,
}

/// `a - b`, or zero when `b` exceeds `a`.
pub open spec fn sat_sub(a: u64, b: u64) -> u64 {
    if a >= b {
        (a - b) as u64
    } else {
        0
    }
}

/// `a + b`, or `u64::MAX` when the sum does not fit.
pub open spec fn sat_add(a: u64, b: u64) -> u64 {
    if a + b <= u64::MAX {
        (a + b) as u64
    } else {
        u64::MAX
    }
}

/// The elapsed and busy ticks between `previous` and `current`.
pub open spec fn spec_cpu_delta(previous: CpuTimes, current: CpuTimes) -> CpuDelta {
    let idle: u64 = sat_sub(current.idle, previous.idle);
    let kernel: u64 = sat_sub(current.kernel, previous.kernel);
    let user: u64 = sat_sub(current.user, previous.user);
    let total: u64 = sat_add(kernel, user);
    CpuDelta { busy: sat_sub(total, idle), total }
}

/// Every counter moved forward and the kernel plus user ticks that elapsed
/// fit in 64 bits.
pub open spec fn counters_advanced(previous: CpuTimes, current: CpuTimes) -> bool {
    &&& previous.idle <= current.idle
    &&& previous.kernel <= current.kernel
    &&& previous.user <= current.user
    &&& (current.kernel - previous.kernel) + (current.user - previous.user) <= u64::MAX
}

/// Kernel plus user ticks between two readings, on the full 64-bit counts.
pub open spec fn elapsed(previous: CpuTimes, current: CpuTimes) -> int {
    (current.kernel - previous.kernel) + (current.user - previous.user)
}

/// Idle ticks between two readings, on the full 64-bit counts.
pub open spec fn idle_ticks(previous: CpuTimes, current: CpuTimes) -> int {
    current.idle - previous.idle
}

/// The 64-bit value of a tick count given as its high and low 32-bit halves.
pub fn filetime_value(high: u32, low: u32) -> (r: u64)
    ensures
        r == high as nat * 4294967296 + low as nat,
{
    let r: u64 = ((high as u64) << 32u64) | (low as u64);
    assert(((high as u64) << 32u64) | (low as u64) == (high as u64) * 4294967296 + (low as u64))
        by (bit_vector);
    r
}

/// Elapsed and busy ticks between two readings.
pub fn cpu_delta(previous: CpuTimes, current: CpuTimes) -> (d: CpuDelta)
    ensures
        d == spec_cpu_delta(previous, current),
        d.busy <= d.total,
        d.total == 0 ==> d.busy == 0,
        counters_advanced(previous, current) ==> d.total == elapsed(previous, current),
        counters_advanced(previous, current) && idle_ticks(previous, current) <= elapsed(
            previous,
            current,
        ) ==> d.busy == elapsed(previous, current) - idle_ticks(previous, current),
        counters_advanced(previous, current) && idle_ticks(previous, current) > elapsed(
            previous,
            current,
        ) ==> d.busy == 0,
{
    let idle: u64 = current.idle.saturating_sub(previous.idle);
    let kernel: u64 = current.kernel.saturating_sub(previous.kernel);
    let user: u64 = current.user.saturating_sub(previous.user);
    let total: u64 = kernel.saturating_add(user);
    CpuDelta { busy: total.saturating_sub(idle), total }
}

/// Memory in use: installed memory less available memory, never negative.
pub fn memory_sample(total_phys: u64, avail_phys: u64) -> (m: MemorySample)
    ensures
        m.total_bytes == total_phys,
        m.used_bytes == sat_sub(total_phys, avail_phys),
        m.used_bytes <= m.total_bytes,
        avail_phys <= total_phys ==> m.used_bytes + avail_phys == total_phys,
        avail_phys > total_phys ==> m.used_bytes == 0,
{
    MemorySample { used_bytes: total_phys.saturating_sub(avail_phys), total_bytes: total_phys }
}

/// Remembers the previous processor reading so that each new one can be
/// turned into a utilisation interval.
pub struct CpuTracker {
    pub previous: Option<CpuTimes>,
}

impl CpuTracker {
    /// A tracker that has seen no reading yet.
    pub fn new() -> (t: CpuTracker)
        ensures
            t.previous is None,
    {
        CpuTracker { previous: None }
    }

    /// Records `current` and returns the interval since the previous reading;
    /// `None` for the first reading.
    pub fn observe(&mut self, current: CpuTimes) -> (d: Option<CpuDelta>)
        ensures
            d == (match old(self).previous {
                Some(p) => Some(spec_cpu_delta(p, current)),
                None => None::<CpuDelta>,
            }),
            final(self).previous == Some(current),
    {
        let d = match self.previous {
            Some(p) => Some(cpu_delta(p, current)),
            None => None,
        };
        self.previous = Some(current);
        d
    }
}

/// When the counters moved forward, the elapsed ticks are the kernel plus
/// user ticks that passed, and the busy ticks are those less the idle ticks
/// that passed (none when idle time outran them), all on the full 64-bit
/// counts. Any counter that went backwards counts as not having moved.
pub proof fn lemma_delta_counts_ticks(previous: CpuTimes, current: CpuTimes)
    ensures
        counters_advanced(previous, current) ==> spec_cpu_delta(previous, current).total
            == elapsed(previous, current),
        counters_advanced(previous, current) && idle_ticks(previous, current) <= elapsed(
            previous,
            current,
        ) ==> spec_cpu_delta(previous, current).busy == elapsed(previous, current) - idle_ticks(
            previous,
            current,
        ),
        counters_advanced(previous, current) && idle_ticks(previous, current) > elapsed(
            previous,
            current,
        ) ==> spec_cpu_delta(previous, current).busy == 0,
        current.kernel < previous.kernel && current.user < previous.user ==> spec_cpu_delta(
            previous,
            current,
        ).total == 0,
        current.idle <= previous.idle ==> spec_cpu_delta(previous, current).busy == spec_cpu_delta(
            previous,
            current,
        ).total,
{
}

/// An interval never has more busy ticks than elapsed ticks, and a reading
/// measured against itself has no elapsed ticks.
pub proof fn lemma_busy_within_total(previous: CpuTimes, current: CpuTimes)
    ensures
        spec_cpu_delta(previous, current).busy <= spec_cpu_delta(previous, current).total,
        spec_cpu_delta(current, current).total == 0,
        spec_cpu_delta(current, current).busy == 0,
{
}

} // verus!
