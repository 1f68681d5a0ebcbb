use sysmon_companion::cpu::{cpu_delta, filetime_value, memory_sample, CpuDelta, CpuTimes, CpuTracker, MemorySample};

#[test]
fn filetime_joins_halves() {
    assert_eq!(filetime_value(0, 0), 0);
    assert_eq!(filetime_value(1, 2), 4_294_967_298);
    assert_eq!(filetime_value(0xFFFF_FFFF, 0xFFFF_FFFF), u64::MAX);
    assert_eq!(filetime_value(0x01DA_0000, 0x1234_5678), 0x01DA_0000_1234_5678);
}

#[test]
fn busy_is_kernel_plus_user_minus_idle() {
    let previous = CpuTimes { idle: 100, kernel: 300, user: 50 };
    let current = CpuTimes { idle: 160, kernel: 400, user: 90 };
    assert_eq!(cpu_delta(previous, current), CpuDelta { busy: 80, total: 140 });
}

#[test]
fn counters_going_backwards_saturate() {
    let previous = CpuTimes { idle: 500, kernel: 500, user: 500 };
    let current = CpuTimes { idle: 400, kernel: 450, user: 600 };
    assert_eq!(cpu_delta(previous, current), CpuDelta { busy: 100, total: 100 });
    let idle_heavy = CpuTimes { idle: 1000, kernel: 510, user: 500 };
    assert_eq!(cpu_delta(previous, idle_heavy), CpuDelta { busy: 0, total: 10 });
}

#[test]
fn sum_saturates_at_max() {
    let previous = CpuTimes { idle: 0, kernel: 0, user: 0 };
    let current = CpuTimes { idle: 0, kernel: u64::MAX, user: 5 };
    assert_eq!(cpu_delta(previous, current), CpuDelta { busy: u64::MAX, total: u64::MAX });
}

#[test]
fn no_elapsed_ticks_gives_zero() {
    let t = CpuTimes { idle: 7, kernel: 9, user: 3 };
    assert_eq!(cpu_delta(t, t), CpuDelta { busy: 0, total: 0 });
}

#[test]
fn tracker_measures_against_previous_reading() {
    let mut tracker = CpuTracker::new();
    let a = CpuTimes { idle: 10, kernel: 20, user: 5 };
    let b = CpuTimes { idle: 15, kernel: 30, user: 10 };
    let c = CpuTimes { idle: 15, kernel: 40, user: 20 };
    assert_eq!(tracker.observe(a), None);
    assert_eq!(tracker.observe(b), Some(CpuDelta { busy: 10, total: 15 }));
    assert_eq!(tracker.observe(c), Some(CpuDelta { busy: 20, total: 20 }));
    assert_eq!(tracker.previous, Some(c));
}

#[test]
fn memory_in_use() {
    assert_eq!(memory_sample(16_000, 6_000), MemorySample { used_bytes: 10_000, total_bytes: 16_000 });
    assert_eq!(memory_sample(100, 200), MemorySample { used_bytes: 0, total_bytes: 100 });
}
