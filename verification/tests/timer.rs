use myemu::machine::timer::{TimerDevice, MIN_INSTRS_PER_TICK};

fn plenty(n: u64) -> u64 {
    n * MIN_INSTRS_PER_TICK
}

const MS: u128 = 1_000_000;

#[test]
fn late_service_catches_up_instead_of_stretching_the_period() {
    let mut t = TimerDevice::new();
    t.set_period_micros_at(10_000, 0);
    assert!(t.service_at(25 * MS, plenty(1), false), "first tick after a late poll");
    assert!(
        t.service_at(25 * MS, plenty(2), false),
        "the missed tick is delivered as an immediate catch-up tick"
    );
}

#[test]
fn an_idle_cpu_is_exempt_from_the_floor() {
    let mut t = TimerDevice::new();
    t.set_period_micros_at(1_000, 0);
    assert!(t.service_at(5 * MS, 0, true), "idle CPU still gets its tick");
}

#[test]
fn disabled_timer_never_fires() {
    let mut t = TimerDevice::new();
    t.set_period_micros(0);
    assert!(!t.service(plenty(1), false));
    assert!(t.time_until_next().is_none());
}

#[test]
fn a_tick_waits_for_the_guest_to_make_progress() {
    let mut t = TimerDevice::new();
    t.set_period_micros_at(1_000, 0);
    assert!(
        !t.service_at(5 * MS, MIN_INSTRS_PER_TICK - 1, false),
        "period elapsed, but the guest has not run its quota yet"
    );
    assert!(t.service_at(5 * MS, MIN_INSTRS_PER_TICK, false), "fires once the quota is met");
}

#[test]
fn next_tick_counts_down_and_resynchronises_when_far_behind() {
    let mut t = TimerDevice::new();
    t.set_period_micros_at(1_000, 0);
    assert_eq!(t.time_until_next_at(400_000), Some(600_000));
    assert_eq!(t.time_until_next_at(2 * MS), Some(0));
    // 100 periods late: the tick fires once and the schedule restarts at now.
    assert!(t.service_at(100 * MS, plenty(1), false));
    assert!(!t.service_at(100 * MS, plenty(2), false));
    assert_eq!(t.time_until_next_at(100 * MS), Some(MS));
}
