// Real-time timer. Fires once at least a period of wall-clock time has elapsed
// since the last fire, independent of how many instructions the CPU executed,
// so the guest can idle in WFI without stalling it.
//
// A purely wall-clock timer starves the guest when a handler outlasts the
// period, so a tick also waits for the guest to retire MIN_INSTRS_PER_TICK
// instructions since the last one: a tick is delayed, never denied. The floor
// applies only while the CPU executes; a guest parked in WFI retires nothing
// and the tick is what wakes it.
use std::time::Instant;

use vstd::prelude::*;

verus! {

/// Instructions the guest must retire between two ticks while it is running.
pub const MIN_INSTRS_PER_TICK: u64 = 200_000;

/// A reading of std's monotonic clock (`std::time::Instant`), carried
/// through as an opaque value.
#[verifier::external_type_specification]
#[verifier::external_body]
pub struct ExInstant(Instant);

/// Reads the monotonic clock (`Instant::now`). Nothing is stated of the
/// reading: it depends on when the call is made.
#[verifier::external_body]
fn clock_now() -> Instant {
    Instant::now()
}

/// Nanoseconds since `since` on the monotonic clock (`Instant::elapsed`).
/// The value depends on when it is called, so nothing is stated of it.
#[verifier::external_body]
fn nanos_since(since: &Instant) -> u128 {
    since.elapsed().as_nanos()
}

/// The tick source. Times are nanoseconds since the device was created.
pub struct TimerDevice {
    // Microseconds between ticks; None disables the timer.
    pub period_us: Option<u64>,
    pub epoch: Instant,
    pub last_fire: u128,
    pub instrs_at_last_fire: u64,
}

/// The abstract state of the timer.
pub struct TimerState {
    pub period_us: Option<u64>,
    pub last_fire: u128,
    pub instrs_at_last_fire: u64,
}

impl View for TimerDevice {
    type V = TimerState;

    open spec fn view(&self) -> TimerState {
        TimerState {
            period_us: self.period_us,
            last_fire: self.last_fire,
            instrs_at_last_fire: self.instrs_at_last_fire,
        }
    }
}

/// A period in nanoseconds.
pub open spec fn period_nanos(us: u64) -> int {
    us as int * 1000
}

/// Whether a tick is due at `now`: a full period has passed since the last
/// one and either the CPU is idle or it retired its quota of instructions.
pub open spec fn tick_due(t: TimerState, now: u128, instrs_retired: u64, cpu_idle: bool) -> bool {
    match t.period_us {
        None => false,
        Some(p) => {
            &&& now as int - t.last_fire as int >= period_nanos(p)
            &&& (cpu_idle || instrs_retired as int - t.instrs_at_last_fire as int
                >= MIN_INSTRS_PER_TICK as int)
        },
    }
}

/// The state after a tick at `now`: the last fire advances by exactly one
/// period, so late servicing yields catch-up ticks instead of stretching the
/// period, unless that leaves it more than 32 periods behind, in which case it
/// resynchronises to `now`.
pub open spec fn after_tick(t: TimerState, now: u128, instrs_retired: u64) -> TimerState {
    let p = period_nanos(t.period_us->0);
    let advanced = t.last_fire as int + p;
    TimerState {
        last_fire: if now as int - advanced > 32 * p {
            now
        } else {
            advanced as u128
        },
        instrs_at_last_fire: instrs_retired,
        ..t
    }
}

/// The state after the period was set to `micros` (0 disables the timer)
/// at time `now`: the next tick is a full period from `now`.
pub open spec fn with_period(t: TimerState, micros: u64, now: u128) -> TimerState {
    TimerState {
        period_us: if micros == 0 {
            None
        } else {
            Some(micros)
        },
        last_fire: now,
        ..t
    }
}

/// Nanoseconds from `now` until the next tick is due (0 if overdue), or
/// None when the timer is disabled.
pub open spec fn time_until_next_of(t: TimerState, now: u128) -> Option<u128> {
    match t.period_us {
        None => None,
        Some(p) => Some(
            if t.last_fire as int + period_nanos(p) > now as int {
                (t.last_fire as int + period_nanos(p) - (if now >= t.last_fire {
                    now as int
                } else {
                    t.last_fire as int
                })) as u128
            } else {
                0u128
            },
        ),
    }
}

impl TimerDevice {
    /// A 1 ms period, last fired at creation.
    pub fn new() -> (r: Self)
        ensures
            r@.period_us == Some(1000u64),
            r@.last_fire == 0,
            r@.instrs_at_last_fire == 0,
    {
        Self { period_us: Some(1000), epoch: clock_now(), last_fire: 0, instrs_at_last_fire: 0 }
    }

    /// Sets the tick period from a microsecond count; 0 disables the timer.
    /// The next tick is a full period from now.
    pub fn set_period_micros(&mut self, micros: u64)
        ensures
            exists|now: u128| final(self)@ == with_period(old(self)@, micros, now),
    {
        let now = nanos_since(&self.epoch);
        self.set_period_micros_at(micros, now);
    }

    /// `set_period_micros` with the current time given.
    pub fn set_period_micros_at(&mut self, micros: u64, now: u128)
        ensures
            final(self)@ == with_period(old(self)@, micros, now),
    {
        if micros == 0 {
            self.period_us = None;
        } else {
            self.period_us = Some(micros);
        }
        self.last_fire = now;
    }

    /// The configured tick period in microseconds, or None when disabled.
    pub fn period(&self) -> (r: Option<u64>)
        ensures
            r == self@.period_us,
    {
        self.period_us
    }

    /// Fires (returns true) if a tick is due now; at most one tick per call.
    pub fn service(&mut self, instrs_retired: u64, cpu_idle: bool) -> (r: bool)
        ensures
            exists|now: u128|
                {
                    &&& r == tick_due(old(self)@, now, instrs_retired, cpu_idle)
                    &&& final(self)@ == if r {
                        after_tick(old(self)@, now, instrs_retired)
                    } else {
                        old(self)@
                    }
                },
    {
        let now = nanos_since(&self.epoch);
        self.service_at(now, instrs_retired, cpu_idle)
    }

    /// `service` at time `now`.
    pub fn service_at(&mut self, now: u128, instrs_retired: u64, cpu_idle: bool) -> (r: bool)
        ensures
            r == tick_due(old(self)@, now, instrs_retired, cpu_idle),
            final(self)@ == if r {
                after_tick(old(self)@, now, instrs_retired)
            } else {
                old(self)@
            },
    {
        match self.period_us {
            None => false,
            Some(p) => {
                let period: u128 = (p as u128) * 1000;
                if now >= self.last_fire && now - self.last_fire >= period {
                    // Hold the tick back until the guest has actually run.
                    if !cpu_idle && instrs_retired.saturating_sub(self.instrs_at_last_fire)
                        < MIN_INSTRS_PER_TICK {
                        return false;
                    }
                    self.last_fire = self.last_fire + period;
                    if now - self.last_fire > period * 32 {
                        self.last_fire = now;
                    }
                    self.instrs_at_last_fire = instrs_retired;
                    true
                } else {
                    false
                }
            },
        }
    }

    /// Nanoseconds until the next tick is due (0 if overdue), or None when disabled.
    pub fn time_until_next(&self) -> (r: Option<u128>)
        ensures
            exists|now: u128| r == time_until_next_of(self@, now),
    {
        let now = nanos_since(&self.epoch);
        self.time_until_next_at(now)
    }

    /// `time_until_next` at time `now`.
    pub fn time_until_next_at(&self, now: u128) -> (r: Option<u128>)
        ensures
            r == time_until_next_of(self@, now),
    {
        match self.period_us {
            None => None,
            Some(p) => {
                let period: u128 = (p as u128) * 1000;
                let elapsed = if now >= self.last_fire {
                    now - self.last_fire
                } else {
                    0
                };
                Some(
                    if period > elapsed {
                        period - elapsed
                    } else {
                        0
                    },
                )
            },
        }
    }
}

/// A disabled timer never fires.
pub proof fn lemma_disabled_never_fires(t: TimerState, now: u128, instrs: u64, idle: bool)
    requires
        t.period_us is None,
    ensures
        !tick_due(t, now, instrs, idle),
{
}

/// An idle CPU gets its tick as soon as a period has passed, whatever it retired.
pub proof fn lemma_idle_cpu_is_exempt(t: TimerState, now: u128, instrs: u64)
    requires
        t.period_us is Some,
        now as int - t.last_fire as int >= period_nanos(t.period_us->0),
    ensures
        tick_due(t, now, instrs, true),
{
}

/// A tick is delayed, never denied: once the period has passed, a running CPU
/// that has retired its quota gets the tick.
pub proof fn lemma_tick_after_quota(t: TimerState, now: u128, instrs: u64)
    requires
        t.period_us is Some,
        now as int - t.last_fire as int >= period_nanos(t.period_us->0),
        instrs as int - t.instrs_at_last_fire as int >= MIN_INSTRS_PER_TICK as int,
    ensures
        tick_due(t, now, instrs, false),
{
}

/// A tick at most 32 periods late advances the schedule by exactly one period,
/// so a poll that is one period or more behind is followed by a catch-up tick.
pub proof fn lemma_late_tick_catches_up(t: TimerState, now: u128, instrs: u64, idle: bool)
    requires
        tick_due(t, now, instrs, idle),
        now as int - t.last_fire as int <= 33 * period_nanos(t.period_us->0),
    ensures
        after_tick(t, now, instrs).last_fire == t.last_fire + period_nanos(t.period_us->0),
        now as int - t.last_fire as int >= 2 * period_nanos(t.period_us->0) ==> tick_due(
            after_tick(t, now, instrs),
            now,
            instrs,
            true,
        ),
{
}

} // verus!
