// Accounting for the host side of the display and input path: how long each
// host call took and how often it ran, how far apart frames were, how deep
// the pointer FIFO got and how long the guest slept in WFI. Times are
// nanoseconds on the host's monotonic clock; sums wrap at 2^128 and counts
// at 2^64.
use vstd::prelude::*;

verus! {

/// `a + b` modulo 2^128.
pub open spec fn wrap128(a: u128, b: u128) -> u128 {
    if a + b > u128::MAX {
        (a + b - 0x1_0000_0000_0000_0000_0000_0000_0000_0000) as u128
    } else {
        (a + b) as u128
    }
}

/// `a + 1` modulo 2^64.
pub open spec fn inc64(a: u64) -> u64 {
    if a == u64::MAX {
        0
    } else {
        (a + 1) as u64
    }
}

/// The larger of two durations.
pub open spec fn max128(a: u128, b: u128) -> u128 {
    if b > a {
        b
    } else {
        a
    }
}

/// `later - earlier`, or 0 if the clock went backwards.
pub open spec fn elapsed(earlier: u128, later: u128) -> u128 {
    if later >= earlier {
        (later - earlier) as u128
    } else {
        0
    }
}

/// How long a live latency window lasts before it starts over.
pub const LIVE_WINDOW_NS: u128 = 1_000_000_000;

#[derive(Clone, Copy, Debug, PartialEq, Eq, Structural)]
pub struct IoStats {
    /// When accounting started.
    pub run_started: Option<u128>,
    pub win_update_ns: u128,
    pub win_update_calls: u64,
    pub scanout_ns: u128,
    pub scanout_calls: u64,
    pub mouse_read_ns: u128,
    pub mouse_read_calls: u64,
    /// Total and worst gap between successive scan-outs.
    pub scanout_gap_ns: u128,
    pub scanout_gap_max_ns: u128,
    pub last_scanout: Option<u128>,
    /// Pointer FIFO depth seen at each pop, and how long popped events had
    /// waited.
    pub evt_queue_depth_sum: u128,
    pub evt_queue_depth_max: u32,
    pub evt_queue_samples: u64,
    pub evt_latency_ns: u128,
    pub evt_latency_max_ns: u128,
    pub evt_latency_samples: u64,
    pub evt_dropped: u64,
    /// A rolling window of the latency, restarted every second.
    pub live_window_start: Option<u128>,
    pub live_lat_ns: u128,
    pub live_lat_max_ns: u128,
    pub live_samples: u64,
    /// Frames the guest finished, and the time between them.
    pub guest_swaps: u64,
    pub last_swap: Option<u128>,
    pub swap_gap_ns: u128,
    pub swap_gap_max_ns: u128,
    /// Host sleeps while the guest waited for an interrupt.
    pub wfi_sleep_ns: u128,
    pub wfi_sleeps: u64,
    pub wfi_sleep_max_ns: u128,
    /// Guest instructions retired between presents.
    pub instrs_at_last_swap: u64,
    pub instrs_per_frame_sum: u128,
    pub instrs_per_frame_max: u64,
}

impl IoStats {
    /// Accounting that started at `now`, with nothing recorded yet.
    pub open spec fn started_at(now: u128) -> IoStats {
        IoStats {
            run_started: Some(now),
            win_update_ns: 0,
            win_update_calls: 0,
            scanout_ns: 0,
            scanout_calls: 0,
            mouse_read_ns: 0,
            mouse_read_calls: 0,
            scanout_gap_ns: 0,
            scanout_gap_max_ns: 0,
            last_scanout: None,
            evt_queue_depth_sum: 0,
            evt_queue_depth_max: 0,
            evt_queue_samples: 0,
            evt_latency_ns: 0,
            evt_latency_max_ns: 0,
            evt_latency_samples: 0,
            evt_dropped: 0,
            live_window_start: None,
            live_lat_ns: 0,
            live_lat_max_ns: 0,
            live_samples: 0,
            guest_swaps: 0,
            last_swap: None,
            swap_gap_ns: 0,
            swap_gap_max_ns: 0,
            wfi_sleep_ns: 0,
            wfi_sleeps: 0,
            wfi_sleep_max_ns: 0,
            instrs_at_last_swap: 0,
            instrs_per_frame_sum: 0,
            instrs_per_frame_max: 0,
        }
    }

    /// After a scan-out that took `ns` and finished at `now`.
    pub open spec fn after_scanout(self, ns: u128, now: u128) -> IoStats {
        let (gap_sum, gap_max) = match self.last_scanout {
            Some(prev) => (
                wrap128(self.scanout_gap_ns, elapsed(prev, now)),
                max128(self.scanout_gap_max_ns, elapsed(prev, now)),
            ),
            None => (self.scanout_gap_ns, self.scanout_gap_max_ns),
        };
        IoStats {
            scanout_ns: wrap128(self.scanout_ns, ns),
            scanout_calls: inc64(self.scanout_calls),
            scanout_gap_ns: gap_sum,
            scanout_gap_max_ns: gap_max,
            last_scanout: Some(now),
            ..self
        }
    }

    /// After the guest presented a frame at `now`, `retired` instructions
    /// into the run.
    pub open spec fn after_swap(self, retired: u64, now: u128) -> IoStats {
        let d: u64 = if retired >= self.instrs_at_last_swap {
            (retired - self.instrs_at_last_swap) as u64
        } else {
            0
        };
        let (work_sum, work_max) = if self.guest_swaps > 0 {
            (
                wrap128(self.instrs_per_frame_sum, d as u128),
                if d > self.instrs_per_frame_max {
                    d
                } else {
                    self.instrs_per_frame_max
                },
            )
        } else {
            (self.instrs_per_frame_sum, self.instrs_per_frame_max)
        };
        let (gap_sum, gap_max) = match self.last_swap {
            Some(prev) => (
                wrap128(self.swap_gap_ns, elapsed(prev, now)),
                max128(self.swap_gap_max_ns, elapsed(prev, now)),
            ),
            None => (self.swap_gap_ns, self.swap_gap_max_ns),
        };
        IoStats {
            instrs_per_frame_sum: work_sum,
            instrs_per_frame_max: work_max,
            instrs_at_last_swap: retired,
            guest_swaps: inc64(self.guest_swaps),
            swap_gap_ns: gap_sum,
            swap_gap_max_ns: gap_max,
            last_swap: Some(now),
            ..self
        }
    }

    /// After the guest popped a pointer event at `now` from a FIFO `depth`
    /// deep, with `dropped` events lost to overflow so far; `waited` is how
    /// long the popped event had been queued, when known.
    pub open spec fn after_event_pop(self, depth: u32, dropped: u64, waited: Option<u128>, now: u128) -> IoStats {
        let s = IoStats {
            evt_queue_depth_sum: wrap128(self.evt_queue_depth_sum, depth as u128),
            evt_queue_samples: inc64(self.evt_queue_samples),
            evt_queue_depth_max: if depth > self.evt_queue_depth_max {
                depth
            } else {
                self.evt_queue_depth_max
            },
            evt_dropped: dropped,
            ..self
        };
        match waited {
            None => s,
            Some(ns) => {
                let start = match s.live_window_start {
                    Some(t) => t,
                    None => now,
                };
                let t = IoStats {
                    evt_latency_ns: wrap128(s.evt_latency_ns, ns),
                    evt_latency_samples: inc64(s.evt_latency_samples),
                    evt_latency_max_ns: max128(s.evt_latency_max_ns, ns),
                    live_lat_ns: wrap128(s.live_lat_ns, ns),
                    live_samples: inc64(s.live_samples),
                    live_lat_max_ns: max128(s.live_lat_max_ns, ns),
                    live_window_start: Some(start),
                    ..s
                };
                if elapsed(start, now) >= LIVE_WINDOW_NS {
                    IoStats {
                        live_window_start: Some(now),
                        live_lat_ns: 0,
                        live_lat_max_ns: 0,
                        live_samples: 0,
                        ..t
                    }
                } else {
                    t
                }
            },
        }
    }

    /// Accounting that starts at `now`.
    pub fn new(now: u128) -> (r: IoStats)
        ensures
            r == IoStats::started_at(now),
    {
        IoStats {
            run_started: Some(now),
            win_update_ns: 0,
            win_update_calls: 0,
            scanout_ns: 0,
            scanout_calls: 0,
            mouse_read_ns: 0,
            mouse_read_calls: 0,
            scanout_gap_ns: 0,
            scanout_gap_max_ns: 0,
            last_scanout: None,
            evt_queue_depth_sum: 0,
            evt_queue_depth_max: 0,
            evt_queue_samples: 0,
            evt_latency_ns: 0,
            evt_latency_max_ns: 0,
            evt_latency_samples: 0,
            evt_dropped: 0,
            live_window_start: None,
            live_lat_ns: 0,
            live_lat_max_ns: 0,
            live_samples: 0,
            guest_swaps: 0,
            last_swap: None,
            swap_gap_ns: 0,
            swap_gap_max_ns: 0,
            wfi_sleep_ns: 0,
            wfi_sleeps: 0,
            wfi_sleep_max_ns: 0,
            instrs_at_last_swap: 0,
            instrs_per_frame_sum: 0,
            instrs_per_frame_max: 0,
        }
    }

    /// Records a pump of the host window's event queue that took `ns`.
    pub fn record_window_update(&mut self, ns: u128)
        ensures
            *final(self) == (IoStats {
                win_update_ns: wrap128(old(self).win_update_ns, ns),
                win_update_calls: inc64(old(self).win_update_calls),
                ..*old(self)
            }),
    {
        self.win_update_ns = self.win_update_ns.wrapping_add(ns);
        self.win_update_calls = self.win_update_calls.wrapping_add(1);
    }

    /// Records a pointer read that took `ns`.
    pub fn record_mouse_read(&mut self, ns: u128)
        ensures
            *final(self) == (IoStats {
                mouse_read_ns: wrap128(old(self).mouse_read_ns, ns),
                mouse_read_calls: inc64(old(self).mouse_read_calls),
                ..*old(self)
            }),
    {
        self.mouse_read_ns = self.mouse_read_ns.wrapping_add(ns);
        self.mouse_read_calls = self.mouse_read_calls.wrapping_add(1);
    }

    /// Records a host sleep of `ns` while the guest waited for an interrupt.
    pub fn record_wfi_sleep(&mut self, ns: u128)
        ensures
            *final(self) == (IoStats {
                wfi_sleep_ns: wrap128(old(self).wfi_sleep_ns, ns),
                wfi_sleeps: inc64(old(self).wfi_sleeps),
                wfi_sleep_max_ns: max128(old(self).wfi_sleep_max_ns, ns),
                ..*old(self)
            }),
    {
        self.wfi_sleep_ns = self.wfi_sleep_ns.wrapping_add(ns);
        self.wfi_sleeps = self.wfi_sleeps.wrapping_add(1);
        if ns > self.wfi_sleep_max_ns {
            self.wfi_sleep_max_ns = ns;
        }
    }

    /// Records a scan-out (see `after_scanout`).
    pub fn record_scanout(&mut self, ns: u128, now: u128)
        ensures
            *final(self) == old(self).after_scanout(ns, now),
    {
        self.scanout_ns = self.scanout_ns.wrapping_add(ns);
        self.scanout_calls = self.scanout_calls.wrapping_add(1);
        match self.last_scanout {
            Some(prev) => {
                let gap = if now >= prev {
                    now - prev
                } else {
                    0
                };
                self.scanout_gap_ns = self.scanout_gap_ns.wrapping_add(gap);
                if gap > self.scanout_gap_max_ns {
                    self.scanout_gap_max_ns = gap;
                }
            },
            None => {},
        }
        self.last_scanout = Some(now);
    }

    /// Records a present by the guest (see `after_swap`).
    pub fn record_swap(&mut self, retired: u64, now: u128)
        ensures
            *final(self) == old(self).after_swap(retired, now),
    {
        if self.guest_swaps > 0 {
            let d = retired.saturating_sub(self.instrs_at_last_swap);
            self.instrs_per_frame_sum = self.instrs_per_frame_sum.wrapping_add(d as u128);
            if d > self.instrs_per_frame_max {
                self.instrs_per_frame_max = d;
            }
        }
        self.instrs_at_last_swap = retired;
        self.guest_swaps = self.guest_swaps.wrapping_add(1);
        match self.last_swap {
            Some(prev) => {
                let gap = if now >= prev {
                    now - prev
                } else {
                    0
                };
                self.swap_gap_ns = self.swap_gap_ns.wrapping_add(gap);
                if gap > self.swap_gap_max_ns {
                    self.swap_gap_max_ns = gap;
                }
            },
            None => {},
        }
        self.last_swap = Some(now);
    }

    /// Records a pointer-event pop (see `after_event_pop`).
    pub fn record_event_pop(&mut self, depth: u32, dropped: u64, waited: Option<u128>, now: u128)
        ensures
            *final(self) == old(self).after_event_pop(depth, dropped, waited, now),
    {
        self.evt_queue_depth_sum = self.evt_queue_depth_sum.wrapping_add(depth as u128);
        self.evt_queue_samples = self.evt_queue_samples.wrapping_add(1);
        if depth > self.evt_queue_depth_max {
            self.evt_queue_depth_max = depth;
        }
        self.evt_dropped = dropped;
        match waited {
            Some(ns) => {
                self.evt_latency_ns = self.evt_latency_ns.wrapping_add(ns);
                self.evt_latency_samples = self.evt_latency_samples.wrapping_add(1);
                if ns > self.evt_latency_max_ns {
                    self.evt_latency_max_ns = ns;
                }
                self.live_lat_ns = self.live_lat_ns.wrapping_add(ns);
                self.live_samples = self.live_samples.wrapping_add(1);
                if ns > self.live_lat_max_ns {
                    self.live_lat_max_ns = ns;
                }
                let start = match self.live_window_start {
                    Some(t) => t,
                    None => now,
                };
                self.live_window_start = Some(start);
                let age = if now >= start {
                    now - start
                } else {
                    0
                };
                if age >= LIVE_WINDOW_NS {
                    self.live_window_start = Some(now);
                    self.live_lat_ns = 0;
                    self.live_lat_max_ns = 0;
                    self.live_samples = 0;
                }
            },
            None => {},
        }
    }
}

} // verus!
