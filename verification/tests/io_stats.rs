use myemu::machine::io_stats::IoStats;

#[test]
fn scanout_gaps_are_measured_between_frames() {
    let mut s = IoStats::new(0);
    s.record_scanout(100, 1_000);
    assert_eq!(s.scanout_gap_ns, 0);
    s.record_scanout(50, 17_000);
    assert_eq!(s.scanout_ns, 150);
    assert_eq!(s.scanout_calls, 2);
    assert_eq!(s.scanout_gap_ns, 16_000);
    assert_eq!(s.scanout_gap_max_ns, 16_000);
    assert_eq!(s.last_scanout, Some(17_000));
}

#[test]
fn frame_work_counts_from_the_second_present() {
    let mut s = IoStats::new(0);
    s.record_swap(1_000, 10);
    assert_eq!(s.instrs_per_frame_sum, 0);
    s.record_swap(4_000, 30);
    s.record_swap(5_000, 35);
    assert_eq!(s.guest_swaps, 3);
    assert_eq!(s.instrs_per_frame_sum, 4_000);
    assert_eq!(s.instrs_per_frame_max, 3_000);
    assert_eq!(s.swap_gap_ns, 25);
    assert_eq!(s.swap_gap_max_ns, 20);
}

#[test]
fn event_latency_window_restarts_after_a_second() {
    let mut s = IoStats::new(0);
    s.record_event_pop(3, 0, Some(500), 10);
    assert_eq!(s.live_window_start, Some(10));
    assert_eq!(s.live_samples, 1);
    s.record_event_pop(1, 2, Some(700), 1_000_000_010);
    assert_eq!(s.evt_latency_samples, 2);
    assert_eq!(s.evt_latency_max_ns, 700);
    assert_eq!(s.evt_queue_depth_sum, 4);
    assert_eq!(s.evt_queue_depth_max, 3);
    assert_eq!(s.evt_dropped, 2);
    assert_eq!(s.live_samples, 0);
    assert_eq!(s.live_window_start, Some(1_000_000_010));
}

#[test]
fn host_calls_and_sleeps_accumulate() {
    let mut s = IoStats::new(5);
    s.record_window_update(10);
    s.record_window_update(20);
    s.record_mouse_read(3);
    s.record_wfi_sleep(400);
    s.record_wfi_sleep(100);
    assert_eq!((s.win_update_ns, s.win_update_calls), (30, 2));
    assert_eq!((s.mouse_read_ns, s.mouse_read_calls), (3, 1));
    assert_eq!((s.wfi_sleep_ns, s.wfi_sleeps, s.wfi_sleep_max_ns), (500, 2, 400));
    assert_eq!(s.run_started, Some(5));
}
