use myemu::constants::MOUSE_EVENT_QUEUE_DEPTH;
use myemu::machine::mouse::MouseDevice;

#[test]
fn press_and_release_between_reads_yield_two_events() {
    let mut m = MouseDevice::new();
    assert!(m.update(10, 20, 1), "press raises an IRQ");
    assert!(m.update(10, 20, 0), "release raises an IRQ");
    assert_eq!(m.event_count(), 2, "both transitions are queued");
    assert_eq!(m.head_event().buttons, 1, "press first");
    m.pop_event();
    assert_eq!(m.head_event().buttons, 0, "then release");
    m.pop_event();
    assert_eq!(m.event_count(), 0);
}

#[test]
fn unchanged_sample_queues_nothing() {
    let mut m = MouseDevice::new();
    m.update(5, 5, 0);
    assert!(!m.update(5, 5, 0));
    assert_eq!(m.event_count(), 1);
}

#[test]
fn overflow_drops_oldest_and_keeps_newest() {
    let mut m = MouseDevice::new();
    for i in 0..(MOUSE_EVENT_QUEUE_DEPTH as u32 + 8) {
        m.update(i, 0, 0);
    }
    assert_eq!(m.event_count(), MOUSE_EVENT_QUEUE_DEPTH as u32);
    assert_eq!(m.head_event().x, 8, "the oldest entries were dropped");
    for _ in 0..MOUSE_EVENT_QUEUE_DEPTH - 1 {
        m.pop_event();
    }
    assert_eq!(m.head_event().x, MOUSE_EVENT_QUEUE_DEPTH as u32 + 7);
}

#[test]
fn empty_fifo_reads_the_live_state() {
    let mut m = MouseDevice::new();
    m.update(7, 9, 2);
    m.pop_event();
    let e = m.head_event();
    assert_eq!((e.x, e.y, e.buttons), (7, 9, 2));
}
