use myemu::constants::{
    KBD_EVENT_QUEUE_DEPTH, KBD_EVT_CHAR, KBD_EVT_DOWN, KBD_EVT_UP, KBD_MOD_SHIFT, KEY_BACKSPACE,
    KEY_DELETE, KEY_ENTER, KEY_ESCAPE, KEY_F1, KEY_SHIFT, KEY_SPACE, KEY_TAB,
};
use myemu::machine::keyboard::{key_code, HostKey, HostKeyCallback, KeyEvent, KeyboardDevice};

#[test]
fn shifted_keystroke_orders_down_char_up() {
    let mut cb = HostKeyCallback::new();
    cb.set_key_state(HostKey::LeftShift, true);
    cb.set_key_state(HostKey::A, true);
    cb.add_char('A' as u32);
    cb.set_key_state(HostKey::A, false);
    cb.set_key_state(HostKey::LeftShift, false);
    let events: Vec<KeyEvent> = cb.take_events();
    assert_eq!(events.len(), 5);
    assert_eq!(events[1], KeyEvent { kind: KBD_EVT_DOWN, code: 'a' as u32, mods: KBD_MOD_SHIFT });
    assert_eq!(events[2], KeyEvent { kind: KBD_EVT_CHAR, code: 'A' as u32, mods: KBD_MOD_SHIFT });
    assert_eq!(events[3].kind, KBD_EVT_UP);
    assert_eq!(events[4].mods, 0, "shift released clears the modifier");
}

#[test]
fn control_characters_are_not_text() {
    let mut cb = HostKeyCallback::new();
    cb.add_char('\r' as u32);
    cb.add_char(8);
    cb.add_char('x' as u32);
    assert_eq!(cb.take_events().len(), 1);
}

#[test]
fn overflow_keeps_newest() {
    let mut dev = KeyboardDevice::new();
    for i in 0..(KBD_EVENT_QUEUE_DEPTH as u32 + 3) {
        dev.push(KeyEvent { kind: KBD_EVT_CHAR, code: i, mods: 0 });
    }
    assert_eq!(dev.event_count(), KBD_EVENT_QUEUE_DEPTH as u32);
    assert_eq!(dev.head().code, 3);
    assert_eq!(dev.dropped, 3);
}

#[test]
fn keyboard_fifo_pops_in_arrival_order() {
    let mut dev = KeyboardDevice::new();
    assert_eq!(dev.head(), KeyEvent { kind: 0, code: 0, mods: 0 });
    dev.push(KeyEvent { kind: KBD_EVT_DOWN, code: 1, mods: 0 });
    dev.push(KeyEvent { kind: KBD_EVT_UP, code: 2, mods: 0 });
    assert_eq!(dev.head().code, 1);
    dev.pop();
    assert_eq!(dev.head().code, 2);
    dev.pop();
    assert_eq!(dev.event_count(), 0);
    dev.pop();
    assert_eq!(dev.event_count(), 0);
}

#[test]
fn host_keys_map_to_guest_codes() {
    assert_eq!(key_code(HostKey::Z), Some('z' as u32));
    assert_eq!(key_code(HostKey::NumPad7), Some('7' as u32));
    assert_eq!(key_code(HostKey::Enter), Some(KEY_ENTER));
    assert_eq!(key_code(HostKey::RightShift), Some(KEY_SHIFT));
    assert_eq!(key_code(HostKey::F3), Some(KEY_F1 + 2));
    assert_eq!(key_code(HostKey::Other), None);
}

#[test]
fn unknown_host_keys_are_ignored() {
    let mut cb = HostKeyCallback::new();
    cb.set_key_state(HostKey::Other, true);
    assert!(cb.take_events().is_empty());
}

#[test]
fn only_printable_keys_use_codes_below_0x100() {
    for key in [HostKey::Enter, HostKey::Backspace, HostKey::Tab, HostKey::Escape, HostKey::Delete] {
        assert!(key_code(key).unwrap() >= 0x100);
    }
    assert_eq!(key_code(HostKey::Backspace), Some(KEY_BACKSPACE));
    assert_eq!(key_code(HostKey::Tab), Some(KEY_TAB));
    assert_eq!(key_code(HostKey::Escape), Some(KEY_ESCAPE));
    assert_eq!(key_code(HostKey::Delete), Some(KEY_DELETE));
    assert_eq!(key_code(HostKey::Space), Some(KEY_SPACE));
    assert_eq!(KEY_SPACE, ' ' as u32);
    assert_eq!(key_code(HostKey::A), Some(0x61));
}
