use myemu::constants::{
    KEY_ENTER, KEY_ESCAPE, KEY_PAGE_DOWN, MOUSE_BUTTON_LEFT, MOUSE_BUTTON_MIDDLE,
    MOUSE_BUTTON_RIGHT,
};
use myemu::control::{button_code, hit_test_command, key_code, pointer_buttons};

#[test]
fn key_names_ignore_case() {
    assert_eq!(key_code("Enter"), Some(KEY_ENTER));
    assert_eq!(key_code("RETURN"), Some(KEY_ENTER));
    assert_eq!(key_code("esc"), Some(KEY_ESCAPE));
    assert_eq!(key_code("PageDown"), Some(KEY_PAGE_DOWN));
    assert_eq!(key_code("Q"), Some('q' as u32));
    assert_eq!(key_code("é"), Some('é' as u32));
    assert_eq!(key_code("nope"), None);
    assert_eq!(key_code(""), None);
}

#[test]
fn button_names() {
    assert_eq!(button_code(None), Ok(MOUSE_BUTTON_LEFT));
    assert_eq!(button_code(Some("right")), Ok(MOUSE_BUTTON_RIGHT));
    assert_eq!(button_code(Some("middle")), Ok(MOUSE_BUTTON_MIDDLE));
    assert_eq!(button_code(Some("Left")), Err("unknown mouse button: Left".to_string()));
}

#[test]
fn hit_test_packs_coordinates() {
    assert_eq!(hit_test_command(3, 5), Ok(0x2000_0000 | (3 << 14) | 5));
    assert_eq!(hit_test_command(0x3FFF, 0x3FFF), Ok(0x2FFF_FFFF));
    assert_eq!(
        hit_test_command(0x4000, 0),
        Err("coordinates exceed automation bridge range".to_string())
    );
}

#[test]
fn pointer_buttons_press_and_release() {
    let b = pointer_buttons(0, true, MOUSE_BUTTON_LEFT);
    let b = pointer_buttons(b, true, MOUSE_BUTTON_RIGHT);
    assert_eq!(b, MOUSE_BUTTON_LEFT | MOUSE_BUTTON_RIGHT);
    assert_eq!(pointer_buttons(b, false, MOUSE_BUTTON_LEFT), MOUSE_BUTTON_RIGHT);
}
