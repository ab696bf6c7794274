// The decisions of the JSON-lines automation protocol: key names, mouse
// button names, pointer button state and the hit-test request word.
use vstd::prelude::*;
use vstd::string::StringExecFns;

use crate::cli::chars_of;
use crate::constants::{
    KEY_BACKSPACE, KEY_DELETE, KEY_DOWN, KEY_END, KEY_ENTER, KEY_ESCAPE, KEY_HOME, KEY_LEFT,
    KEY_PAGE_DOWN, KEY_PAGE_UP, KEY_RIGHT, KEY_SPACE, KEY_TAB, KEY_UP, MOUSE_BUTTON_LEFT,
    MOUSE_BUTTON_MIDDLE, MOUSE_BUTTON_RIGHT,
};

verus! {

/// Bridge command asking the guest for its DOM snapshot.
pub const BRIDGE_DOM_SNAPSHOT: u32 = 1;

/// Bridge command asking which element is at a point (coordinates below).
pub const BRIDGE_DOM_HIT_TEST: u32 = 0x2000_0000;

/// Instructions run per slice while a command waits for the guest.
pub const COMMAND_BUDGET: u64 = 100_000;

/// The code point of `c` with ASCII upper case folded to lower case.
pub open spec fn lower_code(c: char) -> u32 {
    if 'A' <= c && c <= 'Z' {
        ((c as u32) + 32) as u32
    } else {
        c as u32
    }
}

/// The code points of `s`, ASCII upper case folded to lower case.
pub open spec fn lowered(s: Seq<char>) -> Seq<u32> {
    s.map_values(|c: char| lower_code(c))
}

/// The code points of `s`.
pub open spec fn codes(s: Seq<char>) -> Seq<u32> {
    s.map_values(|c: char| c as u32)
}

/// The key code a key name stands for, ignoring ASCII case: the named keys,
/// or for a single character its (lower-cased) code point.
pub open spec fn key_code_of_name(name: Seq<char>) -> Option<u32> {
    let k = lowered(name);
    if k == codes("enter"@) || k == codes("return"@) {
        Some(KEY_ENTER)
    } else if k == codes("backspace"@) {
        Some(KEY_BACKSPACE)
    } else if k == codes("tab"@) {
        Some(KEY_TAB)
    } else if k == codes("escape"@) || k == codes("esc"@) {
        Some(KEY_ESCAPE)
    } else if k == codes("delete"@) || k == codes("del"@) {
        Some(KEY_DELETE)
    } else if k == codes("space"@) {
        Some(KEY_SPACE)
    } else if k == codes("left"@) {
        Some(KEY_LEFT)
    } else if k == codes("right"@) {
        Some(KEY_RIGHT)
    } else if k == codes("up"@) {
        Some(KEY_UP)
    } else if k == codes("down"@) {
        Some(KEY_DOWN)
    } else if k == codes("home"@) {
        Some(KEY_HOME)
    } else if k == codes("end"@) {
        Some(KEY_END)
    } else if k == codes("pageup"@) {
        Some(KEY_PAGE_UP)
    } else if k == codes("pagedown"@) {
        Some(KEY_PAGE_DOWN)
    } else if k.len() == 1 {
        Some(k[0])
    } else {
        None
    }
}

/// The button bit a button name stands for (`left` when none is given).
pub open spec fn button_of_name(name: Option<Seq<char>>) -> Option<u32> {
    let n = match name {
        Some(n) => n,
        None => "left"@,
    };
    if n == "left"@ {
        Some(MOUSE_BUTTON_LEFT)
    } else if n == "right"@ {
        Some(MOUSE_BUTTON_RIGHT)
    } else if n == "middle"@ {
        Some(MOUSE_BUTTON_MIDDLE)
    } else {
        None
    }
}

/// The message for an unknown button name.
pub open spec fn unknown_button_message(name: Option<Seq<char>>) -> Seq<char> {
    "unknown mouse button: "@ + match name {
        Some(n) => n,
        None => "left"@,
    }
}

/// The bridge word asking what is at (`x`, `y`), when both fit in 14 bits.
pub open spec fn hit_test_word(x: u32, y: u32) -> Option<u32> {
    if x >= 0x4000 || y >= 0x4000 {
        None
    } else {
        Some((BRIDGE_DOM_HIT_TEST + x * 0x4000 + y) as u32)
    }
}

/// Whether `a` holds exactly the characters of `lit`.
fn chars_equal(a: &Vec<char>, lit: &str) -> (r: bool)
    ensures
        r == (a@ == lit@),
{
    let b = chars_of(lit);
    if a.len() != b.len() {
        return false;
    }
    let mut i: usize = 0;
    while i < a.len()
        invariant
            i <= a@.len(),
            a@.len() == b@.len(),
            b@ == lit@,
            forall|j: int| 0 <= j < i ==> a@[j] == b@[j],
        decreases a@.len() - i,
    {
        if a[i] != b[i] {
            assert(a@[i as int] != b@[i as int]);
            return false;
        }
        i = i + 1;
    }
    assert(a@ =~= b@);
    true
}

/// Whether `a` holds exactly the code points of `lit`.
fn codes_equal(a: &Vec<u32>, lit: &str) -> (r: bool)
    ensures
        r == (a@ == codes(lit@)),
{
    let b = chars_of(lit);
    if a.len() != b.len() {
        return false;
    }
    let mut i: usize = 0;
    while i < a.len()
        invariant
            i <= a@.len(),
            a@.len() == b@.len(),
            b@ == lit@,
            forall|j: int| 0 <= j < i ==> a@[j] == b@[j] as u32,
        decreases a@.len() - i,
    {
        if a[i] != b[i] as u32 {
            assert(a@[i as int] != codes(lit@)[i as int]);
            return false;
        }
        i = i + 1;
    }
    assert(a@ =~= codes(lit@));
    true
}

/// The key code a key name stands for (see `key_code_of_name`).
pub fn key_code(name: &str) -> (r: Option<u32>)
    ensures
        r == key_code_of_name(name@),
{
    let raw = chars_of(name);
    let mut k: Vec<u32> = Vec::new();
    let mut i: usize = 0;
    while i < raw.len()
        invariant
            i <= raw@.len(),
            k@ == lowered(raw@.subrange(0, i as int)),
        decreases raw@.len() - i,
    {
        let c = raw[i];
        let l: u32 = if 'A' <= c && c <= 'Z' {
            c as u32 + 32
        } else {
            c as u32
        };
        k.push(l);
        i = i + 1;
        assert(k@ =~= lowered(raw@.subrange(0, i as int)));
    }
    assert(raw@.subrange(0, raw@.len() as int) =~= raw@);
    if codes_equal(&k, "enter") || codes_equal(&k, "return") {
        Some(KEY_ENTER)
    } else if codes_equal(&k, "backspace") {
        Some(KEY_BACKSPACE)
    } else if codes_equal(&k, "tab") {
        Some(KEY_TAB)
    } else if codes_equal(&k, "escape") || codes_equal(&k, "esc") {
        Some(KEY_ESCAPE)
    } else if codes_equal(&k, "delete") || codes_equal(&k, "del") {
        Some(KEY_DELETE)
    } else if codes_equal(&k, "space") {
        Some(KEY_SPACE)
    } else if codes_equal(&k, "left") {
        Some(KEY_LEFT)
    } else if codes_equal(&k, "right") {
        Some(KEY_RIGHT)
    } else if codes_equal(&k, "up") {
        Some(KEY_UP)
    } else if codes_equal(&k, "down") {
        Some(KEY_DOWN)
    } else if codes_equal(&k, "home") {
        Some(KEY_HOME)
    } else if codes_equal(&k, "end") {
        Some(KEY_END)
    } else if codes_equal(&k, "pageup") {
        Some(KEY_PAGE_UP)
    } else if codes_equal(&k, "pagedown") {
        Some(KEY_PAGE_DOWN)
    } else if k.len() == 1 {
        Some(k[0])
    } else {
        None
    }
}

/// The button bit a button name stands for (see `button_of_name`).
pub fn button_code(name: Option<&str>) -> (r: Result<u32, String>)
    ensures
        match r {
            Ok(b) => button_of_name(
                match name {
                    Some(n) => Some(n@),
                    None => None,
                },
            ) == Some(b),
            Err(e) => button_of_name(
                match name {
                    Some(n) => Some(n@),
                    None => None,
                },
            ) is None && e@ == unknown_button_message(
                match name {
                    Some(n) => Some(n@),
                    None => None,
                },
            ),
        },
{
    let n = match name {
        Some(n) => n,
        None => "left",
    };
    let c = chars_of(n);
    if chars_equal(&c, "left") {
        Ok(MOUSE_BUTTON_LEFT)
    } else if chars_equal(&c, "right") {
        Ok(MOUSE_BUTTON_RIGHT)
    } else if chars_equal(&c, "middle") {
        Ok(MOUSE_BUTTON_MIDDLE)
    } else {
        let mut e = String::from_str("unknown mouse button: ");
        e.append(n);
        Err(e)
    }
}

/// The pointer buttons after a press (`down`) or release of `button`.
pub fn pointer_buttons(buttons: u32, down: bool, button: u32) -> (r: u32)
    ensures
        r == if down {
            buttons | button
        } else {
            buttons & !button
        },
{
    if down {
        buttons | button
    } else {
        buttons & !button
    }
}

/// The bridge word for a hit test at (`x`, `y`); refused when a coordinate
/// does not fit in 14 bits.
pub fn hit_test_command(x: u32, y: u32) -> (r: Result<u32, String>)
    ensures
        match r {
            Ok(w) => hit_test_word(x, y) == Some(w),
            Err(e) => hit_test_word(x, y) is None && e@
                == "coordinates exceed automation bridge range"@,
        },
{
    if x >= 0x4000 || y >= 0x4000 {
        return Err(String::from_str("coordinates exceed automation bridge range"));
    }
    let w = BRIDGE_DOM_HIT_TEST | (x << 14) | y;
    assert(w == BRIDGE_DOM_HIT_TEST + x * 0x4000 + y) by (bit_vector)
        requires
            x < 0x4000,
            y < 0x4000,
            w == 0x2000_0000u32 | (x << 14) | y,
    ;
    Ok(w)
}

} // verus!
