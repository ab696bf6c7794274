// Keyboard device: a FIFO of host key events exposed through the KBD_EVT_*
// registers. Two kinds of host input feed it: raw key presses/releases
// (KBD_EVT_DOWN/UP with a KEY_* code) and translated characters
// (KBD_EVT_CHAR with the code point, already shifted by the host). Both go into
// the one queue in arrival order, so the guest sees "key down 'a', char 'A',
// key up 'a'" for a shifted keystroke.
use std::collections::VecDeque;

use vstd::prelude::*;

use crate::constants::{
    KBD_EVENT_QUEUE_DEPTH, KBD_EVT_CHAR, KBD_EVT_DOWN, KBD_EVT_UP, KBD_MOD_ALT, KBD_MOD_CTRL,
    KBD_MOD_SHIFT, KEY_ALT, KEY_BACKSPACE, KEY_CTRL, KEY_DELETE, KEY_DOWN, KEY_END, KEY_ENTER,
    KEY_ESCAPE, KEY_F1, KEY_HOME, KEY_LEFT, KEY_PAGE_DOWN, KEY_PAGE_UP, KEY_RIGHT, KEY_SHIFT,
    KEY_SPACE, KEY_TAB, KEY_UP,
};

verus! {

/// One keyboard event as the guest reads it.
#[derive(Clone, Copy, Debug, PartialEq, Eq, Structural)]
pub struct KeyEvent {
    /// KBD_EVT_DOWN / UP / CHAR
    pub kind: u32,
    /// A KEY_* code or a code point.
    pub code: u32,
    /// KBD_MOD_* held at the time.
    pub mods: u32,
}

/// `q` after queueing `ev` in a FIFO that holds at most `depth` entries and
/// drops its oldest entry when full.
pub open spec fn bounded_push<T>(q: Seq<T>, ev: T, depth: nat) -> Seq<T> {
    if q.len() >= depth {
        q.drop_first().push(ev)
    } else {
        q.push(ev)
    }
}

/// The queue after pushing every element of `evs`, oldest first, into `q`.
pub open spec fn bounded_push_all<T>(q: Seq<T>, evs: Seq<T>, depth: nat) -> Seq<T>
    decreases evs.len(),
{
    if evs.len() == 0 {
        q
    } else {
        bounded_push(bounded_push_all(q, evs.drop_last(), depth), evs.last(), depth)
    }
}

/// The newest `depth` elements of `s`, in order.
pub open spec fn newest<T>(s: Seq<T>, depth: nat) -> Seq<T> {
    if s.len() > depth {
        s.subrange(s.len() - depth, s.len() as int)
    } else {
        s
    }
}

/// However many events arrive, a bounded FIFO that starts empty holds exactly the
/// newest `depth` of them in arrival order.
pub proof fn lemma_bounded_fifo_keeps_newest<T>(evs: Seq<T>, depth: nat)
    requires
        depth > 0,
    ensures
        bounded_push_all(Seq::<T>::empty(), evs, depth) == newest(evs, depth),
    decreases evs.len(),
{
    if evs.len() > 0 {
        let prev = evs.drop_last();
        lemma_bounded_fifo_keeps_newest(prev, depth);
        let q = newest(prev, depth);
        assert(bounded_push(q, evs.last(), depth) =~= newest(evs, depth));
    }
}

/// The queue of key events the guest reads through the KBD_EVT_* registers.
pub struct KeyboardDevice {
    events: VecDeque<KeyEvent>,
    pub dropped: u64,
}

impl KeyboardDevice {
    /// The queued events, oldest first.
    pub closed spec fn queue(&self) -> Seq<KeyEvent> {
        self.events@
    }

    /// How many events were dropped because the queue was full.
    pub closed spec fn dropped_count(&self) -> u64 {
        self.dropped
    }

    /// The queue never holds more than KBD_EVENT_QUEUE_DEPTH events.
    pub open spec fn wf(&self) -> bool {
        self.queue().len() <= KBD_EVENT_QUEUE_DEPTH
    }

    pub fn new() -> (r: Self)
        ensures
            r.wf(),
            r.queue() == Seq::<KeyEvent>::empty(),
            r.dropped_count() == 0,
    {
        Self { events: VecDeque::with_capacity(KBD_EVENT_QUEUE_DEPTH), dropped: 0 }
    }

    /// Queues one event and returns true (raise an IRQ). On overflow the oldest
    /// entry is dropped, and counted, so the newest keystrokes are the ones
    /// that survive.
    pub fn push(&mut self, ev: KeyEvent) -> (r: bool)
        requires
            old(self).wf(),
        ensures
            final(self).wf(),
            r,
            final(self).queue() == bounded_push(old(self).queue(), ev, KBD_EVENT_QUEUE_DEPTH as nat),
            final(self).dropped_count() == if old(self).queue().len() == KBD_EVENT_QUEUE_DEPTH {
                ((old(self).dropped_count() + 1) % 0x1_0000_0000_0000_0000) as u64
            } else {
                old(self).dropped_count()
            },
    {
        if self.events.len() == KBD_EVENT_QUEUE_DEPTH {
            let _ = self.events.pop_front();
            self.dropped = self.dropped.wrapping_add(1);
        }
        self.events.push_back(ev);
        assert(self.events@ =~= bounded_push(old(self).queue(), ev, KBD_EVENT_QUEUE_DEPTH as nat));
        true
    }

    /// How many events are queued.
    pub fn event_count(&self) -> (r: u32)
        requires
            self.wf(),
        ensures
            r == self.queue().len(),
    {
        self.events.len() as u32
    }

    /// The oldest queued event, or an all-zero event when the queue is empty.
    pub fn head(&self) -> (r: KeyEvent)
        requires
            self.wf(),
        ensures
            r == if self.queue().len() > 0 {
                self.queue()[0]
            } else {
                KeyEvent { kind: 0, code: 0, mods: 0 }
            },
    {
        if self.events.len() > 0 {
            self.events[0]
        } else {
            KeyEvent { kind: 0, code: 0, mods: 0 }
        }
    }

    /// Drops the oldest queued event, if any.
    pub fn pop(&mut self)
        requires
            old(self).wf(),
        ensures
            final(self).wf(),
            final(self).dropped_count() == old(self).dropped_count(),
            final(self).queue() == if old(self).queue().len() > 0 {
                old(self).queue().drop_first()
            } else {
                old(self).queue()
            },
    {
        let _ = self.events.pop_front();
        assert(self.events@ =~= if old(self).queue().len() > 0 {
            old(self).queue().drop_first()
        } else {
            old(self).queue()
        });
    }
}

/// The host keys the emulator distinguishes.
#[derive(Clone, Copy, Debug, PartialEq, Eq, Structural)]
pub enum HostKey {
    A, B, C, D, E, F, G, H, I, J, K, L, M, N, O, P, Q, R, S, T, U, V, W, X, Y, Z,
    Key0, Key1, Key2, Key3, Key4, Key5, Key6, Key7, Key8, Key9,
    NumPad0, NumPad1, NumPad2, NumPad3, NumPad4, NumPad5, NumPad6, NumPad7, NumPad8, NumPad9,
    Space, Enter, NumPadEnter, Backspace, Tab, Escape, Delete,
    Left, Right, Up, Down, Home, End, PageUp, PageDown,
    LeftShift, RightShift, LeftCtrl, RightCtrl, LeftAlt, RightAlt,
    F1, F2, F3, F4, F5, F6, F7, F8, F9, F10, F11, F12,
    Minus, NumPadMinus, Equal, LeftBracket, RightBracket, Backslash, Semicolon, Apostrophe,
    Comma, Period, NumPadDot, Slash, NumPadSlash, Backquote, NumPadAsterisk, NumPadPlus,
    /// Any key the guest is not told about.
    Other,
}

/// The KEY_* code of a host key: letters and digits are their lowercase ASCII,
/// other printable keys their character, the rest a code >= 0x100.
pub open spec fn key_code_of(key: HostKey) -> Option<u32> {
    match key {
        HostKey::A => Some(97u32), HostKey::B => Some(98u32), HostKey::C => Some(99u32),
        HostKey::D => Some(100u32), HostKey::E => Some(101u32), HostKey::F => Some(102u32),
        HostKey::G => Some(103u32), HostKey::H => Some(104u32), HostKey::I => Some(105u32),
        HostKey::J => Some(106u32), HostKey::K => Some(107u32), HostKey::L => Some(108u32),
        HostKey::M => Some(109u32), HostKey::N => Some(110u32), HostKey::O => Some(111u32),
        HostKey::P => Some(112u32), HostKey::Q => Some(113u32), HostKey::R => Some(114u32),
        HostKey::S => Some(115u32), HostKey::T => Some(116u32), HostKey::U => Some(117u32),
        HostKey::V => Some(118u32), HostKey::W => Some(119u32), HostKey::X => Some(120u32),
        HostKey::Y => Some(121u32), HostKey::Z => Some(122u32),
        HostKey::Key0 | HostKey::NumPad0 => Some(48u32),
        HostKey::Key1 | HostKey::NumPad1 => Some(49u32),
        HostKey::Key2 | HostKey::NumPad2 => Some(50u32),
        HostKey::Key3 | HostKey::NumPad3 => Some(51u32),
        HostKey::Key4 | HostKey::NumPad4 => Some(52u32),
        HostKey::Key5 | HostKey::NumPad5 => Some(53u32),
        HostKey::Key6 | HostKey::NumPad6 => Some(54u32),
        HostKey::Key7 | HostKey::NumPad7 => Some(55u32),
        HostKey::Key8 | HostKey::NumPad8 => Some(56u32),
        HostKey::Key9 | HostKey::NumPad9 => Some(57u32),
        HostKey::Space => Some(KEY_SPACE),
        HostKey::Enter | HostKey::NumPadEnter => Some(KEY_ENTER),
        HostKey::Backspace => Some(KEY_BACKSPACE),
        HostKey::Tab => Some(KEY_TAB),
        HostKey::Escape => Some(KEY_ESCAPE),
        HostKey::Delete => Some(KEY_DELETE),
        HostKey::Left => Some(KEY_LEFT),
        HostKey::Right => Some(KEY_RIGHT),
        HostKey::Up => Some(KEY_UP),
        HostKey::Down => Some(KEY_DOWN),
        HostKey::Home => Some(KEY_HOME),
        HostKey::End => Some(KEY_END),
        HostKey::PageUp => Some(KEY_PAGE_UP),
        HostKey::PageDown => Some(KEY_PAGE_DOWN),
        HostKey::LeftShift | HostKey::RightShift => Some(KEY_SHIFT),
        HostKey::LeftCtrl | HostKey::RightCtrl => Some(KEY_CTRL),
        HostKey::LeftAlt | HostKey::RightAlt => Some(KEY_ALT),
        HostKey::F1 => Some(KEY_F1),
        HostKey::F2 => Some((KEY_F1 + 1) as u32),
        HostKey::F3 => Some((KEY_F1 + 2) as u32),
        HostKey::F4 => Some((KEY_F1 + 3) as u32),
        HostKey::F5 => Some((KEY_F1 + 4) as u32),
        HostKey::F6 => Some((KEY_F1 + 5) as u32),
        HostKey::F7 => Some((KEY_F1 + 6) as u32),
        HostKey::F8 => Some((KEY_F1 + 7) as u32),
        HostKey::F9 => Some((KEY_F1 + 8) as u32),
        HostKey::F10 => Some((KEY_F1 + 9) as u32),
        HostKey::F11 => Some((KEY_F1 + 10) as u32),
        HostKey::F12 => Some((KEY_F1 + 11) as u32),
        HostKey::Minus | HostKey::NumPadMinus => Some(45u32),
        HostKey::Equal => Some(61u32),
        HostKey::LeftBracket => Some(91u32),
        HostKey::RightBracket => Some(93u32),
        HostKey::Backslash => Some(92u32),
        HostKey::Semicolon => Some(59u32),
        HostKey::Apostrophe => Some(39u32),
        HostKey::Comma => Some(44u32),
        HostKey::Period | HostKey::NumPadDot => Some(46u32),
        HostKey::Slash | HostKey::NumPadSlash => Some(47u32),
        HostKey::Backquote => Some(96u32),
        HostKey::NumPadAsterisk => Some(42u32),
        HostKey::NumPadPlus => Some(43u32),
        HostKey::Other => None,
    }
}

/// The KEY_* code the guest sees for a host key, or None for keys it is not told about.
pub fn key_code(key: HostKey) -> (r: Option<u32>)
    ensures
        r == key_code_of(key),
{
    let code: u32 = match key {
        HostKey::A => 97u32,
        HostKey::B => 98u32,
        HostKey::C => 99u32,
        HostKey::D => 100u32,
        HostKey::E => 101u32,
        HostKey::F => 102u32,
        HostKey::G => 103u32,
        HostKey::H => 104u32,
        HostKey::I => 105u32,
        HostKey::J => 106u32,
        HostKey::K => 107u32,
        HostKey::L => 108u32,
        HostKey::M => 109u32,
        HostKey::N => 110u32,
        HostKey::O => 111u32,
        HostKey::P => 112u32,
        HostKey::Q => 113u32,
        HostKey::R => 114u32,
        HostKey::S => 115u32,
        HostKey::T => 116u32,
        HostKey::U => 117u32,
        HostKey::V => 118u32,
        HostKey::W => 119u32,
        HostKey::X => 120u32,
        HostKey::Y => 121u32,
        HostKey::Z => 122u32,
        HostKey::Key0 | HostKey::NumPad0 => 48u32,
        HostKey::Key1 | HostKey::NumPad1 => 49u32,
        HostKey::Key2 | HostKey::NumPad2 => 50u32,
        HostKey::Key3 | HostKey::NumPad3 => 51u32,
        HostKey::Key4 | HostKey::NumPad4 => 52u32,
        HostKey::Key5 | HostKey::NumPad5 => 53u32,
        HostKey::Key6 | HostKey::NumPad6 => 54u32,
        HostKey::Key7 | HostKey::NumPad7 => 55u32,
        HostKey::Key8 | HostKey::NumPad8 => 56u32,
        HostKey::Key9 | HostKey::NumPad9 => 57u32,
        HostKey::Space => KEY_SPACE,
        HostKey::Enter | HostKey::NumPadEnter => KEY_ENTER,
        HostKey::Backspace => KEY_BACKSPACE,
        HostKey::Tab => KEY_TAB,
        HostKey::Escape => KEY_ESCAPE,
        HostKey::Delete => KEY_DELETE,
        HostKey::Left => KEY_LEFT,
        HostKey::Right => KEY_RIGHT,
        HostKey::Up => KEY_UP,
        HostKey::Down => KEY_DOWN,
        HostKey::Home => KEY_HOME,
        HostKey::End => KEY_END,
        HostKey::PageUp => KEY_PAGE_UP,
        HostKey::PageDown => KEY_PAGE_DOWN,
        HostKey::LeftShift | HostKey::RightShift => KEY_SHIFT,
        HostKey::LeftCtrl | HostKey::RightCtrl => KEY_CTRL,
        HostKey::LeftAlt | HostKey::RightAlt => KEY_ALT,
        HostKey::F1 => KEY_F1,
        HostKey::F2 => KEY_F1 + 1,
        HostKey::F3 => KEY_F1 + 2,
        HostKey::F4 => KEY_F1 + 3,
        HostKey::F5 => KEY_F1 + 4,
        HostKey::F6 => KEY_F1 + 5,
        HostKey::F7 => KEY_F1 + 6,
        HostKey::F8 => KEY_F1 + 7,
        HostKey::F9 => KEY_F1 + 8,
        HostKey::F10 => KEY_F1 + 9,
        HostKey::F11 => KEY_F1 + 10,
        HostKey::F12 => KEY_F1 + 11,
        HostKey::Minus | HostKey::NumPadMinus => 45u32,
        HostKey::Equal => 61u32,
        HostKey::LeftBracket => 91u32,
        HostKey::RightBracket => 93u32,
        HostKey::Backslash => 92u32,
        HostKey::Semicolon => 59u32,
        HostKey::Apostrophe => 39u32,
        HostKey::Comma => 44u32,
        HostKey::Period | HostKey::NumPadDot => 46u32,
        HostKey::Slash | HostKey::NumPadSlash => 47u32,
        HostKey::Backquote => 96u32,
        HostKey::NumPadAsterisk => 42u32,
        HostKey::NumPadPlus => 43u32,
        HostKey::Other => {
            return None;
        },
    };
    Some(code)
}

/// Codes below 0x100 are printable ASCII characters: every other key the
/// guest is told about gets a code of 0x100 or more, so the two never collide.
pub proof fn lemma_key_codes_below_0x100_are_printable(key: HostKey)
    ensures
        key_code_of(key) matches Some(c) ==> (c < 0x100 ==> 0x20 <= c < 0x7F),
{
}

/// The modifier bit a key code controls, 0 for ordinary keys.
pub open spec fn modifier_of(code: u32) -> u32 {
    if code == KEY_SHIFT {
        KBD_MOD_SHIFT
    } else if code == KEY_CTRL {
        KBD_MOD_CTRL
    } else if code == KEY_ALT {
        KBD_MOD_ALT
    } else {
        0
    }
}

/// Turns host key and character callbacks into key events. Tracks the
/// modifier state itself from the key events it sees, so every queued event
/// carries the modifiers held at that moment.
pub struct HostKeyCallback {
    queue: Vec<KeyEvent>,
    mods: u32,
}

impl HostKeyCallback {
    /// Events produced and not yet taken, oldest first.
    pub closed spec fn produced(&self) -> Seq<KeyEvent> {
        self.queue@
    }

    /// The modifiers currently held.
    pub closed spec fn held(&self) -> u32 {
        self.mods
    }

    /// No events and no modifiers held.
    pub fn new() -> (r: Self)
        ensures
            r.produced() == Seq::<KeyEvent>::empty(),
            r.held() == 0,
    {
        Self { queue: Vec::new(), mods: 0 }
    }

    /// A character typed on the host. Control characters (Enter, Backspace,
    /// Escape, ...) already arrive as key events, so only visible text is
    /// queued, as a CHAR event.
    pub fn add_char(&mut self, uni_char: u32)
        ensures
            final(self).held() == old(self).held(),
            final(self).produced() == if uni_char < 0x20 || uni_char == 0x7F {
                old(self).produced()
            } else {
                old(self).produced().push(
                    KeyEvent { kind: KBD_EVT_CHAR, code: uni_char, mods: old(self).held() },
                )
            },
    {
        if uni_char < 0x20 || uni_char == 0x7F {
            return;
        }
        self.queue.push(KeyEvent { kind: KBD_EVT_CHAR, code: uni_char, mods: self.mods });
    }

    /// A host key went down (`state`) or up. Keys the guest is not told about
    /// are ignored; modifier keys update the held modifiers before the event
    /// is queued, so a modifier's own DOWN event carries it and its UP does not.
    pub fn set_key_state(&mut self, key: HostKey, state: bool)
        ensures
            match key_code_of(key) {
                None => final(self).produced() == old(self).produced() && final(self).held()
                    == old(self).held(),
                Some(code) => {
                    &&& final(self).held() == if state {
                        old(self).held() | modifier_of(code)
                    } else {
                        old(self).held() & !modifier_of(code)
                    }
                    &&& final(self).produced() == old(self).produced().push(
                        KeyEvent {
                            kind: if state {
                                KBD_EVT_DOWN
                            } else {
                                KBD_EVT_UP
                            },
                            code,
                            mods: final(self).held(),
                        },
                    )
                },
            },
    {
        let code = match key_code(key) {
            Some(c) => c,
            None => {
                return;
            },
        };
        let modifier = if code == KEY_SHIFT {
            KBD_MOD_SHIFT
        } else if code == KEY_CTRL {
            KBD_MOD_CTRL
        } else if code == KEY_ALT {
            KBD_MOD_ALT
        } else {
            0
        };
        if state {
            self.mods = self.mods | modifier;
        } else {
            self.mods = self.mods & !modifier;
        }
        let kind = if state {
            KBD_EVT_DOWN
        } else {
            KBD_EVT_UP
        };
        self.queue.push(KeyEvent { kind, code, mods: self.mods });
    }

    /// Hands over the events produced so far, oldest first.
    pub fn take_events(&mut self) -> (r: Vec<KeyEvent>)
        ensures
            r@ == old(self).produced(),
            final(self).produced() == Seq::<KeyEvent>::empty(),
            final(self).held() == old(self).held(),
    {
        let mut out: Vec<KeyEvent> = Vec::new();
        std::mem::swap(&mut out, &mut self.queue);
        out
    }
}

/// Pressing and then releasing a modifier leaves no modifier held that was not
/// held before, whatever else was held.
pub proof fn lemma_modifier_release_clears(held: u32, code: u32)
    requires
        modifier_of(code) != 0,
    ensures
        ((held | modifier_of(code)) & !modifier_of(code)) & modifier_of(code) == 0,
        ((held | modifier_of(code)) & !modifier_of(code)) == held & !modifier_of(code),
{
    let m = modifier_of(code);
    assert(((held | m) & !m) & m == 0) by (bit_vector);
    assert(((held | m) & !m) == held & !m) by (bit_vector);
}

} // verus!
