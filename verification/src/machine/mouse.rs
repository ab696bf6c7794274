use std::collections::VecDeque;

use vstd::prelude::*;

use crate::constants::MOUSE_EVENT_QUEUE_DEPTH;
use crate::machine::keyboard::bounded_push;

verus! {

/// One latched pointer state.
#[derive(Clone, Copy, Debug, PartialEq, Eq, Structural)]
pub struct MouseEvent {
    pub x: u32,
    pub y: u32,
    pub buttons: u32,
}

/// The pointer device: the latest latched state, plus a FIFO with one entry
/// per observed change. On overflow the oldest entry is dropped so the newest
/// state is always retained.
pub struct MouseDevice {
    pub x: u32,
    pub y: u32,
    pub buttons: u32,
    pub events: VecDeque<MouseEvent>,
}

/// The abstract state of the pointer device.
pub struct MouseState {
    pub x: u32,
    pub y: u32,
    pub buttons: u32,
    pub events: Seq<MouseEvent>,
}

impl View for MouseDevice {
    type V = MouseState;

    open spec fn view(&self) -> MouseState {
        MouseState { x: self.x, y: self.y, buttons: self.buttons, events: self.events@ }
    }
}

impl MouseState {
    /// The queue never holds more than MOUSE_EVENT_QUEUE_DEPTH events.
    pub open spec fn wf(self) -> bool {
        self.events.len() <= MOUSE_EVENT_QUEUE_DEPTH
    }

    /// The state after a host sample (x, y, buttons): a changed sample is
    /// latched and queued, an unchanged one leaves everything as it was.
    pub open spec fn sampled(self, x: u32, y: u32, buttons: u32) -> MouseState {
        if x == self.x && y == self.y && buttons == self.buttons {
            self
        } else {
            MouseState {
                x,
                y,
                buttons,
                events: bounded_push(
                    self.events,
                    MouseEvent { x, y, buttons },
                    MOUSE_EVENT_QUEUE_DEPTH as nat,
                ),
            }
        }
    }

    /// The event the guest reads: the oldest queued one, or the live state
    /// when nothing is queued.
    pub open spec fn head(self) -> MouseEvent {
        if self.events.len() > 0 {
            self.events[0]
        } else {
            MouseEvent { x: self.x, y: self.y, buttons: self.buttons }
        }
    }

    /// The state after the guest consumed the head event.
    pub open spec fn popped(self) -> MouseState {
        MouseState {
            events: if self.events.len() > 0 {
                self.events.drop_first()
            } else {
                self.events
            },
            ..self
        }
    }
}

impl MouseDevice {
    /// At the origin, no buttons held, nothing queued.
    pub fn new() -> (r: Self)
        ensures
            r@ == (MouseState { x: 0, y: 0, buttons: 0, events: Seq::<MouseEvent>::empty() }),
    {
        Self { x: 0, y: 0, buttons: 0, events: VecDeque::with_capacity(MOUSE_EVENT_QUEUE_DEPTH) }
    }

    /// Latches a host sample. Returns true (raise an IRQ) when the state
    /// changed; the change is also queued so the guest can observe every
    /// transition, e.g. a press and release between two reads.
    pub fn update(&mut self, x: u32, y: u32, buttons: u32) -> (r: bool)
        requires
            old(self)@.wf(),
        ensures
            final(self)@.wf(),
            final(self)@ == old(self)@.sampled(x, y, buttons),
            r == !(x == old(self)@.x && y == old(self)@.y && buttons == old(self)@.buttons),
    {
        if x == self.x && y == self.y && buttons == self.buttons {
            return false;
        }
        self.x = x;
        self.y = y;
        self.buttons = buttons;
        if self.events.len() == MOUSE_EVENT_QUEUE_DEPTH {
            let _ = self.events.pop_front();
        }
        self.events.push_back(MouseEvent { x, y, buttons });
        assert(self.events@ =~= bounded_push(
            old(self)@.events,
            MouseEvent { x, y, buttons },
            MOUSE_EVENT_QUEUE_DEPTH as nat,
        ));
        true
    }

    /// How many events are queued.
    pub fn event_count(&self) -> (r: u32)
        requires
            self@.wf(),
        ensures
            r == self@.events.len(),
    {
        self.events.len() as u32
    }

    /// The head event. Reading an empty FIFO is a guest bug (EVT_STATUS said
    /// nothing is queued); answering with the live state keeps it harmless.
    pub fn head_event(&self) -> (r: MouseEvent)
        ensures
            r == self@.head(),
    {
        if self.events.len() > 0 {
            self.events[0]
        } else {
            MouseEvent { x: self.x, y: self.y, buttons: self.buttons }
        }
    }

    /// Consumes the head event, if any.
    pub fn pop_event(&mut self)
        requires
            old(self)@.wf(),
        ensures
            final(self)@.wf(),
            final(self)@ == old(self)@.popped(),
    {
        let _ = self.events.pop_front();
        assert(self.events@ =~= old(self)@.popped().events);
    }
}

/// A sample that repeats the latched state changes nothing.
pub proof fn lemma_unchanged_sample_is_idle(m: MouseState)
    ensures
        m.sampled(m.x, m.y, m.buttons) == m,
{
}

/// After any sample the latched state is that sample, and whenever the queue
/// is non-empty after a changed sample, its newest entry is that sample.
pub proof fn lemma_sample_is_latched(m: MouseState, x: u32, y: u32, buttons: u32)
    ensures
        m.sampled(x, y, buttons).x == x,
        m.sampled(x, y, buttons).y == y,
        m.sampled(x, y, buttons).buttons == buttons,
        !(x == m.x && y == m.y && buttons == m.buttons) ==> m.sampled(x, y, buttons).events.last()
            == (MouseEvent { x, y, buttons }),
{
}

} // verus!
