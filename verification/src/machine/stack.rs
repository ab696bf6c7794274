// The hardware stack: grows down from the end of RAM in 32-bit words.
use vstd::prelude::*;
use vstd::string::StringExecFns;

use crate::constants::{RAM_END_EXCLUSIVE, RAM_START};
use crate::machine::{Machine, MachineState};
use crate::text::{hex_lower, push_numeral};

verus! {

/// The message for a push with a bad stack pointer.
pub open spec fn push_error_message(sp: u32) -> Seq<char> {
    "Invalid stack pointer for push: 0x"@ + hex_lower(sp as nat)
}

/// The message for a pop from an empty or misaligned stack.
pub open spec fn pop_error_message(sp: u32) -> Seq<char> {
    "Stack underflow at address: 0x"@ + hex_lower(sp as nat) + " (STACKBASE: 0x"@ + hex_lower(
        RAM_END_EXCLUSIVE as nat,
    ) + ")"@
}

/// One line of the stack listing.
pub open spec fn stack_entry_line(address: u32, value: u32) -> Seq<char> {
    "  Address: 0x"@ + hex_lower(address as nat) + " | Value: 0x"@ + hex_lower(value as nat) + "\n"@
}

/// The most entries the stack listing shows.
pub const STACK_LISTING_MAX: u32 = 100;

impl MachineState {
    /// How many stack words the listing shows: those from SP up to the end
    /// of RAM, at most `STACK_LISTING_MAX`.
    pub open spec fn stack_entries_shown(self) -> nat {
        if self.sp >= RAM_END_EXCLUSIVE {
            0
        } else {
            let n = (RAM_END_EXCLUSIVE - self.sp + 3) / 4;
            if n > 100 {
                100
            } else {
                n as nat
            }
        }
    }

    /// The first `k` lines of the stack listing.
    pub open spec fn stack_lines(self, k: nat) -> Seq<char>
        decreases k,
    {
        if k == 0 {
            Seq::empty()
        } else {
            let a = (self.sp + 4 * (k - 1)) as u32;
            self.stack_lines((k - 1) as nat) + stack_entry_line(a, self.read_word(a))
        }
    }

    /// The stack listing: the words from SP to the end of RAM, top first.
    pub open spec fn stack_listing(self) -> Seq<char> {
        "Stack Contents:\n"@ + if self.sp == RAM_END_EXCLUSIVE {
            "  [Stack is empty]\n"@
        } else {
            self.stack_lines(self.stack_entries_shown()) + if self.stack_entries_shown() == 100 {
                "  [Output truncated: more entries exist]\n"@
            } else {
                Seq::<char>::empty()
            }
        }
    }

    /// Whether the stack pointer may be pushed through. Once paging is on the
    /// stack pointer is a virtual address and the MMU decides; with paging off
    /// it must stay inside RAM.
    pub open spec fn stack_in_bounds(self) -> bool {
        self.mmu.enabled || (self.sp >= RAM_START + 4 && self.sp <= RAM_END_EXCLUSIVE)
    }

    /// The state after pushing `v`, or None when the push is refused.
    #[verifier::opaque]
    pub open spec fn pushed(self, v: u32) -> Option<MachineState> {
        if !self.stack_in_bounds() || self.sp % 4 != 0 {
            None
        } else {
            let sp = ((self.sp as int - 4) % 0x1_0000_0000) as u32;
            Some(MachineState { sp, ..self }.stored(sp, v))
        }
    }

    /// The state after popping, with the popped value, or None on underflow.
    #[verifier::opaque]
    pub open spec fn popped(self) -> Option<(MachineState, u32)> {
        let underflow = !self.mmu.enabled && self.sp >= RAM_END_EXCLUSIVE;
        if underflow || self.sp % 4 != 0 {
            None
        } else {
            let (s, v) = self.loaded(self.sp);
            Some((MachineState { sp: ((self.sp + 4) % 0x1_0000_0000) as u32, ..s }, v))
        }
    }
}

impl Machine {
    /// Whether `sp` may be pushed through (see `MachineState::stack_in_bounds`).
    fn stack_in_bounds(&self, sp: u32) -> (r: bool)
        requires
            sp == self@.sp,
        ensures
            r == self@.stack_in_bounds(),
    {
        if self.mmu.enabled {
            return true;
        }
        sp >= RAM_START + 4 && sp <= RAM_END_EXCLUSIVE
    }

    /// Pushes a word.
    pub fn push(&mut self, value: u32) -> (r: Result<(), String>)
        requires
            old(self).wf(),
        ensures
            final(self).wf(),
            match old(self)@.pushed(value) {
                Some(s) => r is Ok && final(self)@ == s,
                None => r matches Err(e) && e@ == push_error_message(old(self)@.sp) && final(self)@ == old(self)@,
            },
    {
        reveal(MachineState::pushed);
        if !self.stack_in_bounds(self.stack_pointer) || self.stack_pointer % 4 != 0 {
            let mut e = String::new();
            e.append("Invalid stack pointer for push: 0x");
            push_numeral(&mut e, self.stack_pointer as u64, 16, 0, false);
            return Err(e);
        }
        self.stack_pointer = self.stack_pointer.wrapping_sub(4);
        self.bus_write(self.stack_pointer, value);
        Ok(())
    }

    /// Pops a word.
    pub fn pop(&mut self) -> (r: Result<u32, String>)
        requires
            old(self).wf(),
        ensures
            final(self).wf(),
            match old(self)@.popped() {
                Some((s, v)) => r == Ok::<u32, String>(v) && final(self)@ == s,
                None => r matches Err(e) && e@ == pop_error_message(old(self)@.sp) && final(self)@ == old(self)@,
            },
    {
        reveal(MachineState::popped);
        let underflow = if self.mmu.enabled {
            false
        } else {
            self.stack_pointer >= RAM_END_EXCLUSIVE
        };
        if underflow || self.stack_pointer % 4 != 0 {
            let mut e = String::new();
            e.append("Stack underflow at address: 0x");
            push_numeral(&mut e, self.stack_pointer as u64, 16, 0, false);
            e.append(" (STACKBASE: 0x");
            push_numeral(&mut e, RAM_END_EXCLUSIVE as u64, 16, 0, false);
            e.append(")");
            return Err(e);
        }
        let sp = self.stack_pointer;
        let value = self.bus_load(sp);
        let ghost loaded = self@;
        assert((loaded, value) == old(self)@.loaded(old(self)@.sp));
        self.stack_pointer = sp.wrapping_add(4);
        assert(self@ == MachineState { sp: ((sp + 4) % 0x1_0000_0000) as u32, ..loaded });
        Ok(value)
    }

    /// The stack listing (see `MachineState::stack_listing`).
    pub fn stack_listing(&self) -> (r: String)
        requires
            self.wf(),
        ensures
            r@ == self@.stack_listing(),
    {
        let mut out = String::new();
        out.append("Stack Contents:\n");
        if self.stack_pointer == RAM_END_EXCLUSIVE {
            out.append("  [Stack is empty]\n");
            return out;
        }
        let ghost head = out@;
        let mut current_address = self.stack_pointer;
        let mut displayed: u32 = 0;
        while current_address < RAM_END_EXCLUSIVE && displayed < STACK_LISTING_MAX
            invariant
                self.wf(),
                displayed <= 100,
                current_address == self@.sp + 4 * displayed,
                displayed <= self@.stack_entries_shown(),
                out@ == head + self@.stack_lines(displayed as nat),
            decreases 100 - displayed,
        {
            let value = self.read_stack_memory(current_address);
            out.append("  Address: 0x");
            push_numeral(&mut out, current_address as u64, 16, 0, false);
            out.append(" | Value: 0x");
            push_numeral(&mut out, value as u64, 16, 0, false);
            out.append("\n");
            current_address = current_address + 4;
            displayed = displayed + 1;
            assert(out@ =~= head + self@.stack_lines(displayed as nat));
        }
        assert(displayed == self@.stack_entries_shown());
        if displayed == STACK_LISTING_MAX {
            out.append("  [Output truncated: more entries exist]\n");
        }
        assert(out@ =~= self@.stack_listing());
        out
    }
}

/// With paging off, a pop right after a push gives back the pushed word and
/// leaves the stack pointer where it was before the push.
pub proof fn lemma_push_then_pop(s: MachineState, v: u32)
    requires
        s.wf(),
        !s.mmu.enabled,
        s.pushed(v) is Some,
    ensures
        s.pushed(v)->0.popped() matches Some((t, w)) && w == v && t == (MachineState {
            sp: s.sp,
            ..s.pushed(v)->0
        }),
{
    reveal(MachineState::pushed);
    reveal(MachineState::popped);
    reveal(MachineState::stored);
    reveal(MachineState::loaded);
    reveal(MachineState::translated);
    reveal(MachineState::write_word);
    reveal(MachineState::read_word);
    let sp = ((s.sp as int - 4) % 0x1_0000_0000) as u32;
    assert(sp == s.sp - 4);
    let s1 = MachineState { sp, ..s };
    let p = s.pushed(v)->0;
    crate::bytes::lemma_be_roundtrip(s.ram, sp as int, v);
    assert(p == MachineState { ram: crate::bytes::be_store(s.ram, sp as int, v), ..s1 });
    assert(p.loaded(sp) == (p, v));
}

} // verus!
