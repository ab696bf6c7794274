// Interrupt sources and dispatch. A device raises a cause bit in IRQ_CAUSE
// and marks an interrupt pending; when interrupts are enabled the CPU pushes
// PC then SR, masks interrupts and jumps to the handler registered at
// IRQ_VECTOR.
use std::sync::mpsc::Receiver;

use vstd::prelude::*;

use crate::constants::{
    IRQ_CAUSE_KEYBOARD, IRQ_CAUSE_MOUSE, IRQ_CAUSE_SERIAL, IRQ_CAUSE_SSD, IRQ_CAUSE_TIMER,
    IRQ_VECTOR_ADDR, RAM_END_EXCLUSIVE, SR_IE, SR_USER, SSD_BLOCK_SIZE, SSD_CMD_ADDR, SSD_CMD_READ,
    SSD_CMD_WRITE, SSD_STATUS_ADDR, SSD_STATUS_BUSY, SSD_STATUS_DONE, SSD_STATUS_ERROR,
};
use crate::bytes::{be_store, be_word, lemma_be_roundtrip};
use crate::machine::mmu::{AccessType, MmuFault};
use crate::machine::keyboard::{bounded_push, KeyEvent};
use crate::machine::ssd::{SsdDevice, SsdOp};
use crate::machine::stack::push_error_message;
use crate::machine::timer::{after_tick, tick_due};
use crate::machine::{result_matches, Machine, MachineState};

verus! {

impl MachineState {
    /// The state with interrupts enabled or masked, the SR bit following.
    #[verifier::opaque]
    pub open spec fn with_ie(self, enable: bool) -> MachineState {
        MachineState {
            ie: enable,
            sr: if enable {
                self.sr | SR_IE
            } else {
                self.sr & !SR_IE
            },
            ..self
        }
    }

    /// The state with interrupt cause bits `cause` raised and an interrupt pending.
    #[verifier::opaque]
    pub open spec fn raised(self, cause: u32) -> MachineState {
        MachineState { irq_cause: self.irq_cause | cause, pending_irq: true, ..self }
    }

    /// The state after the host delivered `got` on the serial line.
    #[verifier::opaque]
    pub open spec fn serial_polled(self, got: Seq<u8>) -> MachineState {
        if got.len() > 0 {
            MachineState { rx: self.rx + got, ..self }.raised(IRQ_CAUSE_SERIAL)
        } else {
            self
        }
    }

    /// The state after the timer was serviced at time `now`.
    #[verifier::opaque]
    pub open spec fn timer_polled(self, now: u128) -> MachineState {
        if tick_due(self.timer, now, self.instrs_retired, self.wfi) {
            MachineState {
                timer: after_tick(self.timer, now, self.instrs_retired),
                ..self
            }.raised(IRQ_CAUSE_TIMER)
        } else {
            self
        }
    }

    /// Interrupt dispatch before the next fetch. A pending interrupt wakes
    /// the CPU from WFI. If interrupts are enabled and a handler is registered
    /// (a vector inside RAM), PC and then SR are pushed, interrupts are masked
    /// and PC jumps to the handler; otherwise the interrupt stays pending.
    #[verifier::opaque]
    pub open spec fn dispatched(self) -> (MachineState, Result<(), Seq<char>>) {
        let s0 = if self.pending_irq {
            MachineState { wfi: false, ..self }
        } else {
            self
        };
        let vector = s0.read_word(IRQ_VECTOR_ADDR);
        if s0.ie && s0.pending_irq && vector < RAM_END_EXCLUSIVE {
            MachineState { pending_irq: false, ..s0 }.handler_entered(vector)
        } else {
            (s0, Ok(()))
        }
    }

    /// Interrupt entry: PC and then SR are pushed, interrupts are masked and
    /// PC jumps to `vector`. A refused push stops the entry with its error.
    #[verifier::opaque]
    pub open spec fn handler_entered(self, vector: u32) -> (MachineState, Result<(), Seq<char>>) {
        match self.pushed(self.pc) {
            None => (self, Err(push_error_message(self.sp))),
            Some(s2) => match s2.pushed(s2.status_word()) {
                None => (s2, Err(push_error_message(s2.sp))),
                Some(s3) => (MachineState { pc: vector, ..s3.with_ie(false) }, Ok(())),
            },
        }
    }

    /// The state after `data` was stored byte by byte at virtual addresses
    /// `addr`, `addr + 1`, ... (wrapping), the first `n` bytes of it.
    pub open spec fn bytes_stored(self, addr: u32, data: Seq<u8>, n: nat) -> MachineState
        decreases n,
    {
        if n == 0 {
            self
        } else {
            self.bytes_stored(addr, data, (n - 1) as nat).stored_byte(
                ((addr + n - 1) % 0x1_0000_0000) as u32,
                data[n - 1],
            )
        }
    }
}

impl Machine {
    /// Enables or masks interrupts (EI/DI), keeping SR's IE bit in step.
    pub fn set_interrupt_enable(&mut self, enable: bool)
        requires
            old(self).wf(),
        ensures
            final(self).wf(),
            final(self)@ == old(self)@.with_ie(enable),
    {
        reveal(MachineState::with_ie);
        self.interrupt_enable = enable;
        if enable {
            self.status_register = self.status_register | SR_IE;
        } else {
            self.status_register = self.status_register & !SR_IE;
        }
    }

    fn raise(&mut self, cause: u32)
        requires
            old(self).wf(),
        ensures
            final(self).wf(),
            final(self)@ == old(self)@.raised(cause),
    {
        reveal(MachineState::raised);
        self.irq_cause = self.irq_cause | cause;
        self.pending_irq = true;
    }

    /// Queues received serial bytes and raises the serial interrupt (nothing
    /// happens for an empty slice).
    pub fn ingest_serial_bytes(&mut self, bytes: &[u8])
        requires
            old(self).wf(),
        ensures
            final(self).wf(),
            final(self)@ == old(self)@.serial_polled(bytes@),
    {
        reveal(MachineState::serial_polled);
        if bytes.len() == 0 {
            return ;
        }
        self.serial.ingest_bytes(bytes);
        self.raise(IRQ_CAUSE_SERIAL);
    }

    /// Attaches the host channel that delivers serial input.
    pub fn set_serial_receiver(&mut self, rx: Receiver<u8>)
        requires
            old(self).wf(),
        ensures
            final(self).wf(),
            final(self)@ == (MachineState { rx_connected: true, ..old(self)@ }),
    {
        self.serial.set_rx_recv(rx);
    }

    /// Whether a host channel delivers serial input.
    pub fn has_serial_receiver(&self) -> (r: bool)
        ensures
            r == self@.rx_connected,
    {
        self.serial.has_rx_recv()
    }

    /// Moves whatever the host channel delivered into the receive queue and
    /// raises the serial interrupt if anything arrived. Without a receiver
    /// nothing arrives and nothing changes.
    pub fn poll_serial_input(&mut self)
        requires
            old(self).wf(),
        ensures
            final(self).wf(),
            exists|got: Seq<u8>|
                final(self)@ == old(self)@.serial_polled(got) && (!old(self)@.rx_connected ==> got
                    == Seq::<u8>::empty()),
            !old(self)@.rx_connected ==> final(self)@ == old(self)@,
    {
        reveal(MachineState::serial_polled);
        let ghost before = self@;
        let arrived = self.serial.service_input();
        let ghost got = choose|got: Seq<u8>| self.serial.queue() == before.rx + got;
        assert(!before.rx_connected ==> got =~= Seq::<u8>::empty()) by {
            if !before.rx_connected {
                assert(self.serial.queue().len() == before.rx.len());
            }
        }
        if arrived {
            self.raise(IRQ_CAUSE_SERIAL);
            assert(self@ == before.serial_polled(got));
        } else {
            assert(got =~= Seq::<u8>::empty()) by {
                assert(self.serial.queue().len() == before.rx.len());
            }
            assert(self@ =~= before.serial_polled(got)) by {
                assert(self.serial.queue() =~= before.rx);
            }
        }
    }

    /// Latches a pointer sample as if read from the host window, raising the
    /// mouse interrupt when it changed anything.
    pub fn set_mouse_state(&mut self, x: u32, y: u32, buttons: u32)
        requires
            old(self).wf(),
        ensures
            final(self).wf(),
            final(self)@ == if x == old(self)@.mouse.x && y == old(self)@.mouse.y && buttons
                == old(self)@.mouse.buttons {
                old(self)@
            } else {
                (MachineState {
                    mouse: old(self)@.mouse.sampled(x, y, buttons),
                    ..old(self)@
                }).raised(IRQ_CAUSE_MOUSE)
            },
    {
        if self.mouse.update(x, y, buttons) {
            self.raise(IRQ_CAUSE_MOUSE);
        }
    }

    /// Queues a keyboard event and raises the keyboard interrupt.
    pub fn push_key_event(&mut self, kind: u32, code: u32, mods: u32)
        requires
            old(self).wf(),
        ensures
            final(self).wf(),
            final(self)@ == (MachineState {
                kbd: bounded_push(
                    old(self)@.kbd,
                    KeyEvent { kind, code, mods },
                    crate::constants::KBD_EVENT_QUEUE_DEPTH as nat,
                ),
                kbd_dropped: if old(self)@.kbd.len() == crate::constants::KBD_EVENT_QUEUE_DEPTH {
                    ((old(self)@.kbd_dropped + 1) % 0x1_0000_0000_0000_0000) as u64
                } else {
                    old(self)@.kbd_dropped
                },
                ..old(self)@
            }).raised(IRQ_CAUSE_KEYBOARD),
    {
        self.keyboard.push(KeyEvent { kind, code, mods });
        self.raise(IRQ_CAUSE_KEYBOARD);
    }

    /// Services the timer now, raising the timer interrupt on a tick.
    fn poll_timer(&mut self)
        requires
            old(self).wf(),
        ensures
            final(self).wf(),
            exists|now: u128| final(self)@ == old(self)@.timer_polled(now),
    {
        let ghost before = self@;
        let fired = self.timer.service(self.instrs_retired, self.waiting_for_interrupt);
        let ghost now = choose|now: u128|
            {
                &&& fired == tick_due(before.timer, now, before.instrs_retired, before.wfi)
                &&& self.timer@ == if fired {
                    after_tick(before.timer, now, before.instrs_retired)
                } else {
                    before.timer
                }
            };
        if fired {
            self.raise(IRQ_CAUSE_TIMER);
        }
        reveal(MachineState::timer_polled);
        assert(self@ == before.timer_polled(now));
    }

    /// Vectors to a pending, enabled interrupt (see `MachineState::dispatched`).
    fn enter_handler(&mut self, vector: u32) -> (r: Result<(), String>)
        requires
            old(self).wf(),
        ensures
            final(self).wf(),
            final(self)@ == old(self)@.handler_entered(vector).0,
            result_matches(r, old(self)@.handler_entered(vector).1),
    {
        reveal(MachineState::handler_entered);
        let pc = self.program_counter;
        match self.push(pc) {
            Err(e) => {
                return Err(e);
            },
            Ok(()) => {},
        }
        let sr = self.status_register();
        match self.push(sr) {
            Err(e) => {
                return Err(e);
            },
            Ok(()) => {},
        }
        // Mask further interrupts until the handler re-enables them.
        self.set_interrupt_enable(false);
        self.program_counter = vector;
        Ok(())
    }

    /// Vectors to a pending, enabled interrupt (see `MachineState::dispatched`).
    pub fn try_dispatch_irq(&mut self) -> (r: Result<(), String>)
        requires
            old(self).wf(),
        ensures
            final(self).wf(),
            final(self)@ == old(self)@.dispatched().0,
            result_matches(r, old(self)@.dispatched().1),
    {
        reveal(MachineState::dispatched);
        if self.pending_irq {
            self.waiting_for_interrupt = false;
        }
        if self.interrupt_enable && self.pending_irq {
            let vector = self.bus_read(IRQ_VECTOR_ADDR);
            // A vector outside RAM (0, or the 0xFFFF_FFFF an unwritten
            // register reads back) means no handler is installed: leave the
            // interrupt pending so it fires once one is registered.
            if vector < RAM_END_EXCLUSIVE {
                self.pending_irq = false;
                return self.enter_handler(vector);
            }
        }
        Ok(())
    }

    /// Polls serial input and the timer, then dispatches a pending interrupt
    /// (with no receiver attached, no serial byte arrives).
    pub fn service_timer_interrupt(&mut self) -> (r: Result<(), String>)
        requires
            old(self).wf(),
        ensures
            final(self).wf(),
            exists|got: Seq<u8>, now: u128|
                #![trigger old(self)@.serial_polled(got).timer_polled(now)]
                {
                    let s = old(self)@.serial_polled(got).timer_polled(now);
                    &&& !old(self)@.rx_connected ==> got == Seq::<u8>::empty()
                    &&& final(self)@ == s.dispatched().0
                    &&& result_matches(r, s.dispatched().1)
                },
    {
        let ghost s0 = self@;
        self.poll_serial_input();
        reveal(MachineState::serial_polled);
        let ghost got = choose|got: Seq<u8>|
            self@ == s0.serial_polled(got) && (!s0.rx_connected ==> got == Seq::<u8>::empty());
        let ghost s1 = self@;
        self.poll_timer();
        let ghost now = choose|now: u128| self@ == s1.timer_polled(now);
        let r = self.try_dispatch_irq();
        assert(self@ == s0.serial_polled(got).timer_polled(now).dispatched().0);
        r
    }

    /// Polls serial input and the timer, and hands over the SSD transfer that
    /// is waiting to be carried out, if any.
    #[verifier::spinoff_prover]
    #[verifier::rlimit(100)]
    pub fn poll_devices(&mut self) -> (r: Option<SsdOp>)
        requires
            old(self).wf(),
        ensures
            final(self).wf(),
            exists|got: Seq<u8>, now: u128|
                #![trigger old(self)@.serial_polled(got).timer_polled(now)]
                {
                    let s = old(self)@.serial_polled(got).timer_polled(now);
                    &&& !old(self)@.rx_connected ==> got == Seq::<u8>::empty()
                    &&& r == s.ssd.op_of()
                    &&& final(self)@ == (MachineState {
                        ssd: SsdDevice { pending_cmd: None, ..s.ssd },
                        ..s
                    })
                },
    {
        let ghost s0 = self@;
        self.poll_serial_input();
        reveal(MachineState::serial_polled);
        let ghost got = choose|got: Seq<u8>|
            self@ == s0.serial_polled(got) && (!s0.rx_connected ==> got == Seq::<u8>::empty());
        let ghost s1 = self@;
        self.poll_timer();
        let ghost now = choose|now: u128| self@ == s1.timer_polled(now);
        let ghost s2 = self@;
        assert(s2 == s0.serial_polled(got).timer_polled(now));
        let r = self.ssd.take_pending();
        assert(self@ == MachineState { ssd: SsdDevice { pending_cmd: None, ..s2.ssd }, ..s2 });
        r
    }

    /// Completes an SSD read: `data` is the block the host read, or None when
    /// the read failed. The bytes go to RAM at `buf_addr` through the MMU; the
    /// outcome is latched in STATUS and the completion interrupt raised.
    pub fn finish_ssd_read(&mut self, buf_addr: u32, data: Option<Vec<u8>>)
        requires
            old(self).wf(),
            (data matches Some(d) ==> d@.len() == SSD_BLOCK_SIZE),
        ensures
            final(self).wf(),
            final(self)@ == match data {
                Some(d) => (MachineState {
                    ssd: (SsdDevice { status: crate::constants::SSD_STATUS_DONE, ..old(self)@.ssd }),
                    ..old(self)@
                }).bytes_stored(buf_addr, d@, SSD_BLOCK_SIZE as nat).raised(IRQ_CAUSE_SSD),
                None => (MachineState {
                    ssd: (SsdDevice { status: crate::constants::SSD_STATUS_ERROR, ..old(self)@.ssd }),
                    ..old(self)@
                }).raised(IRQ_CAUSE_SSD),
            },
    {
        match data {
            Some(d) => {
                self.ssd.finish(true);
                let ghost start = self@;
                let mut i: usize = 0;
                while i < SSD_BLOCK_SIZE
                    invariant
                        i <= SSD_BLOCK_SIZE,
                        d@.len() == SSD_BLOCK_SIZE,
                        self.wf(),
                        self@ == start.bytes_stored(buf_addr, d@, i as nat),
                    decreases SSD_BLOCK_SIZE - i,
                {
                    self.bus_write_byte(buf_addr.wrapping_add(i as u32), d[i]);
                    i = i + 1;
                }
            },
            None => {
                self.ssd.finish(false);
            },
        }
        self.raise(IRQ_CAUSE_SSD);
    }

    /// The block an SSD write transfers: SSD_BLOCK_SIZE bytes read from
    /// physical memory at `buf_addr`, `buf_addr + 1`, ... (wrapping).
    pub fn ssd_gather(&self, buf_addr: u32) -> (r: Vec<u8>)
        requires
            self.wf(),
        ensures
            r@ == Seq::new(
                SSD_BLOCK_SIZE as nat,
                |i: int| self@.read_byte(((buf_addr + i) % 0x1_0000_0000) as u32),
            ),
    {
        let mut data: Vec<u8> = Vec::new();
        let mut i: usize = 0;
        while i < SSD_BLOCK_SIZE
            invariant
                i <= SSD_BLOCK_SIZE,
                self.wf(),
                data@ == Seq::new(
                    i as nat,
                    |k: int| self@.read_byte(((buf_addr + k) % 0x1_0000_0000) as u32),
                ),
            decreases SSD_BLOCK_SIZE - i,
        {
            data.push(self.bus_read_byte(buf_addr.wrapping_add(i as u32)));
            i = i + 1;
            assert(data@ =~= Seq::new(
                i as nat,
                |k: int| self@.read_byte(((buf_addr + k) % 0x1_0000_0000) as u32),
            ));
        }
        data
    }

    /// Completes an SSD write: `ok` is whether the host stored the block.
    pub fn finish_ssd_write(&mut self, ok: bool)
        requires
            old(self).wf(),
        ensures
            final(self).wf(),
            final(self)@ == (MachineState {
                ssd: (SsdDevice {
                    status: if ok {
                        crate::constants::SSD_STATUS_DONE
                    } else {
                        crate::constants::SSD_STATUS_ERROR
                    },
                    ..old(self)@.ssd
                }),
                ..old(self)@
            }).raised(IRQ_CAUSE_SSD),
    {
        self.ssd.finish(ok);
        self.raise(IRQ_CAUSE_SSD);
    }
}

/// While interrupts are masked, dispatch takes no interrupt: a pending one
/// only wakes the CPU from WFI and stays pending.
pub proof fn lemma_masked_interrupt_stays_pending(s: MachineState)
    requires
        !s.ie,
    ensures
        s.dispatched() == (if s.pending_irq {
            MachineState { wfi: false, ..s }
        } else {
            s
        }, Ok::<(), Seq<char>>(())),
{
    reveal(MachineState::dispatched);
}

/// With paging off an address translates to itself and the state is kept.
proof fn lemma_untranslated_when_paging_off()
    ensures
        forall|t: MachineState, a: u32, acc: AccessType|
            !t.mmu.enabled ==> #[trigger] t.translated(a, acc) == (t, Ok::<u32, MmuFault>(a)),
{
    reveal(MachineState::translated);
}

/// With paging off, an enabled pending interrupt whose handler lies in RAM
/// is taken: PC and SR are pushed, PC jumps to the handler and interrupts
/// are masked, whenever the stack has room for both words.
#[verifier::spinoff_prover]
#[verifier::rlimit(50)]
pub proof fn lemma_enabled_interrupt_enters_handler(s: MachineState)
    requires
        s.wf(),
        !s.mmu.enabled,
        s.ie,
        s.pending_irq,
        s.read_word(IRQ_VECTOR_ADDR) < RAM_END_EXCLUSIVE,
        s.sp % 4 == 0,
        8 <= s.sp <= RAM_END_EXCLUSIVE,
    ensures
        s.dispatched().1 is Ok,
        s.dispatched().0.pc == s.read_word(IRQ_VECTOR_ADDR),
        !s.dispatched().0.ie,
        !s.dispatched().0.pending_irq,
        s.dispatched().0.sp == s.sp - 8,
{
    reveal(MachineState::dispatched);
    reveal(MachineState::handler_entered);
    reveal(MachineState::pushed);
    reveal(MachineState::stored);
    reveal(MachineState::write_word);
    reveal(MachineState::with_ie);
    lemma_untranslated_when_paging_off();
    let s0 = MachineState { wfi: false, ..s };
    assert(s0.read_word(IRQ_VECTOR_ADDR) == s.read_word(IRQ_VECTOR_ADDR)) by {
        reveal(MachineState::read_word);
        reveal(MachineState::io_value);
    }
}

/// Storing bytes through the MMU leaves the block device's registers alone.
proof fn lemma_bytes_stored_keeps_ssd(s: MachineState, addr: u32, data: Seq<u8>, n: nat)
    ensures
        s.bytes_stored(addr, data, n).ssd == s.ssd,
    decreases n,
{
    if n > 0 {
        lemma_bytes_stored_keeps_ssd(s, addr, data, (n - 1) as nat);
        reveal(MachineState::stored_byte);
        reveal(MachineState::translated);
        reveal(MachineState::write_byte);
    }
}

/// With paging off, bytes stored into RAM read back as stored.
proof fn lemma_bytes_stored_in_ram(s: MachineState, addr: u32, data: Seq<u8>, n: nat)
    requires
        !s.mmu.enabled,
        s.ram.len() == RAM_END_EXCLUSIVE as int,
        addr as int + n <= RAM_END_EXCLUSIVE as int,
        n <= data.len(),
    ensures
        !s.bytes_stored(addr, data, n).mmu.enabled,
        s.bytes_stored(addr, data, n).ram.len() == RAM_END_EXCLUSIVE as int,
        forall|i: int|
            0 <= i < n ==> #[trigger] s.bytes_stored(addr, data, n).read_byte((addr + i) as u32)
                == data[i],
    decreases n,
{
    if n > 0 {
        let m = (n - 1) as nat;
        lemma_bytes_stored_in_ram(s, addr, data, m);
        let t = s.bytes_stored(addr, data, m);
        let a = ((addr + n - 1) % 0x1_0000_0000) as u32;
        assert(a == addr + m);
        lemma_untranslated_when_paging_off();
        reveal(MachineState::stored_byte);
        reveal(MachineState::write_byte);
        reveal(MachineState::read_byte);
        let v = data[m as int];
        assert(t.translated(a, AccessType::Write) == (t, Ok::<u32, MmuFault>(a)));
        assert(t.stored_byte(a, v) == t.write_byte(a, v));
        let u = s.bytes_stored(addr, data, n);
        assert(u == t.stored_byte(a, v));
        assert(u == MachineState { ram: t.ram.update(a as int, v), ..t });
        assert forall|i: int| 0 <= i < n implies #[trigger] u.read_byte((addr + i) as u32)
            == data[i] by {
            let b = (addr + i) as u32;
            assert(b == addr + i);
            assert(b < RAM_END_EXCLUSIVE);
            assert(u.read_byte(b) == u.ram[b as int]);
            if i < m {
                assert(t.read_byte(b) == data[i]);
                assert(t.read_byte(b) == t.ram[b as int]);
            }
        }
    }
}

/// The block device's transfer protocol. With a disk attached and no
/// transfer in flight, a READ or WRITE command makes STATUS read BUSY and
/// raises no interrupt; the next device poll hands the host the transfer on
/// the latched block and buffer and clears it; when the host reports a write
/// done, STATUS reads DONE with the SSD cause pending. Any other command, or
/// any command without a disk, makes STATUS read ERROR at once: the poll
/// hands over nothing, so no completion interrupt follows.
pub proof fn lemma_ssd_command_protocol(s: MachineState, cmd: u32, got: Seq<u8>, now: u128)
    requires
        s.ssd.wf(),
        s.ssd.pending_cmd is None,
    ensures
        ({
            let c = s.io_written(SSD_CMD_ADDR, cmd);
            let polled = c.serial_polled(got).timer_polled(now);
            let after = MachineState { ssd: SsdDevice { pending_cmd: None, ..polled.ssd }, ..polled };
            let done = (MachineState {
                ssd: SsdDevice { status: SSD_STATUS_DONE, ..after.ssd },
                ..after
            }).raised(IRQ_CAUSE_SSD);
            &&& c.irq_cause == s.irq_cause
            &&& c.pending_irq == s.pending_irq
            &&& if s.ssd.enabled && (cmd == SSD_CMD_READ || cmd == SSD_CMD_WRITE) {
                &&& c.read_word(SSD_STATUS_ADDR) == SSD_STATUS_BUSY
                &&& polled.ssd.op_of() == Some(
                    if cmd == SSD_CMD_READ {
                        SsdOp::Read { block: s.ssd.block, buf_addr: s.ssd.buf_addr }
                    } else {
                        SsdOp::Write { block: s.ssd.block, buf_addr: s.ssd.buf_addr }
                    },
                )
                &&& done.read_word(SSD_STATUS_ADDR) == SSD_STATUS_DONE
                &&& done.irq_cause & IRQ_CAUSE_SSD != 0
                &&& done.pending_irq
            } else {
                &&& c.read_word(SSD_STATUS_ADDR) == SSD_STATUS_ERROR
                &&& polled.ssd.op_of() is None
                &&& after.irq_cause & IRQ_CAUSE_SSD == s.irq_cause & IRQ_CAUSE_SSD
            }
        }),
{
    reveal(MachineState::io_written);
    reveal(MachineState::serial_polled);
    reveal(MachineState::timer_polled);
    reveal(MachineState::raised);
    reveal(MachineState::read_word);
    reveal(MachineState::io_value);
    let c = s.io_written(SSD_CMD_ADDR, cmd);
    lemma_ssd_cause_bit();
}

/// Data written to a block comes back when it is read. A WRITE hands the
/// host the SSD_BLOCK_SIZE bytes at `src` of state `s`; when the host hands
/// those bytes back for a READ into `dst` of state `t` (paging off, the
/// buffer inside RAM), the completion stores them there, STATUS reads DONE
/// and the SSD cause is pending.
pub proof fn lemma_ssd_block_round_trip(s: MachineState, src: u32, t: MachineState, dst: u32)
    requires
        t.wf(),
        !t.mmu.enabled,
        t.ssd.enabled,
        dst as int + SSD_BLOCK_SIZE as int <= RAM_END_EXCLUSIVE as int,
    ensures
        ({
            let data = Seq::new(
                SSD_BLOCK_SIZE as nat,
                |i: int| s.read_byte(((src + i) % 0x1_0000_0000) as u32),
            );
            let f = (MachineState { ssd: SsdDevice { status: SSD_STATUS_DONE, ..t.ssd }, ..t })
                .bytes_stored(dst, data, SSD_BLOCK_SIZE as nat).raised(IRQ_CAUSE_SSD);
            &&& forall|i: int|
                0 <= i < SSD_BLOCK_SIZE ==> #[trigger] f.read_byte((dst + i) as u32) == s.read_byte(
                    ((src + i) % 0x1_0000_0000) as u32,
                )
            &&& f.read_word(SSD_STATUS_ADDR) == SSD_STATUS_DONE
            &&& f.irq_cause & IRQ_CAUSE_SSD != 0
            &&& f.pending_irq
        }),
{
    let data = Seq::new(
        SSD_BLOCK_SIZE as nat,
        |i: int| s.read_byte(((src + i) % 0x1_0000_0000) as u32),
    );
    let t1 = MachineState { ssd: SsdDevice { status: SSD_STATUS_DONE, ..t.ssd }, ..t };
    let b = t1.bytes_stored(dst, data, SSD_BLOCK_SIZE as nat);
    lemma_bytes_stored_in_ram(t1, dst, data, SSD_BLOCK_SIZE as nat);
    lemma_bytes_stored_keeps_ssd(t1, dst, data, SSD_BLOCK_SIZE as nat);
    let f = b.raised(IRQ_CAUSE_SSD);
    reveal(MachineState::raised);
    assert forall|i: int| 0 <= i < SSD_BLOCK_SIZE implies #[trigger] f.read_byte(
        (dst + i) as u32,
    ) == s.read_byte(((src + i) % 0x1_0000_0000) as u32) by {
        let x = (dst + i) as u32;
        assert(b.read_byte(x) == data[i]);
        assert(data[i] == s.read_byte(((src + i) % 0x1_0000_0000) as u32));
        assert(f.read_byte(x) == b.read_byte(x)) by {
            reveal(MachineState::read_byte);
        }
    }
    reveal(MachineState::read_word);
    reveal(MachineState::io_value);
    lemma_ssd_cause_bit();
}

/// Taking an interrupt saves where the guest was: with paging off and room
/// on the stack in RAM, the word at the new stack pointer is the status
/// word at entry (the flags included) and the word above it is the
/// interrupted PC, which is the order IRET pops them in (SR, then PC).
#[verifier::spinoff_prover]
#[verifier::rlimit(50)]
pub proof fn lemma_interrupt_entry_saves_pc_and_status(s: MachineState)
    requires
        s.wf(),
        !s.mmu.enabled,
        s.ie,
        s.pending_irq,
        s.read_word(IRQ_VECTOR_ADDR) < RAM_END_EXCLUSIVE,
        s.sp % 4 == 0,
        8 <= s.sp <= RAM_END_EXCLUSIVE,
    ensures
        ({
            let t = s.dispatched().0;
            &&& t.sp == s.sp - 8
            &&& t.read_word(t.sp) == s.status_word()
            &&& t.read_word((t.sp + 4) as u32) == s.pc
        }),
{
    reveal(MachineState::dispatched);
    reveal(MachineState::handler_entered);
    reveal(MachineState::pushed);
    reveal(MachineState::stored);
    reveal(MachineState::write_word);
    reveal(MachineState::with_ie);
    lemma_untranslated_when_paging_off();
    let s0 = MachineState { wfi: false, ..s };
    assert(s0.read_word(IRQ_VECTOR_ADDR) == s.read_word(IRQ_VECTOR_ADDR)) by {
        reveal(MachineState::read_word);
        reveal(MachineState::io_value);
    }
    let s1 = MachineState { pending_irq: false, ..s0 };
    let a1 = (s.sp - 4) as u32;
    let a2 = (s.sp - 8) as u32;
    let ram1 = be_store(s.ram, a1 as int, s.pc);
    lemma_be_roundtrip(s.ram, a1 as int, s.pc);
    let s2 = MachineState { sp: a1, ram: ram1, ..s1 };
    assert(MachineState { sp: a1, ..s1 }.stored(a1, s1.pc) == s2);
    assert(s1.pushed(s1.pc) == Some(s2));
    assert(s2.status_word() == s.status_word()) by {
        reveal(MachineState::status_word);
    }
    let ram2 = be_store(ram1, a2 as int, s.status_word());
    lemma_be_roundtrip(ram1, a2 as int, s.status_word());
    let s3 = MachineState { sp: a2, ram: ram2, ..s2 };
    assert(MachineState { sp: a2, ..s2 }.stored(a2, s2.status_word()) == s3);
    assert(s2.pushed(s2.status_word()) == Some(s3));
    let t = s.dispatched().0;
    assert(t.ram == ram2 && t.sp == a2);
    reveal(MachineState::read_word);
    assert(be_word(ram2, a1 as int) == be_word(ram1, a1 as int));
}

/// Interrupt entry followed by IRET gives back what the entry saved: the
/// interrupted PC, the condition flags, and (returning to kernel mode) the
/// stack pointer.
#[verifier::spinoff_prover]
#[verifier::rlimit(50)]
pub proof fn lemma_iret_undoes_interrupt_entry(s: MachineState)
    requires
        s.wf(),
        !s.mmu.enabled,
        s.ie,
        s.pending_irq,
        s.read_word(IRQ_VECTOR_ADDR) < RAM_END_EXCLUSIVE,
        s.sp % 4 == 0,
        8 <= s.sp <= RAM_END_EXCLUSIVE,
    ensures
        ({
            let (r, ok) = s.dispatched().0.interrupt_returned();
            &&& ok is Ok
            &&& r.pc == s.pc
            &&& r.carry == s.carry && r.zero == s.zero && r.sign == s.sign && r.overflow
                == s.overflow
            &&& s.sr & SR_USER == 0 ==> r.sp == s.sp
        }),
{
    lemma_interrupt_entry_saves_pc_and_status(s);
    lemma_enabled_interrupt_enters_handler(s);
    let t = s.dispatched().0;
    assert(t.mmu == s.mmu && t.ram.len() == s.ram.len() && t.rx == s.rx) by {
        reveal(MachineState::dispatched);
        reveal(MachineState::handler_entered);
        reveal(MachineState::pushed);
        reveal(MachineState::stored);
        reveal(MachineState::write_word);
        reveal(MachineState::with_ie);
        lemma_untranslated_when_paging_off();
        lemma_be_roundtrip(s.ram, s.sp - 4, s.pc);
        let s1 = MachineState {
            sp: (s.sp - 4) as u32,
            ram: be_store(s.ram, s.sp - 4, s.pc),
            wfi: false,
            pending_irq: false,
            ..s
        };
        lemma_be_roundtrip(s1.ram, s.sp - 8, s1.status_word());
    }
    reveal(MachineState::interrupt_returned);
    reveal(MachineState::popped);
    reveal(MachineState::loaded);
    reveal(MachineState::iret_restored);
    lemma_untranslated_when_paging_off();
    let sw = s.status_word();
    assert(t.read_word(t.sp) == sw);
    let t1 = MachineState { sp: (t.sp + 4) as u32, ..t };
    assert(t.popped() == Some((t1, sw)));
    assert(t1.read_word(t1.sp) == s.pc) by {
        reveal(MachineState::read_word);
    }
    let t2 = MachineState { sp: (t1.sp + 4) as u32, ..t1 };
    assert(t1.popped() == Some((t2, s.pc)));
    lemma_status_word_bits(s.sr, s.carry, s.zero, s.sign, s.overflow);
    assert(sw == (s.sr & !(2u32 | 4u32 | 8u32 | 16u32)) | (if s.carry { 2u32 } else { 0u32 }) | (
    if s.zero { 4u32 } else { 0u32 }) | (if s.sign { 8u32 } else { 0u32 }) | (if s.overflow {
        16u32
    } else {
        0u32
    })) by {
        reveal(MachineState::status_word);
    }
}

/// Raising the SSD cause sets its bit; raising the serial or timer cause
/// leaves it as it was.
proof fn lemma_ssd_cause_bit()
    by (bit_vector)
    ensures
        forall|x: u32| #[trigger] (x | 8u32) & 8u32 != 0,
        forall|x: u32| #[trigger] ((x | 4u32) & 8u32) == x & 8u32,
        forall|x: u32| #[trigger] ((x | 1u32) & 8u32) == x & 8u32,
        forall|x: u32| #[trigger] (((x | 4u32) | 1u32) & 8u32) == x & 8u32,
{
}

/// The condition flag bits of a status word read back as the flags it was
/// built from, and the mode bit is the one of the register it came from.
proof fn lemma_status_word_bits(x: u32, c: bool, z: bool, sg: bool, o: bool)
    by (bit_vector)
    ensures
        ({
            let w = (x & !(2u32 | 4u32 | 8u32 | 16u32)) | (if c { 2u32 } else { 0u32 }) | (if z { 4u32 } else { 0u32 }) | (
            if sg { 8u32 } else { 0u32 }) | (if o { 16u32 } else { 0u32 });
            &&& (w & 2u32 != 0) == c
            &&& (w & 4u32 != 0) == z
            &&& (w & 8u32 != 0) == sg
            &&& (w & 16u32 != 0) == o
            &&& w & 32u32 == x & 32u32
        }),
{
}

} // verus!
