// The emulated machine: CPU registers and flags, main memory, ROM, the two
// frame buffers, the memory-mapped device registers, and the devices behind
// them. Everything the host does around it (windows, files, clocks, threads)
// happens outside; the machine only computes.
use std::collections::HashMap;

use vstd::prelude::*;

pub mod cpu_exec;
pub mod diagnostics;
pub mod dma2d;
pub mod interrupts;
pub mod io_stats;
pub mod keyboard;
pub mod memory_bus;
pub mod mmu;
pub mod mouse;
pub mod png;
pub mod profile_report;
pub mod profiler;
pub mod registers;
pub mod run_loop;
pub mod serial;
pub mod ssd;
pub mod stack;
pub mod timer;

use crate::constants::{RAM_END_EXCLUSIVE, RAM_SIZE, RAM_START, ROM_SIZE, VRAM_WORDS};
use dma2d::{shape_fits, ShapeCommand};
use keyboard::{KeyEvent, KeyboardDevice};
use mmu::{Mmu, MmuState};
use mouse::{MouseDevice, MouseState};
use profiler::{Profiler, ProfilerState};
use serial::SerialDevice;
use ssd::SsdDevice;
use timer::{with_period, TimerDevice, TimerState};

verus! {

/// Run-loop options: trace every instruction, stop at an address, stop after
/// a number of instructions.
#[derive(Clone, Copy, Default)]
pub struct DebugOptions {
    pub trace: bool,
    pub break_addr: Option<u32>,
    pub step_count: Option<u64>,
}

pub struct Machine {
    pub ram: Vec<u8>,
    pub rom: Vec<u8>,
    pub io: HashMap<u32, u32>,
    // Back buffer: all VRAM writes (direct and DMA2D) land here.
    pub vram: Vec<u32>,
    // Front buffer: what the display scans out. A DISPLAY_SWAP copies vram
    // into it.
    pub front: Vec<u32>,
    pub swapped: bool,
    pub swaps: u64,
    // Hardware cursor state (CURSOR_* registers).
    pub cursor_x: u32,
    pub cursor_y: u32,
    pub cursor_visible: bool,
    pub instrs_retired: u64,
    pub registers: Vec<u32>,
    pub verbose: bool,
    // Bytes the guest transmitted on the serial port, not yet taken by the host.
    pub serial_tx_buf: Vec<u8>,
    pub profiler: Option<Profiler>,
    pub mmu: Mmu,
    pub stack_pointer: u32,
    pub base_pointer: u32,
    pub program_counter: u32,
    pub status_register: u32,
    pub link_register: u32,
    pub halted: bool,
    pub carry_flag: bool,
    pub zero_flag: bool,
    pub sign_flag: bool,
    pub overflow_flag: bool,
    pub interrupt_enable: bool,
    pub pending_irq: bool,
    pub waiting_for_interrupt: bool,
    pub irq_cause: u32,
    pub serial: SerialDevice,
    pub mouse: MouseDevice,
    pub keyboard: KeyboardDevice,
    pub timer: TimerDevice,
    pub ssd: SsdDevice,
    // A DMA2D shape command whose coverage the host still has to compute.
    pub pending_shape: Option<ShapeCommand>,
}

/// The architectural state of the machine.
pub struct MachineState {
    pub ram: Seq<u8>,
    pub rom: Seq<u8>,
    pub io: Map<u32, u32>,
    pub vram: Seq<u32>,
    pub front: Seq<u32>,
    pub swapped: bool,
    pub swaps: u64,
    pub cursor_x: u32,
    pub cursor_y: u32,
    pub cursor_visible: bool,
    pub instrs_retired: u64,
    pub regs: Seq<u32>,
    pub serial_tx: Seq<u8>,
    pub mmu: MmuState,
    pub sp: u32,
    pub bp: u32,
    pub pc: u32,
    pub sr: u32,
    pub lr: u32,
    pub halted: bool,
    pub carry: bool,
    pub zero: bool,
    pub sign: bool,
    pub overflow: bool,
    pub ie: bool,
    pub pending_irq: bool,
    pub wfi: bool,
    pub irq_cause: u32,
    pub rx: Seq<u8>,
    pub rx_connected: bool,
    pub mouse: MouseState,
    pub kbd: Seq<KeyEvent>,
    pub kbd_dropped: u64,
    pub timer: TimerState,
    pub ssd: SsdDevice,
    pub shape: Option<ShapeCommand>,
}

impl View for Machine {
    type V = MachineState;

    open spec fn view(&self) -> MachineState {
        MachineState {
            ram: self.ram@,
            rom: self.rom@,
            io: self.io@,
            vram: self.vram@,
            front: self.front@,
            swapped: self.swapped,
            swaps: self.swaps,
            cursor_x: self.cursor_x,
            cursor_y: self.cursor_y,
            cursor_visible: self.cursor_visible,
            instrs_retired: self.instrs_retired,
            regs: self.registers@,
            serial_tx: self.serial_tx_buf@,
            mmu: self.mmu@,
            sp: self.stack_pointer,
            bp: self.base_pointer,
            pc: self.program_counter,
            sr: self.status_register,
            lr: self.link_register,
            halted: self.halted,
            carry: self.carry_flag,
            zero: self.zero_flag,
            sign: self.sign_flag,
            overflow: self.overflow_flag,
            ie: self.interrupt_enable,
            pending_irq: self.pending_irq,
            wfi: self.waiting_for_interrupt,
            irq_cause: self.irq_cause,
            rx: self.serial.queue(),
            rx_connected: self.serial.connected(),
            mouse: self.mouse@,
            kbd: self.keyboard.queue(),
            kbd_dropped: self.keyboard.dropped_count(),
            timer: self.timer@,
            ssd: self.ssd,
            shape: self.pending_shape,
        }
    }
}

/// Whether an executable result matches a modelled one, errors compared by text.
pub open spec fn result_matches<T>(r: Result<T, String>, m: Result<T, Seq<char>>) -> bool {
    match (r, m) {
        (Ok(a), Ok(b)) => a == b,
        (Err(e), Err(t)) => e@ == t,
        _ => false,
    }
}

impl MachineState {
    /// Memory sizes are fixed and every device is in a consistent state.
    pub open spec fn wf(self) -> bool {
        &&& self.ram.len() == RAM_SIZE
        &&& self.rom.len() == ROM_SIZE
        &&& self.vram.len() == VRAM_WORDS
        &&& self.front.len() == VRAM_WORDS
        &&& self.regs.len() == 8
        &&& self.mmu.tlb_consistent()
        &&& self.mouse.wf()
        &&& self.kbd.len() <= crate::constants::KBD_EVENT_QUEUE_DEPTH
    }
}

impl Machine {
    /// The machine is in a state its operations accept.
    pub closed spec fn wf(&self) -> bool {
        &&& self@.wf()
        &&& self.mmu.wf()
        &&& self.keyboard.wf()
        &&& (self.profiler matches Some(p) ==> p.wf())
        &&& shape_fits(self@.shape, self@.vram.len() as int)
    }

    /// A machine its operations accept has a well-formed state: the memory
    /// sizes, eight data registers and consistent devices of `MachineState::wf`.
    pub proof fn lemma_wf_state(&self)
        requires
            self.wf(),
        ensures
            self@.wf(),
    {
    }

    /// Whether register tracing was requested.
    pub closed spec fn is_verbose(&self) -> bool {
        self.verbose
    }

    /// A powered-on machine: zeroed memory, PC at the start of RAM, an empty
    /// stack (SP at the end of RAM), paging and interrupts off, a 1 ms timer,
    /// no disk attached.
    pub fn new(verbose: bool) -> (r: Self)
        ensures
            r.wf(),
            r.is_verbose() == verbose,
            r@.pc == RAM_START,
            r@.sp == RAM_END_EXCLUSIVE,
            r@.bp == 0 && r@.sr == 0 && r@.lr == 0,
            r@.regs == seq![0u32, 0, 0, 0, 0, 0, 0, 0],
            !r@.halted && !r@.ie && !r@.pending_irq && !r@.wfi && r@.irq_cause == 0,
            !r@.carry && !r@.zero && !r@.sign && !r@.overflow,
            !r@.swapped && r@.swaps == 0,
            r@.io == Map::<u32, u32>::empty(),
            r@.serial_tx == Seq::<u8>::empty(),
            r@.rx == Seq::<u8>::empty(),
            r@.kbd == Seq::<KeyEvent>::empty(),
            r@.mouse.events == Seq::<mouse::MouseEvent>::empty(),
            !r@.mmu.enabled,
            r@.mmu.tlb_empty(),
            !r@.ssd.enabled && r@.ssd.pending_cmd is None,
            r@.shape is None,
            r@.instrs_retired == 0,
            forall|i: int| 0 <= i < r@.ram.len() ==> r@.ram[i] == 0,
            forall|i: int| 0 <= i < r@.rom.len() ==> r@.rom[i] == 0,
            forall|i: int| 0 <= i < r@.vram.len() ==> r@.vram[i] == 0,
            forall|i: int| 0 <= i < r@.front.len() ==> r@.front[i] == 0,
            r@.mouse.x == 0 && r@.mouse.y == 0 && r@.mouse.buttons == 0,
            r@.cursor_x == 0 && r@.cursor_y == 0 && !r@.cursor_visible,
            r@.kbd_dropped == 0,
            !r@.rx_connected,
            r@.timer.period_us == Some(1000u64),
            r.profile() is None,
    {
        let mut registers: Vec<u32> = Vec::new();
        registers.push(0);
        registers.push(0);
        registers.push(0);
        registers.push(0);
        registers.push(0);
        registers.push(0);
        registers.push(0);
        registers.push(0);
        let m = Self {
            ram: vec![0u8; RAM_SIZE as usize],
            rom: vec![0u8; ROM_SIZE as usize],
            io: HashMap::new(),
            vram: vec![0u32; VRAM_WORDS],
            front: vec![0u32; VRAM_WORDS],
            swapped: false,
            swaps: 0,
            cursor_x: 0,
            cursor_y: 0,
            cursor_visible: false,
            instrs_retired: 0,
            registers,
            verbose,
            serial_tx_buf: Vec::new(),
            profiler: None,
            mmu: Mmu::new(),
            stack_pointer: RAM_END_EXCLUSIVE,
            base_pointer: 0,
            program_counter: RAM_START,
            status_register: 0,
            link_register: 0,
            halted: false,
            carry_flag: false,
            zero_flag: false,
            sign_flag: false,
            overflow_flag: false,
            interrupt_enable: false,
            pending_irq: false,
            waiting_for_interrupt: false,
            irq_cause: 0,
            serial: SerialDevice::new(),
            mouse: MouseDevice::new(),
            keyboard: KeyboardDevice::new(),
            timer: TimerDevice::new(),
            ssd: SsdDevice::disabled(),
            pending_shape: None,
        };
        assert(m@.regs =~= seq![0u32, 0, 0, 0, 0, 0, 0, 0]);
        assert(shape_fits(None, m@.vram.len() as int)) by {
            reveal(shape_fits);
        }
        m
    }

    /// Attaches a disk: the host has opened its image and will carry out the
    /// transfers this machine hands it.
    pub fn attach_disk(&mut self)
        requires
            old(self).wf(),
        ensures
            final(self).wf(),
            final(self)@ == (MachineState {
                ssd: SsdDevice {
                    enabled: true,
                    block: 0,
                    buf_addr: 0,
                    status: crate::constants::SSD_STATUS_IDLE,
                    pending_cmd: None,
                },
                ..old(self)@
            }),
    {
        self.ssd = SsdDevice::attached();
    }

    /// Turns on instruction-level profiling. `entry_pc` seeds the call graph's
    /// outermost frame so instructions retired before the first CALL are still
    /// attributed.
    pub fn enable_profiler(&mut self, entry_pc: u32)
        requires
            old(self).wf(),
        ensures
            final(self).wf(),
            final(self)@ == old(self)@,
            final(self).profile() == Some(ProfilerState::started(entry_pc)),
    {
        self.profiler = Some(Profiler::new(entry_pc));
    }

    /// What the attached profiler has recorded, if one is attached.
    pub closed spec fn profile(&self) -> Option<ProfilerState> {
        match self.profiler {
            Some(p) => Some(p@),
            None => None,
        }
    }

    /// Puts `p` in place of the attached profiler and returns the one that
    /// was there; nothing else changes.
    pub(crate) fn swap_profiler(&mut self, p: Option<Profiler>) -> (r: Option<Profiler>)
        requires
            old(self).wf(),
            p matches Some(q) ==> q.wf(),
        ensures
            final(self).wf(),
            final(self)@ == old(self)@,
            final(self).profile() == match p {
                Some(q) => Some(q@),
                None => None,
            },
            r matches Some(q) ==> q.wf(),
            old(self).profile() == match r {
                Some(q) => Some(q@),
                None => None,
            },
    {
        let r = self.profiler.take();
        self.profiler = p;
        r
    }

    /// Detaches and returns the profiler, if one was attached.
    pub fn take_profiler(&mut self) -> (r: Option<Profiler>)
        requires
            old(self).wf(),
        ensures
            final(self).wf(),
            final(self)@ == old(self)@,
            match r {
                Some(p) => p.wf() && old(self).profile() == Some(p@),
                None => old(self).profile() is None,
            },
            final(self).profile() is None,
    {
        self.profiler.take()
    }

    /// Sets the timer period in microseconds; 0 disables the timer. The next
    /// tick is a full period from now.
    pub fn set_timer_interval(&mut self, micros: u64)
        requires
            old(self).wf(),
        ensures
            final(self).wf(),
            exists|now: u128|
                #![trigger with_period(old(self)@.timer, micros, now)]
                final(self)@ == (MachineState {
                    timer: with_period(old(self)@.timer, micros, now),
                    ..old(self)@
                }),
    {
        self.timer.set_period_micros(micros);
    }
}

} // verus!
