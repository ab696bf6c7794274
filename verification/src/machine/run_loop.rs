// One step of the CPU. The host drives the loop around it: polling devices,
// refreshing the display, sleeping while the guest waits for an interrupt,
// stopping at a breakpoint or after a number of instructions.
use vstd::prelude::*;

use crate::bytes::be_store;
use crate::constants::{ROM_START, ROM_SIZE};
use crate::instruction::{decode_instruction, wrap_add};
use crate::machine::cpu_exec::Executed;
use crate::machine::profiler::ProfilerState;
use crate::machine::{result_matches, DebugOptions, Machine, MachineState};

verus! {

/// What one step did.
#[derive(Clone, Copy, Debug, PartialEq, Eq, Structural)]
pub enum StepOutcome {
    /// The machine has halted; nothing was done.
    Halted,
    /// The CPU waits for an interrupt; nothing was executed.
    Idle,
    /// The instruction word `instruction` at `pc` was executed. `debug_dump`
    /// is set when it was DEBUG, which asks the host for a register and
    /// memory dump.
    Retired { pc: u32, instruction: u32, debug_dump: bool },
}

impl MachineState {
    /// One step: dispatch a pending interrupt, then (unless idle) read the
    /// instruction word at PC from the physical bus, advance PC past it and
    /// execute it.
    #[verifier::opaque]
    pub open spec fn stepped(self) -> (MachineState, Result<StepOutcome, Seq<char>>) {
        if self.halted {
            (self, Ok(StepOutcome::Halted))
        } else {
            let (s1, r1) = self.dispatched();
            match r1 {
                Err(e) => (s1, Err(e)),
                Ok(()) => if s1.wfi {
                    (s1, Ok(StepOutcome::Idle))
                } else {
                    let w = s1.read_word(s1.pc);
                    MachineState { pc: wrap_add(s1.pc as int, 4), ..s1 }.ran(w, s1.pc)
                },
            }
        }
    }

    /// What a step records in profile `p` (see `stepped`): the data accesses
    /// of the instruction it runs, then the instruction itself with the PC
    /// and LR it left; nothing when no instruction ran or it failed.
    #[verifier::opaque]
    pub open spec fn step_profiled(self, p: ProfilerState) -> ProfilerState {
        if self.halted {
            p
        } else {
            let (s1, r1) = self.dispatched();
            if r1 is Err || s1.wfi {
                p
            } else {
                let w = s1.read_word(s1.pc);
                let s2 = MachineState { pc: wrap_add(s1.pc as int, 4), ..s1 };
                let p2 = s2.exec_profiled(p, w);
                let (s4, r) = s2.executed(w);
                match r {
                    Err(_) => p2,
                    Ok(_) => p2.retired(s1.pc, w, s4.pc, s4.lr),
                }
            }
        }
    }

    /// Executing fetched word `w` from address `pc`, and counting it as retired.
    #[verifier::opaque]
    pub open spec fn ran(self, w: u32, pc: u32) -> (MachineState, Result<StepOutcome, Seq<char>>) {
        let (s4, r) = self.executed(w);
        match r {
            Err(e) => (s4, Err(e)),
            Ok(x) => (
                MachineState {
                    instrs_retired: ((s4.instrs_retired + 1) % 0x1_0000_0000_0000_0000) as u64,
                    ..s4
                },
                Ok(StepOutcome::Retired { pc, instruction: w, debug_dump: x == Executed::DebugDump }),
            ),
        }
    }

    /// The state after storing `program` word by word at `start`,
    /// `start + 4`, ... through the MMU, the first `n` words of it.
    pub open spec fn program_stored(self, program: Seq<u32>, start: u32, n: nat) -> MachineState
        decreases n,
    {
        if n == 0 {
            self
        } else {
            self.program_stored(program, start, (n - 1) as nat).stored(
                wrap_add(start as int, 4 * (n - 1)),
                program[n - 1],
            )
        }
    }

    /// ROM with `binary` stored big-endian from `start`, the first `n` words.
    pub open spec fn rom_stored(self, binary: Seq<u32>, start: u32, n: nat) -> Seq<u8>
        decreases n,
    {
        if n == 0 {
            self.rom
        } else {
            let off = start - ROM_START + 4 * (n - 1);
            let prev = self.rom_stored(binary, start, (n - 1) as nat);
            if off + 3 < prev.len() {
                be_store(prev, off, binary[n - 1])
            } else {
                prev
            }
        }
    }
}

impl Machine {
    /// Executes one step (see `MachineState::stepped`), feeding the profiler
    /// when one is attached (see `MachineState::step_profiled`).
    #[verifier::spinoff_prover]
    #[verifier::rlimit(60)]
    pub fn step(&mut self) -> (r: Result<StepOutcome, String>)
        requires
            old(self).wf(),
        ensures
            final(self).wf(),
            final(self)@ == old(self)@.stepped().0,
            result_matches(r, old(self)@.stepped().1),
            final(self).profile() == match old(self).profile() {
                Some(p) => Some(old(self)@.step_profiled(p)),
                None => None,
            },
    {
        reveal(MachineState::stepped);
        reveal(MachineState::ran);
        reveal(MachineState::step_profiled);
        if self.halted {
            return Ok(StepOutcome::Halted);
        }
        // Interrupt entry does not touch the profile.
        let saved = self.swap_profiler(None);
        let dispatched = self.try_dispatch_irq();
        let _ = self.swap_profiler(saved);
        match dispatched {
            Ok(()) => {},
            Err(e) => {
                return Err(e);
            },
        }
        if self.waiting_for_interrupt {
            return Ok(StepOutcome::Idle);
        }
        let current_pc = self.program_counter;
        let instruction = self.bus_read(current_pc);
        self.program_counter = self.program_counter.wrapping_add(4);
        self.run_fetched(instruction, current_pc)
    }

    fn run_fetched(&mut self, instruction: u32, current_pc: u32) -> (r: Result<StepOutcome, String>)
        requires
            old(self).wf(),
        ensures
            final(self).wf(),
            final(self)@ == old(self)@.ran(instruction, current_pc).0,
            result_matches(r, old(self)@.ran(instruction, current_pc).1),
            final(self).profile() == match old(self).profile() {
                Some(p) => {
                    let p2 = old(self)@.exec_profiled(p, instruction);
                    let (s4, x) = old(self)@.executed(instruction);
                    Some(
                        match x {
                            Err(_) => p2,
                            Ok(_) => p2.retired(current_pc, instruction, s4.pc, s4.lr),
                        },
                    )
                },
                None => None,
            },
    {
        reveal(MachineState::ran);
        let executed = self.execute_instruction(instruction)?;
        self.instrs_retired = self.instrs_retired.wrapping_add(1);
        self.profile_instruction(current_pc, instruction);
        Ok(
            StepOutcome::Retired {
                pc: current_pc,
                instruction,
                debug_dump: executed == Executed::DebugDump,
            },
        )
    }

    /// Feeds a retired instruction to the profiler, after it executed so
    /// that PC and LR reflect any jump or call it made.
    fn profile_instruction(&mut self, pc: u32, instruction: u32)
        requires
            old(self).wf(),
        ensures
            final(self).wf(),
            final(self)@ == old(self)@,
            final(self).profile() == match old(self).profile() {
                Some(p) => Some(p.retired(pc, instruction, old(self)@.pc, old(self)@.lr)),
                None => None,
            },
    {
        let landed_pc = self.program_counter;
        let return_addr = self.link_register;
        let opcode = decode_instruction(instruction).opcode;
        match self.profiler.as_mut() {
            Some(profiler) => {
                profiler.record_instruction(pc, opcode);
                if opcode == 0x1B {
                    // CALL set LR to its return address and PC to the callee.
                    profiler.record_call(landed_pc, return_addr);
                } else {
                    // Any other control flow may unwind call frames.
                    profiler.record_control_flow(landed_pc);
                }
            },
            None => {},
        }
    }

    /// Stores a program word by word at `start_address` onwards (through the MMU).
    pub fn load_program(&mut self, program: &[u32], start_address: u32)
        requires
            old(self).wf(),
        ensures
            final(self).wf(),
            final(self)@ == old(self)@.program_stored(program@, start_address, program@.len()),
    {
        let ghost start = self@;
        let mut address = start_address;
        let mut i: usize = 0;
        while i < program.len()
            invariant
                i <= program@.len(),
                self.wf(),
                self@ == start.program_stored(program@, start_address, i as nat),
                address == wrap_add(start_address as int, 4 * i),
            decreases program@.len() - i,
        {
            self.bus_write(address, program[i]);
            address = address.wrapping_add(4);
            i = i + 1;
        }
    }

    /// Stores a binary image in ROM from `start_address` (a ROM address),
    /// skipping words that would run past its end.
    pub fn load_rom(&mut self, binary: &[u32], start_address: u32)
        requires
            old(self).wf(),
            ROM_START <= start_address,
            start_address + 4 * binary@.len() <= u32::MAX,
        ensures
            final(self).wf(),
            final(self)@ == (MachineState {
                rom: old(self)@.rom_stored(binary@, start_address, binary@.len()),
                ..old(self)@
            }),
    {
        let ghost start = self@;
        let mut i: usize = 0;
        while i < binary.len()
            invariant
                i <= binary@.len(),
                self.wf(),
                ROM_START <= start_address,
                start_address + 4 * binary@.len() <= u32::MAX,
                self@ == (MachineState { rom: start.rom_stored(binary@, start_address, i as nat), ..start }),
            decreases binary@.len() - i,
        {
            let addr = start_address + (i as u32) * 4;
            let offset = (addr - ROM_START) as usize;
            if offset + 3 < self.rom.len() {
                crate::bytes::write_be_u32(&mut self.rom, offset, binary[i]);
            }
            i = i + 1;
        }
    }
}

/// Instructions between two rounds of host work (device polling, input,
/// display refresh) while the CPU is busy.
pub const BATCH_SIZE: u64 = 1000;

/// The longest the host sleeps while the guest waits for an interrupt.
pub const WFI_SLEEP_CAP_NS: u128 = 4_000_000;

/// What to do at the top of an iteration of the run loop.
#[derive(Clone, Copy, Debug, PartialEq, Eq, Structural)]
pub enum Checkpoint {
    /// PC is at the breakpoint: report and stop.
    Break,
    /// Poll devices and input and refresh the display, then step.
    Service,
    /// Step.
    Proceed,
}

/// The run loop's bookkeeping: the breakpoint and step limit, how many
/// instructions ran, and where the current batch stands.
#[derive(Clone, Copy, Debug, PartialEq, Eq, Structural)]
pub struct RunControl {
    pub break_addr: Option<u32>,
    pub step_count: Option<u64>,
    pub executed_steps: u64,
    pub batch_counter: u64,
}

/// How long to sleep while idle: until the next timer tick, at most the cap
/// (the cap when the timer is off).
pub open spec fn idle_sleep_of(until_tick: Option<u128>) -> u128 {
    match until_tick {
        Some(t) => if t < WFI_SLEEP_CAP_NS {
            t
        } else {
            WFI_SLEEP_CAP_NS
        },
        None => WFI_SLEEP_CAP_NS,
    }
}

/// See `idle_sleep_of`.
pub fn idle_sleep(until_tick: Option<u128>) -> (r: u128)
    ensures
        r == idle_sleep_of(until_tick),
{
    match until_tick {
        Some(t) => if t < WFI_SLEEP_CAP_NS {
            t
        } else {
            WFI_SLEEP_CAP_NS
        },
        None => WFI_SLEEP_CAP_NS,
    }
}

impl RunControl {
    /// A run with the given breakpoint and step limit, nothing executed yet.
    pub fn new(options: &DebugOptions) -> (r: RunControl)
        ensures
            r == (RunControl {
                break_addr: options.break_addr,
                step_count: options.step_count,
                executed_steps: 0,
                batch_counter: 0,
            }),
    {
        RunControl {
            break_addr: options.break_addr,
            step_count: options.step_count,
            executed_steps: 0,
            batch_counter: 0,
        }
    }

    /// At the top of an iteration with PC at `pc`: break at the breakpoint;
    /// otherwise count the iteration into the batch, and when the batch is
    /// full or the CPU is idle, start a new one and ask for host work.
    pub fn checkpoint(&mut self, pc: u32, waiting: bool) -> (r: Checkpoint)
        requires
            old(self).batch_counter < BATCH_SIZE,
        ensures
            final(self).batch_counter < BATCH_SIZE,
            old(self).break_addr == Some(pc) ==> r == Checkpoint::Break && *final(self) == *old(self),
            old(self).break_addr != Some(pc) && (old(self).batch_counter + 1 >= BATCH_SIZE || waiting)
                ==> r == Checkpoint::Service && *final(self) == (RunControl {
                batch_counter: 0,
                ..*old(self)
            }),
            old(self).break_addr != Some(pc) && old(self).batch_counter + 1 < BATCH_SIZE && !waiting
                ==> r == Checkpoint::Proceed && *final(self) == (RunControl {
                batch_counter: (old(self).batch_counter + 1) as u64,
                ..*old(self)
            }),
    {
        match self.break_addr {
            Some(b) => {
                if b == pc {
                    return Checkpoint::Break;
                }
            },
            None => {},
        }
        self.batch_counter = self.batch_counter + 1;
        if self.batch_counter >= BATCH_SIZE || waiting {
            self.batch_counter = 0;
            Checkpoint::Service
        } else {
            Checkpoint::Proceed
        }
    }

    /// Whether an idle CPU pauses the run: under a step limit no instruction
    /// would ever run, so the run stops instead of waiting.
    pub fn idle_pauses(&self) -> (r: bool)
        ensures
            r == self.step_count is Some,
    {
        self.step_count.is_some()
    }

    /// Counts a retired instruction; true when the step limit is reached.
    pub fn retired(&mut self) -> (r: bool)
        ensures
            final(self).executed_steps == (if old(self).executed_steps == u64::MAX {
                0
            } else {
                old(self).executed_steps + 1
            }),
            *final(self) == (RunControl { executed_steps: final(self).executed_steps, ..*old(self) }),
            r == match old(self).step_count {
                Some(limit) => final(self).executed_steps >= limit,
                None => false,
            },
    {
        self.executed_steps = self.executed_steps.wrapping_add(1);
        match self.step_count {
            Some(limit) => self.executed_steps >= limit,
            None => false,
        }
    }
}

} // verus!
