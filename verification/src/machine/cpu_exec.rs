// Instruction semantics.
use vstd::prelude::*;
use vstd::string::StringExecFns;

use crate::constants::{
    IO_BASE, IRQ_CAUSE_PRIVILEGE_VIOLATION, IRQ_CAUSE_SYSCALL, SR_CARRY, SR_IE, SR_OVERFLOW,
    SR_SIGN, SR_USER, SR_ZERO,
};
use crate::instruction::{
    add_signed, decode_instruction, decoded, opcode_of, sign_extend_21, sign_extend_26, wrap_add,
    DecodedInstruction, Opcode,
};
use crate::machine::mmu::{MmuFault, MmuState};
use crate::machine::profiler::{bumped, page_of, Profiler, ProfilerState};
use crate::machine::registers::bad_register_message;
use crate::machine::stack::{pop_error_message, push_error_message};
use crate::machine::{result_matches, Machine, MachineState};
use crate::text::{hex_upper, push_numeral};

verus! {

/// What an executed instruction asks of the host besides its effect on the machine.
#[derive(Clone, Copy, Debug, PartialEq, Eq, Structural)]
pub enum Executed {
    /// Nothing more.
    Normal,
    /// DEBUG: dump the registers and memory.
    DebugDump,
}

/// The message for an undefined opcode.
pub open spec fn unknown_opcode_message(opcode: u8) -> Seq<char> {
    "Unknown opcode: 0x"@ + hex_upper(opcode as nat)
}

/// Instructions user mode may not execute.
pub open spec fn privileged(op: Opcode) -> bool {
    op == Opcode::Halt || op == Opcode::Iret || op == Opcode::In || op == Opcode::Out || op
        == Opcode::Ei || op == Opcode::Di || op == Opcode::Wfi
}

/// The value of the signed 21-bit immediate, as a 32-bit word.
pub open spec fn simm21(imm: u32) -> u32 {
    let low = imm as int % 0x20_0000;
    (if low >= 0x10_0000 {
        low - 0x20_0000 + 0x1_0000_0000
    } else {
        low
    }) as u32
}

/// The branch target for displacement field `imm` from `pc` (the address of
/// the next instruction): the displacement is relative to the branch itself.
pub open spec fn branch_target(pc: u32, imm: u32) -> u32 {
    let low = imm as int % 0x400_0000;
    let offset = if low >= 0x200_0000 {
        low - 0x400_0000
    } else {
        low
    };
    wrap_add(pc as int, offset - 4)
}

/// Whether a word is negative as a two's-complement number.
pub open spec fn negative(v: u32) -> bool {
    v >= 0x8000_0000
}

impl MachineState {
    /// What executing `raw` records in profile `p`: LD and LDB count a data
    /// read and ST and STB a data write, on the page of the address their
    /// address register holds, once the registers they name have been read;
    /// nothing else is recorded.
    pub open spec fn exec_profiled(self, p: ProfilerState, raw: u32) -> ProfilerState {
        let d = decoded(raw);
        match opcode_of(d.opcode) {
            Some(op) => if op == Opcode::Ld || op == Opcode::Ldb {
                match self.reg_value(d.reg2) {
                    Some(a) => ProfilerState { mem_reads: bumped(p.mem_reads, page_of(a)), ..p },
                    None => p,
                }
            } else if op == Opcode::St || op == Opcode::Stb {
                match (self.reg_value(d.reg1), self.reg_value(d.reg2)) {
                    (Some(a), Some(_)) => ProfilerState {
                        mem_writes: bumped(p.mem_writes, page_of(a)),
                        ..p
                    },
                    _ => p,
                }
            } else {
                p
            },
            None => p,
        }
    }

    /// Writes `v` to register `r` and sets the zero flag from it.
    #[verifier::opaque]
    pub open spec fn assigned(self, r: u8, v: u32) -> (MachineState, Result<(), Seq<char>>) {
        match self.with_register(r, v) {
            None => (self, Err(bad_register_message(r as nat))),
            Some(s) => (MachineState { zero: v == 0, ..s }, Ok(())),
        }
    }

    /// MOV, MOVI, MOVIS.
    #[verifier::opaque]
    pub open spec fn exec_move(self, op: Opcode, d: DecodedInstruction) -> (MachineState, Result<
        (),
        Seq<char>,
    >) {
        if op == Opcode::Mov {
            match self.reg_value(d.reg2) {
                None => (self, Err(bad_register_message(d.reg2 as nat))),
                Some(v) => self.assigned(d.reg1, v),
            }
        } else if op == Opcode::Movi {
            self.assigned(d.reg1, (d.imm as int % 0x20_0000) as u32)
        } else {
            self.assigned(d.reg1, simm21(d.imm))
        }
    }

    /// LD, ST, LDB, STB, IN, OUT.
    #[verifier::opaque]
    pub open spec fn exec_memory(self, op: Opcode, d: DecodedInstruction) -> (MachineState, Result<
        (),
        Seq<char>,
    >) {
        if op == Opcode::Ld || op == Opcode::Ldb {
            match self.reg_value(d.reg2) {
                None => (self, Err(bad_register_message(d.reg2 as nat))),
                Some(addr) => if op == Opcode::Ld {
                    let (s, v) = self.loaded(addr);
                    s.assigned(d.reg1, v)
                } else {
                    let (s, v) = self.loaded_byte(addr);
                    s.assigned(d.reg1, v as u32)
                },
            }
        } else if op == Opcode::St || op == Opcode::Stb {
            match self.reg_value(d.reg1) {
                None => (self, Err(bad_register_message(d.reg1 as nat))),
                Some(addr) => match self.reg_value(d.reg2) {
                    None => (self, Err(bad_register_message(d.reg2 as nat))),
                    Some(v) => if op == Opcode::St {
                        (self.stored(addr, v), Ok(()))
                    } else {
                        (self.stored_byte(addr, (v as int % 256) as u8), Ok(()))
                    },
                },
            }
        } else if op == Opcode::In {
            let (s, v) = self.loaded(wrap_add(IO_BASE as int, d.imm as int));
            s.assigned(d.reg1, v)
        } else {
            match self.reg_value(d.reg1) {
                None => (self, Err(bad_register_message(d.reg1 as nat))),
                Some(v) => (self.stored(wrap_add(IO_BASE as int, d.imm as int), v), Ok(())),
            }
        }
    }

    /// The state after a subtraction `lhs - rhs` set the condition flags.
    pub open spec fn compared(self, lhs: u32, rhs: u32) -> MachineState {
        let result = wrap_add(lhs as int, -(rhs as int));
        MachineState {
            carry: lhs < rhs,
            zero: result == 0,
            sign: negative(result),
            overflow: negative(lhs) != negative(rhs) && negative(lhs) != negative(result),
            ..self
        }
    }

    /// ADD, ADDIS, SUB, CMP, AND, OR, XOR, SHL, SHR.
    #[verifier::opaque]
    pub open spec fn exec_alu(self, op: Opcode, d: DecodedInstruction) -> (MachineState, Result<
        (),
        Seq<char>,
    >) {
        match self.reg_value(d.reg1) {
            None => (self, Err(bad_register_message(d.reg1 as nat))),
            Some(lhs) => if op == Opcode::Addis {
                self.assigned(d.reg1, wrap_add(lhs as int, simm21(d.imm) as int))
            } else if op == Opcode::Shl {
                self.assigned(d.reg1, wrap_add(lhs as int, lhs as int))
            } else if op == Opcode::Shr {
                self.assigned(d.reg1, lhs / 2)
            } else {
                match self.reg_value(d.reg2) {
                    None => (self, Err(bad_register_message(d.reg2 as nat))),
                    Some(rhs) => if op == Opcode::Add {
                        self.assigned(d.reg1, wrap_add(lhs as int, rhs as int))
                    } else if op == Opcode::Sub {
                        let s = self.compared(lhs, rhs);
                        match s.with_register(d.reg1, wrap_add(lhs as int, -(rhs as int))) {
                            None => (s, Err(bad_register_message(d.reg1 as nat))),
                            Some(s2) => (s2, Ok(())),
                        }
                    } else if op == Opcode::Cmp {
                        (self.compared(lhs, rhs), Ok(()))
                    } else if op == Opcode::And {
                        self.assigned(d.reg1, lhs & rhs)
                    } else if op == Opcode::Or {
                        self.assigned(d.reg1, lhs | rhs)
                    } else {
                        self.assigned(d.reg1, lhs ^ rhs)
                    },
                }
            },
        }
    }

    /// Whether a conditional branch is taken.
    pub open spec fn branch_taken(self, op: Opcode) -> bool {
        if op == Opcode::Jz {
            self.zero
        } else if op == Opcode::Jnz {
            !self.zero
        } else if op == Opcode::Jg {
            !self.zero && self.sign == self.overflow
        } else if op == Opcode::Jl {
            self.sign != self.overflow
        } else if op == Opcode::Ja {
            !self.carry && !self.zero
        } else if op == Opcode::Jb {
            self.carry
        } else {
            true
        }
    }

    /// JMP, JZ, JNZ, JG, JL, JA, JB, CALL.
    #[verifier::opaque]
    pub open spec fn exec_branch(self, op: Opcode, d: DecodedInstruction) -> MachineState {
        if op == Opcode::Call {
            MachineState { lr: self.pc, pc: branch_target(self.pc, d.imm), ..self }
        } else if self.branch_taken(op) {
            MachineState { pc: branch_target(self.pc, d.imm), ..self }
        } else {
            self
        }
    }

    /// Return from an interrupt handler: pops SR then PC (the reverse of the
    /// entry), switches back to the user stack when returning to user mode,
    /// and restores the interrupt-enable state and condition flags.
    #[verifier::opaque]
    pub open spec fn interrupt_returned(self) -> (MachineState, Result<(), Seq<char>>) {
        match self.popped() {
            None => (self, Err(pop_error_message(self.sp))),
            Some((s1, sr)) => match s1.popped() {
                None => (s1, Err(pop_error_message(s1.sp))),
                Some((s2, pc)) => (s2.iret_restored(sr, pc), Ok(())),
            },
        }
    }

    /// The end of IRET once SR and PC were popped.
    #[verifier::opaque]
    pub open spec fn iret_restored(self, sr: u32, pc: u32) -> MachineState {
        let user = sr & SR_USER != 0;
        let ie = sr & SR_IE != 0;
        let mode = if user {
            self.sr | SR_USER
        } else {
            self.sr & !SR_USER
        };
        MachineState {
            pc,
            sp: if user {
                self.mmu.kernel_sp
            } else {
                self.sp
            },
            mmu: if user {
                MmuState { kernel_sp: self.sp, ..self.mmu }
            } else {
                self.mmu
            },
            sr: if ie {
                mode | SR_IE
            } else {
                mode & !SR_IE
            },
            ie,
            carry: sr & SR_CARRY != 0,
            zero: sr & SR_ZERO != 0,
            sign: sr & SR_SIGN != 0,
            overflow: sr & SR_OVERFLOW != 0,
            ..self
        }
    }

    /// PUSH, POP, EI, DI, SYSCALL, IRET, HALT, WFI.
    #[verifier::opaque]
    pub open spec fn exec_system(self, op: Opcode, d: DecodedInstruction) -> (MachineState, Result<
        (),
        Seq<char>,
    >) {
        if op == Opcode::Push {
            match self.reg_value(d.reg1) {
                None => (self, Err(bad_register_message(d.reg1 as nat))),
                Some(v) => match self.pushed(v) {
                    None => (self, Err(push_error_message(self.sp))),
                    Some(s) => (s, Ok(())),
                },
            }
        } else if op == Opcode::Pop {
            match self.popped() {
                None => (self, Err(pop_error_message(self.sp))),
                Some((s, v)) => s.assigned(d.reg1, v),
            }
        } else if op == Opcode::Ei {
            (self.with_ie(true), Ok(()))
        } else if op == Opcode::Di {
            (self.with_ie(false), Ok(()))
        } else if op == Opcode::Syscall {
            (self.raised(IRQ_CAUSE_SYSCALL), Ok(()))
        } else if op == Opcode::Iret {
            self.interrupt_returned()
        } else if op == Opcode::Halt {
            (MachineState { halted: true, ..self }, Ok(()))
        } else {
            // WFI stalls only with interrupts enabled; otherwise no interrupt
            // could ever wake the CPU, so it acts as a no-op.
            (MachineState { wfi: self.wfi || self.ie, ..self }, Ok(()))
        }
    }

    /// A privileged instruction in user mode: the privilege violation is
    /// recorded against the instruction's address and its interrupt raised.
    pub open spec fn privilege_trapped(self) -> MachineState {
        MachineState {
            mmu: self.mmu.with_fault(
                MmuFault::PrivilegeViolation { vaddr: wrap_add(self.pc as int, -4) },
            ),
            ..self
        }.raised(IRQ_CAUSE_PRIVILEGE_VIOLATION)
    }

    /// The effect of executing instruction word `raw` (PC already advanced
    /// past it).
    #[verifier::opaque]
    pub open spec fn executed(self, raw: u32) -> (MachineState, Result<Executed, Seq<char>>) {
        let d = decoded(raw);
        match opcode_of(d.opcode) {
            None => (self, Err(unknown_opcode_message(d.opcode))),
            Some(op) => if self.is_user() && privileged(op) {
                (self.privilege_trapped(), Ok(Executed::Normal))
            } else if op == Opcode::Debug {
                (self, Ok(Executed::DebugDump))
            } else {
                let (s, r) = if op == Opcode::Mov || op == Opcode::Movi || op == Opcode::Movis {
                    self.exec_move(op, d)
                } else if op == Opcode::Ld || op == Opcode::St || op == Opcode::Ldb || op
                    == Opcode::Stb || op == Opcode::In || op == Opcode::Out {
                    self.exec_memory(op, d)
                } else if op == Opcode::Add || op == Opcode::Addis || op == Opcode::Sub || op
                    == Opcode::Cmp || op == Opcode::And || op == Opcode::Or || op == Opcode::Xor
                    || op == Opcode::Shl || op == Opcode::Shr {
                    self.exec_alu(op, d)
                } else if op == Opcode::Jmp || op == Opcode::Jz || op == Opcode::Jnz || op
                    == Opcode::Jg || op == Opcode::Jl || op == Opcode::Ja || op == Opcode::Jb
                    || op == Opcode::Call {
                    (self.exec_branch(op, d), Ok(()))
                } else {
                    self.exec_system(op, d)
                };
                match r {
                    Ok(()) => (s, Ok(Executed::Normal)),
                    Err(e) => (s, Err(e)),
                }
            },
        }
    }
}

proof fn lemma_low21(x: u32)
    ensures
        x & 0x1F_FFFF == x % 0x20_0000,
{
    assert(x & 0x1F_FFFF == x % 0x20_0000) by (bit_vector);
}

proof fn lemma_negative(v: u32)
    ensures
        ((v as i32) < 0) == negative(v),
{
    assert(((v as i32) < 0) == (v >= 0x8000_0000)) by (bit_vector);
}

impl Machine {
    fn assign(&mut self, reg: u8, value: u32) -> (r: Result<(), String>)
        requires
            old(self).wf(),
        ensures
            final(self).wf(),
            final(self)@ == old(self)@.assigned(reg, value).0,
            result_matches(r, old(self)@.assigned(reg, value).1),
    {
        reveal(MachineState::assigned);
        self.set_register(reg, value)?;
        self.update_zero_flag(value);
        Ok(())
    }

    fn exec_move(&mut self, op: Opcode, inst: DecodedInstruction) -> (r: Result<(), String>)
        requires
            old(self).wf(),
            op == Opcode::Mov || op == Opcode::Movi || op == Opcode::Movis,
        ensures
            final(self).wf(),
            final(self)@ == old(self)@.exec_move(op, inst).0,
            result_matches(r, old(self)@.exec_move(op, inst).1),
    {
        reveal(MachineState::exec_move);
        match op {
            Opcode::Mov => {
                let rhs = self.get_register(inst.reg2)?;
                self.assign(inst.reg1, rhs)
            },
            Opcode::Movi => {
                let imm = inst.imm & 0x1F_FFFF;
                proof {
                    lemma_low21(inst.imm);
                }
                self.assign(inst.reg1, imm)
            },
            _ => {
                let imm = inst.imm & 0x1F_FFFF;
                proof {
                    lemma_low21(inst.imm);
                }
                let x = sign_extend_21(imm);
                let value = x as u32;
                assert(x as u32 == (if x < 0 {
                    x as int + 0x1_0000_0000
                } else {
                    x as int
                }) as u32) by (bit_vector);
                self.assign(inst.reg1, value)
            },
        }
    }

    fn exec_memory(&mut self, op: Opcode, inst: DecodedInstruction) -> (r: Result<(), String>)
        requires
            old(self).wf(),
            op == Opcode::Ld || op == Opcode::St || op == Opcode::Ldb || op == Opcode::Stb || op
                == Opcode::In || op == Opcode::Out,
        ensures
            final(self).wf(),
            final(self)@ == old(self)@.exec_memory(op, inst).0,
            result_matches(r, old(self)@.exec_memory(op, inst).1),
    {
        reveal(MachineState::exec_memory);
        match op {
            Opcode::Ld => {
                let addr = self.get_register(inst.reg2)?;
                let value = self.bus_load(addr);
                self.assign(inst.reg1, value)
            },
            Opcode::Ldb => {
                let addr = self.get_register(inst.reg2)?;
                let value = self.bus_load_byte(addr) as u32;
                self.assign(inst.reg1, value)
            },
            Opcode::St => {
                let addr = self.get_register(inst.reg1)?;
                let value = self.get_register(inst.reg2)?;
                self.bus_write(addr, value);
                Ok(())
            },
            Opcode::Stb => {
                let addr = self.get_register(inst.reg1)?;
                let value = self.get_register(inst.reg2)?;
                assert((value as u8) == (value as int % 256) as u8) by (bit_vector);
                self.bus_write_byte(addr, value as u8);
                Ok(())
            },
            Opcode::In => {
                let value = self.bus_load(IO_BASE.wrapping_add(inst.imm));
                self.assign(inst.reg1, value)
            },
            _ => {
                let value = self.get_register(inst.reg1)?;
                self.bus_write(IO_BASE.wrapping_add(inst.imm), value);
                Ok(())
            },
        }
    }

    fn set_compare_flags(&mut self, lhs: u32, rhs: u32) -> (result: u32)
        requires
            old(self).wf(),
        ensures
            final(self).wf(),
            final(self)@ == old(self)@.compared(lhs, rhs),
            result == wrap_add(lhs as int, -(rhs as int)),
    {
        let result = lhs.wrapping_sub(rhs);
        proof {
            lemma_negative(lhs);
            lemma_negative(rhs);
            lemma_negative(result);
        }
        self.carry_flag = lhs < rhs;
        self.zero_flag = result == 0;
        self.sign_flag = (result as i32) < 0;
        self.overflow_flag = (((lhs as i32) < 0) != ((rhs as i32) < 0)) && (((lhs as i32) < 0)
            != ((result as i32) < 0));
        result
    }

    #[verifier::spinoff_prover]
    fn exec_alu(&mut self, op: Opcode, inst: DecodedInstruction) -> (r: Result<(), String>)
        requires
            old(self).wf(),
            op == Opcode::Add || op == Opcode::Addis || op == Opcode::Sub || op == Opcode::Cmp
                || op == Opcode::And || op == Opcode::Or || op == Opcode::Xor || op == Opcode::Shl
                || op == Opcode::Shr,
        ensures
            final(self).wf(),
            final(self)@ == old(self)@.exec_alu(op, inst).0,
            result_matches(r, old(self)@.exec_alu(op, inst).1),
    {
        reveal(MachineState::exec_alu);
        let lhs = self.get_register(inst.reg1)?;
        match op {
            Opcode::Addis => {
                let imm = inst.imm & 0x1F_FFFF;
                proof {
                    lemma_low21(inst.imm);
                }
                let x = sign_extend_21(imm);
                let rhs = x as u32;
                assert(x as u32 == (if x < 0 {
                    x as int + 0x1_0000_0000
                } else {
                    x as int
                }) as u32) by (bit_vector);
                self.assign(inst.reg1, lhs.wrapping_add(rhs))
            },
            Opcode::Shl => {
                let value = lhs << 1u32;
                assert(lhs << 1u32 == lhs.wrapping_add(lhs)) by (bit_vector);
                self.assign(inst.reg1, value)
            },
            Opcode::Shr => {
                let value = lhs >> 1u32;
                assert(lhs >> 1u32 == lhs / 2) by (bit_vector);
                self.assign(inst.reg1, value)
            },
            _ => {
                let rhs = self.get_register(inst.reg2)?;
                match op {
                    Opcode::Add => self.assign(inst.reg1, lhs.wrapping_add(rhs)),
                    Opcode::Sub => {
                        let result = self.set_compare_flags(lhs, rhs);
                        self.set_register(inst.reg1, result)
                    },
                    Opcode::Cmp => {
                        self.set_compare_flags(lhs, rhs);
                        Ok(())
                    },
                    Opcode::And => self.assign(inst.reg1, lhs & rhs),
                    Opcode::Or => self.assign(inst.reg1, lhs | rhs),
                    _ => self.assign(inst.reg1, lhs ^ rhs),
                }
            },
        }
    }

    fn exec_branch(&mut self, op: Opcode, inst: DecodedInstruction)
        requires
            old(self).wf(),
            op == Opcode::Jmp || op == Opcode::Jz || op == Opcode::Jnz || op == Opcode::Jg || op
                == Opcode::Jl || op == Opcode::Ja || op == Opcode::Jb || op == Opcode::Call,
        ensures
            final(self).wf(),
            final(self)@ == old(self)@.exec_branch(op, inst),
    {
        reveal(MachineState::exec_branch);
        let taken = match op {
            Opcode::Jz => self.zero_flag,
            Opcode::Jnz => !self.zero_flag,
            Opcode::Jg => !self.zero_flag && (self.sign_flag == self.overflow_flag),
            Opcode::Jl => self.sign_flag != self.overflow_flag,
            Opcode::Ja => !self.carry_flag && !self.zero_flag,
            Opcode::Jb => self.carry_flag,
            _ => true,
        };
        if op == Opcode::Call {
            self.link_register = self.program_counter;
        }
        if taken {
            let offset = sign_extend_26(inst.imm);
            self.program_counter = add_signed(self.program_counter, offset - 4);
        }
    }

    fn iret_restore(&mut self, sr: u32, pc: u32)
        requires
            old(self).wf(),
        ensures
            final(self).wf(),
            final(self)@ == old(self)@.iret_restored(sr, pc),
    {
        reveal(MachineState::iret_restored);
        self.program_counter = pc;
        let user = (sr & SR_USER) != 0;
        let mode = if user {
            let kernel_sp = self.stack_pointer;
            self.stack_pointer = self.mmu.kernel_sp;
            self.mmu.kernel_sp = kernel_sp;
            self.status_register | SR_USER
        } else {
            self.status_register & !SR_USER
        };
        // Restoring SR also restores the interrupt-enable state, so the
        // resumed code regains the IE it had when interrupted.
        let ie = (sr & SR_IE) != 0;
        self.interrupt_enable = ie;
        self.status_register = if ie {
            mode | SR_IE
        } else {
            mode & !SR_IE
        };
        self.carry_flag = (sr & SR_CARRY) != 0;
        self.zero_flag = (sr & SR_ZERO) != 0;
        self.sign_flag = (sr & SR_SIGN) != 0;
        self.overflow_flag = (sr & SR_OVERFLOW) != 0;
    }

    fn return_from_interrupt(&mut self) -> (r: Result<(), String>)
        requires
            old(self).wf(),
        ensures
            final(self).wf(),
            final(self)@ == old(self)@.interrupt_returned().0,
            result_matches(r, old(self)@.interrupt_returned().1),
    {
        reveal(MachineState::interrupt_returned);
        // Reverse of the interrupt entry push order (PC then SR).
        let sr = self.pop()?;
        let pc = self.pop()?;
        self.iret_restore(sr, pc);
        Ok(())
    }

    fn exec_system(&mut self, op: Opcode, inst: DecodedInstruction) -> (r: Result<(), String>)
        requires
            old(self).wf(),
            op == Opcode::Push || op == Opcode::Pop || op == Opcode::Ei || op == Opcode::Di || op
                == Opcode::Syscall || op == Opcode::Iret || op == Opcode::Halt || op == Opcode::Wfi,
        ensures
            final(self).wf(),
            final(self)@ == old(self)@.exec_system(op, inst).0,
            result_matches(r, old(self)@.exec_system(op, inst).1),
    {
        reveal(MachineState::exec_system);
        reveal(MachineState::raised);
        match op {
            Opcode::Push => {
                let value = self.get_register(inst.reg1)?;
                self.push(value)
            },
            Opcode::Pop => {
                let value = self.pop()?;
                self.assign(inst.reg1, value)
            },
            Opcode::Ei => {
                self.set_interrupt_enable(true);
                Ok(())
            },
            Opcode::Di => {
                self.set_interrupt_enable(false);
                Ok(())
            },
            Opcode::Syscall => {
                self.irq_cause = self.irq_cause | IRQ_CAUSE_SYSCALL;
                self.pending_irq = true;
                Ok(())
            },
            Opcode::Iret => self.return_from_interrupt(),
            Opcode::Halt => {
                self.halted = true;
                Ok(())
            },
            _ => {
                // WFI: only stall with interrupts enabled; with IE clear no
                // interrupt could ever wake the CPU.
                if self.interrupt_enable {
                    self.waiting_for_interrupt = true;
                }
                Ok(())
            },
        }
    }

    /// Executes one instruction word; the program counter has already been
    /// advanced past it. An undefined opcode, a register number that does
    /// not exist and a refused stack access are errors that stop the machine.
    /// An attached profiler counts the data accesses of loads and stores
    /// (see `MachineState::exec_profiled`).
    pub fn execute_instruction(&mut self, raw_instruction: u32) -> (r: Result<Executed, String>)
        requires
            old(self).wf(),
        ensures
            final(self).wf(),
            final(self)@ == old(self)@.executed(raw_instruction).0,
            result_matches(r, old(self)@.executed(raw_instruction).1),
            final(self).profile() == match old(self).profile() {
                Some(p) => Some(old(self)@.exec_profiled(p, raw_instruction)),
                None => None,
            },
    {
        let mut saved = self.swap_profiler(None);
        match saved.as_mut() {
            Some(p) => self.record_accesses(p, raw_instruction),
            None => {},
        }
        let r = self.execute_unprofiled(raw_instruction);
        let _ = self.swap_profiler(saved);
        r
    }

    /// Counts in `p` the data access that executing `raw` makes, if any.
    fn record_accesses(&self, p: &mut Profiler, raw: u32)
        requires
            self.wf(),
            old(p).wf(),
        ensures
            final(p).wf(),
            final(p)@ == self@.exec_profiled(old(p)@, raw),
    {
        let inst = decode_instruction(raw);
        match Opcode::try_from(inst.opcode) {
            Ok(Opcode::Ld) | Ok(Opcode::Ldb) => {
                match self.get_register(inst.reg2) {
                    Ok(addr) => p.record_mem_read(addr),
                    Err(_) => {},
                }
            },
            Ok(Opcode::St) | Ok(Opcode::Stb) => {
                match (self.get_register(inst.reg1), self.get_register(inst.reg2)) {
                    (Ok(addr), Ok(_)) => p.record_mem_write(addr),
                    _ => {},
                }
            },
            _ => {},
        }
    }

    fn execute_unprofiled(&mut self, raw_instruction: u32) -> (r: Result<Executed, String>)
        requires
            old(self).wf(),
        ensures
            final(self).wf(),
            final(self)@ == old(self)@.executed(raw_instruction).0,
            result_matches(r, old(self)@.executed(raw_instruction).1),
    {
        reveal(MachineState::executed);
        reveal(MachineState::raised);
        let inst = decode_instruction(raw_instruction);
        let opcode = match Opcode::try_from(inst.opcode) {
            Ok(op) => op,
            Err(_) => {
                let mut e = String::new();
                e.append("Unknown opcode: 0x");
                push_numeral(&mut e, inst.opcode as u64, 16, 0, true);
                return Err(e);
            },
        };
        let user = self.status_register & SR_USER != 0;
        if user {
            match opcode {
                Opcode::Halt | Opcode::Iret | Opcode::In | Opcode::Out | Opcode::Ei | Opcode::Di
                | Opcode::Wfi => {
                    self.mmu.record_fault(
                        MmuFault::PrivilegeViolation { vaddr: self.program_counter.wrapping_sub(4) },
                    );
                    self.irq_cause = self.irq_cause | IRQ_CAUSE_PRIVILEGE_VIOLATION;
                    self.pending_irq = true;
                    return Ok(Executed::Normal);
                },
                _ => {},
            }
        }
        let r = match opcode {
            Opcode::Debug => {
                return Ok(Executed::DebugDump);
            },
            Opcode::Mov | Opcode::Movi | Opcode::Movis => self.exec_move(opcode, inst),
            Opcode::Ld | Opcode::St | Opcode::Ldb | Opcode::Stb | Opcode::In | Opcode::Out => {
                self.exec_memory(opcode, inst)
            },
            Opcode::Add | Opcode::Addis | Opcode::Sub | Opcode::Cmp | Opcode::And | Opcode::Or
            | Opcode::Xor | Opcode::Shl | Opcode::Shr => self.exec_alu(opcode, inst),
            Opcode::Jmp | Opcode::Jz | Opcode::Jnz | Opcode::Jg | Opcode::Jl | Opcode::Ja
            | Opcode::Jb | Opcode::Call => {
                self.exec_branch(opcode, inst);
                Ok(())
            },
            _ => self.exec_system(opcode, inst),
        };
        match r {
            Ok(()) => Ok(Executed::Normal),
            Err(e) => Err(e),
        }
    }
}

/// The value of a 32-bit word read as a two's-complement signed number.
pub open spec fn signed_value(v: u32) -> int {
    if v >= 0x8000_0000 {
        v as int - 0x1_0000_0000
    } else {
        v as int
    }
}

/// After CMP compares `lhs` with `rhs`, each conditional branch decides by
/// comparing the operands: JZ when they are equal, JNZ when they differ, JG
/// and JL when `lhs` is greater or less as a signed 32-bit number, JA and JB
/// when it is greater or less as an unsigned one. A taken branch jumps to
/// its target; one not taken leaves PC where it was.
pub proof fn lemma_branch_after_compare(s: MachineState, lhs: u32, rhs: u32, op: Opcode, d: DecodedInstruction)
    requires
        op == Opcode::Jz || op == Opcode::Jnz || op == Opcode::Jg || op == Opcode::Jl || op
            == Opcode::Ja || op == Opcode::Jb,
    ensures
        s.compared(lhs, rhs).branch_taken(Opcode::Jz) == (lhs == rhs),
        s.compared(lhs, rhs).branch_taken(Opcode::Jnz) == (lhs != rhs),
        s.compared(lhs, rhs).branch_taken(Opcode::Jg) == (signed_value(lhs) > signed_value(rhs)),
        s.compared(lhs, rhs).branch_taken(Opcode::Jl) == (signed_value(lhs) < signed_value(rhs)),
        s.compared(lhs, rhs).branch_taken(Opcode::Ja) == (lhs > rhs),
        s.compared(lhs, rhs).branch_taken(Opcode::Jb) == (lhs < rhs),
        s.compared(lhs, rhs).exec_branch(op, d).pc == if s.compared(lhs, rhs).branch_taken(op) {
            branch_target(s.pc, d.imm)
        } else {
            s.pc
        },
{
    reveal(MachineState::exec_branch);
    let diff = lhs as int - rhs as int;
    let result = wrap_add(lhs as int, -(rhs as int));
    if diff >= 0 {
        assert(result == diff);
    } else {
        assert(result == diff + 0x1_0000_0000);
    }
}

} // verus!
