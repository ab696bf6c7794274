// Register file: eight data registers R0..R7, plus PC, SP, BP, SR and LR as
// register numbers 8..12 for MOV and friends.
use vstd::prelude::*;
use vstd::string::StringExecFns;

use crate::constants::{SR_CARRY, SR_IE, SR_OVERFLOW, SR_SIGN, SR_ZERO};
use crate::machine::{Machine, MachineState};
use crate::text::{decimal, push_numeral};

verus! {

/// The message for a register number that does not exist.
pub open spec fn bad_register_message(reg: nat) -> Seq<char> {
    "Invalid register index "@ + decimal(reg)
}

impl MachineState {
    /// The architectural status register: the stored interrupt-enable and
    /// mode bits with the live condition flags.
    #[verifier::opaque]
    pub open spec fn status_word(self) -> u32 {
        (self.sr & !(SR_CARRY | SR_ZERO | SR_SIGN | SR_OVERFLOW)) | (if self.carry {
            SR_CARRY
        } else {
            0
        }) | (if self.zero {
            SR_ZERO
        } else {
            0
        }) | (if self.sign {
            SR_SIGN
        } else {
            0
        }) | (if self.overflow {
            SR_OVERFLOW
        } else {
            0
        })
    }

    /// The value of register `reg`, if it exists.
    #[verifier::opaque]
    pub open spec fn reg_value(self, reg: u8) -> Option<u32> {
        if reg <= 7 {
            Some(self.regs[reg as int])
        } else if reg == 8 {
            Some(self.pc)
        } else if reg == 9 {
            Some(self.sp)
        } else if reg == 10 {
            Some(self.bp)
        } else if reg == 11 {
            Some(self.status_word())
        } else if reg == 12 {
            Some(self.lr)
        } else {
            None
        }
    }

    /// The state after SR was written: the interrupt-enable state and the
    /// condition flags follow the written bits.
    #[verifier::opaque]
    pub open spec fn sr_restored(self, v: u32) -> MachineState {
        MachineState {
            sr: v,
            ie: v & SR_IE != 0,
            carry: v & SR_CARRY != 0,
            zero: v & SR_ZERO != 0,
            sign: v & SR_SIGN != 0,
            overflow: v & SR_OVERFLOW != 0,
            ..self
        }
    }

    /// The state after register `reg` was set to `v`, if the register exists.
    #[verifier::opaque]
    pub open spec fn with_register(self, reg: u8, v: u32) -> Option<MachineState> {
        if reg <= 7 {
            Some(MachineState { regs: self.regs.update(reg as int, v), ..self })
        } else if reg == 8 {
            Some(MachineState { pc: v, ..self })
        } else if reg == 9 {
            Some(MachineState { sp: v, ..self })
        } else if reg == 10 {
            Some(MachineState { bp: v, ..self })
        } else if reg == 11 {
            Some(self.sr_restored(v))
        } else if reg == 12 {
            Some(MachineState { lr: v, ..self })
        } else {
            None
        }
    }
}

fn bad_register(reg: u8) -> (r: String)
    ensures
        r@ == bad_register_message(reg as nat),
{
    let mut e = String::new();
    e.append("Invalid register index ");
    push_numeral(&mut e, reg as u64, 10, 0, false);
    e
}

impl Machine {
    /// Data register R`index`.
    pub fn get_data_register(&self, index: usize) -> (r: Result<u32, String>)
        requires
            self.wf(),
        ensures
            index < 8 ==> r == Ok::<u32, String>(self@.regs[index as int]),
            index >= 8 ==> (r matches Err(e) && e@ == "Register index out of range: "@ + decimal(
                index as nat,
            )),
    {
        if index < self.registers.len() {
            Ok(self.registers[index])
        } else {
            let mut e = String::new();
            e.append("Register index out of range: ");
            push_numeral(&mut e, index as u64, 10, 0, false);
            Err(e)
        }
    }

    pub fn stack_pointer(&self) -> (r: u32)
        ensures
            r == self@.sp,
    {
        self.stack_pointer
    }

    pub fn base_pointer(&self) -> (r: u32)
        ensures
            r == self@.bp,
    {
        self.base_pointer
    }

    pub fn program_counter(&self) -> (r: u32)
        ensures
            r == self@.pc,
    {
        self.program_counter
    }

    /// The status register, with the condition flags as they are now.
    pub fn status_register(&self) -> (r: u32)
        ensures
            r == self@.status_word(),
    {
        reveal(MachineState::status_word);
        let mut sr = self.status_register & !(SR_CARRY | SR_ZERO | SR_SIGN | SR_OVERFLOW);
        sr = sr | if self.carry_flag {
            SR_CARRY
        } else {
            0
        };
        sr = sr | if self.zero_flag {
            SR_ZERO
        } else {
            0
        };
        sr = sr | if self.sign_flag {
            SR_SIGN
        } else {
            0
        };
        sr = sr | if self.overflow_flag {
            SR_OVERFLOW
        } else {
            0
        };
        sr
    }

    pub fn link_register(&self) -> (r: u32)
        ensures
            r == self@.lr,
    {
        self.link_register
    }

    pub fn carry_flag(&self) -> (r: bool)
        ensures
            r == self@.carry,
    {
        self.carry_flag
    }

    pub fn zero_flag(&self) -> (r: bool)
        ensures
            r == self@.zero,
    {
        self.zero_flag
    }

    pub fn sign_flag(&self) -> (r: bool)
        ensures
            r == self@.sign,
    {
        self.sign_flag
    }

    pub fn overflow_flag(&self) -> (r: bool)
        ensures
            r == self@.overflow,
    {
        self.overflow_flag
    }

    /// Whether interrupts are enabled.
    pub fn interrupt_enable(&self) -> (r: bool)
        ensures
            r == self@.ie,
    {
        self.interrupt_enable
    }

    /// Whether an interrupt is pending.
    pub fn pending_irq(&self) -> (r: bool)
        ensures
            r == self@.pending_irq,
    {
        self.pending_irq
    }

    /// The pending interrupt causes (IRQ_CAUSE_*).
    pub fn irq_cause(&self) -> (r: u32)
        ensures
            r == self@.irq_cause,
    {
        self.irq_cause
    }

    /// Whether HALT has executed.
    pub fn is_halted(&self) -> (r: bool)
        ensures
            r == self@.halted,
    {
        self.halted
    }

    /// Whether the CPU is idle in WFI.
    pub fn is_waiting_for_interrupt(&self) -> (r: bool)
        ensures
            r == self@.wfi,
    {
        self.waiting_for_interrupt
    }

    /// Register `reg` (0..7 data, 8 PC, 9 SP, 10 BP, 11 SR, 12 LR).
    pub fn get_register(&self, reg: u8) -> (r: Result<u32, String>)
        requires
            self.wf(),
        ensures
            match self@.reg_value(reg) {
                Some(v) => r == Ok::<u32, String>(v),
                None => r matches Err(e) && e@ == bad_register_message(reg as nat),
            },
    {
        reveal(MachineState::reg_value);
        reveal(MachineState::status_word);
        if reg <= 7 {
            Ok(self.registers[reg as usize])
        } else if reg == 8 {
            Ok(self.program_counter)
        } else if reg == 9 {
            Ok(self.stack_pointer)
        } else if reg == 10 {
            Ok(self.base_pointer)
        } else if reg == 11 {
            Ok(self.status_register())
        } else if reg == 12 {
            Ok(self.link_register)
        } else {
            Err(bad_register(reg))
        }
    }

    /// Sets register `reg` (see `get_register`). Writing SR also sets the
    /// interrupt-enable state and the condition flags from the written bits.
    pub fn set_register(&mut self, reg: u8, value: u32) -> (r: Result<(), String>)
        requires
            old(self).wf(),
        ensures
            final(self).wf(),
            match old(self)@.with_register(reg, value) {
                Some(s) => r is Ok && final(self)@ == s,
                None => r matches Err(e) && e@ == bad_register_message(reg as nat) && final(self)@
                    == old(self)@,
            },
    {
        reveal(MachineState::with_register);
        if reg <= 7 {
            self.registers.set(reg as usize, value);
        } else if reg == 8 {
            self.program_counter = value;
        } else if reg == 9 {
            self.stack_pointer = value;
        } else if reg == 10 {
            self.base_pointer = value;
        } else if reg == 11 {
            self.restore_status_register(value);
        } else if reg == 12 {
            self.link_register = value;
        } else {
            return Err(bad_register(reg));
        }
        Ok(())
    }

    /// Sets the zero flag from a result.
    pub fn update_zero_flag(&mut self, value: u32)
        requires
            old(self).wf(),
        ensures
            final(self).wf(),
            final(self)@ == (MachineState { zero: value == 0, ..old(self)@ }),
    {
        self.zero_flag = value == 0;
    }

    /// Writes SR and keeps the interrupt-enable state and condition flags in
    /// step with it.
    pub fn restore_status_register(&mut self, value: u32)
        requires
            old(self).wf(),
        ensures
            final(self).wf(),
            final(self)@ == old(self)@.sr_restored(value),
    {
        reveal(MachineState::sr_restored);
        self.status_register = value;
        self.interrupt_enable = (value & SR_IE) != 0;
        self.carry_flag = (value & SR_CARRY) != 0;
        self.zero_flag = (value & SR_ZERO) != 0;
        self.sign_flag = (value & SR_SIGN) != 0;
        self.overflow_flag = (value & SR_OVERFLOW) != 0;
    }

    /// Points the program counter at `address`.
    pub fn set_instruction_pointer(&mut self, address: u32)
        requires
            old(self).wf(),
        ensures
            final(self).wf(),
            final(self)@ == (MachineState { pc: address, ..old(self)@ }),
    {
        self.program_counter = address;
    }
}

/// Reading SR back after writing it gives the written flags and
/// interrupt-enable state.
pub proof fn lemma_sr_roundtrip(s: MachineState, v: u32)
    ensures
        s.sr_restored(v).status_word() == v,
{
    reveal(MachineState::sr_restored);
    reveal(MachineState::status_word);
    assert(((v & !(2u32 | 4u32 | 8u32 | 16u32)) | (if v & 2 != 0 { 2u32 } else { 0u32 }) | (if v
        & 4 != 0 { 4u32 } else { 0u32 }) | (if v & 8 != 0 { 8u32 } else { 0u32 }) | (if v & 16 != 0 {
        16u32
    } else {
        0u32
    })) == v) by (bit_vector);
}

} // verus!
