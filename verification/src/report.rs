// The end-of-run register summary and the `--reg` register choice.
use vstd::prelude::*;
use vstd::string::StringExecFns;

use crate::machine::diagnostics::bool_text;
use crate::machine::{Machine, MachineState};
use crate::text::{decimal, hex_lower, numeral, push_numeral};

verus! {

/// `v` read as a two's-complement `i32`, as `{}` writes it.
pub open spec fn signed_text(v: u32) -> Seq<char> {
    if v >= 0x8000_0000 {
        "-"@ + decimal((0x1_0000_0000 - v) as nat)
    } else {
        decimal(v as nat)
    }
}

/// One register line of the summary.
pub open spec fn summary_line(i: nat, v: u32) -> Seq<char> {
    "R"@ + decimal(i) + ": Unsigned="@ + decimal(v as nat) + ", Signed="@ + signed_text(v)
        + ", Binary="@ + numeral(v as nat, 2, 32, false) + "\n"@
}

/// The register lines of the summary up to register `n - 1`.
pub open spec fn summary_lines(regs: Seq<u32>, n: nat) -> Seq<char>
    decreases n,
{
    if n == 0 {
        Seq::empty()
    } else {
        summary_lines(regs, (n - 1) as nat) + summary_line((n - 1) as nat, regs[n - 1])
    }
}

impl MachineState {
    /// The summary printed when a run ends: every register in decimal,
    /// signed and binary, the special registers in hex (SR with the live
    /// flags) and the flags.
    pub open spec fn summary(self) -> Seq<char> {
        summary_lines(self.regs, 8) + "SP: "@ + hex_lower(self.sp as nat) + "\n"@ + "BP: "@
            + hex_lower(self.bp as nat) + "\n"@ + "PC: "@ + hex_lower(self.pc as nat) + "\n"@
            + "SR: "@ + hex_lower(self.status_word() as nat) + "\n"@ + "LR: "@ + hex_lower(
            self.lr as nat,
        ) + "\n"@ + "Flags: Carry="@ + bool_text(self.carry) + ", Zero="@ + bool_text(self.zero)
            + ", Sign="@ + bool_text(self.sign) + ", Overflow="@ + bool_text(self.overflow) + "\n"@
    }
}

/// The register a `--reg` name picks: `R0` to `R7`.
pub open spec fn register_named(name: Seq<char>) -> Option<nat> {
    if name.len() == 2 && name[0] == 'R' && '0' <= name[1] && name[1] <= '7' {
        Some((name[1] as nat - 48) as nat)
    } else {
        None
    }
}

/// The message for a `--reg` name that is not a register.
pub open spec fn bad_register_name_message(name: Seq<char>) -> Seq<char> {
    "Invalid register name: "@ + name
}

fn push_bool(out: &mut String, b: bool)
    ensures
        final(out)@ == old(out)@ + bool_text(b),
{
    if b {
        out.append("true");
    } else {
        out.append("false");
    }
}

/// Appends `v` read as an `i32`.
fn push_signed(out: &mut String, v: u32)
    ensures
        final(out)@ == old(out)@ + signed_text(v),
{
    if v >= 0x8000_0000 {
        out.append("-");
        let magnitude: u64 = 0x1_0000_0000u64 - v as u64;
        push_numeral(out, magnitude, 10, 0, false);
    } else {
        push_numeral(out, v as u64, 10, 0, false);
    }
}

/// The register picked by a `--reg` name.
pub fn target_register(name: &str) -> (r: Result<usize, String>)
    ensures
        match r {
            Ok(i) => register_named(name@) == Some(i as nat),
            Err(e) => register_named(name@) is None && e@ == bad_register_name_message(name@),
        },
{
    let chars = crate::cli::chars_of(name);
    if chars.len() == 2 && chars[0] == 'R' && '0' <= chars[1] && chars[1] <= '7' {
        Ok(chars[1] as usize - 48)
    } else {
        let mut e = String::from_str("Invalid register name: ");
        e.append(name);
        Err(e)
    }
}

impl Machine {
    /// The summary printed when a run ends (see `MachineState::summary`).
    pub fn summary(&self) -> (r: String)
        requires
            self.wf(),
        ensures
            r@ == self@.summary(),
    {
        let mut report = String::new();
        let mut i: usize = 0;
        while i < 8
            invariant
                i <= 8,
                self.wf(),
                report@ == summary_lines(self@.regs, i as nat),
            decreases 8 - i,
        {
            let v = match self.get_data_register(i) {
                Ok(v) => v,
                Err(_) => 0,
            };
            report.append("R");
            push_numeral(&mut report, i as u64, 10, 0, false);
            report.append(": Unsigned=");
            push_numeral(&mut report, v as u64, 10, 0, false);
            report.append(", Signed=");
            push_signed(&mut report, v);
            report.append(", Binary=");
            push_numeral(&mut report, v as u64, 2, 32, false);
            report.append("\n");
            i = i + 1;
            assert(report@ =~= summary_lines(self@.regs, i as nat));
        }
        report.append("SP: ");
        push_numeral(&mut report, self.stack_pointer as u64, 16, 0, false);
        report.append("\n");
        report.append("BP: ");
        push_numeral(&mut report, self.base_pointer as u64, 16, 0, false);
        report.append("\n");
        report.append("PC: ");
        push_numeral(&mut report, self.program_counter as u64, 16, 0, false);
        report.append("\n");
        report.append("SR: ");
        let sr = self.status_register();
        push_numeral(&mut report, sr as u64, 16, 0, false);
        report.append("\n");
        report.append("LR: ");
        push_numeral(&mut report, self.link_register as u64, 16, 0, false);
        report.append("\n");
        report.append("Flags: Carry=");
        push_bool(&mut report, self.carry_flag);
        report.append(", Zero=");
        push_bool(&mut report, self.zero_flag);
        report.append(", Sign=");
        push_bool(&mut report, self.sign_flag);
        report.append(", Overflow=");
        push_bool(&mut report, self.overflow_flag);
        report.append("\n");
        assert(report@ =~= self@.summary());
        report
    }
}

} // verus!
