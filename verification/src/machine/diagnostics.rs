// Human-readable views of the machine: register reports, memory dumps and
// the scanout image. The host decides where the text and bytes go.
use vstd::prelude::*;

use crate::constants::{DISPLAY_HEIGHT, DISPLAY_WIDTH, RAM_END_EXCLUSIVE};
use crate::machine::{Machine, MachineState};
use crate::instruction::{decode_instruction, decoded, mnemonic, mnemonic_text};
use crate::cli::chars_of;
use crate::machine::png::{png_of, write_png};
use crate::text::{decimal, hex_lower, hex_upper, numeral, push_numeral};

verus! {

/// `b` as `{}` writes it.
pub open spec fn bool_text(b: bool) -> Seq<char> {
    if b {
        "true"@
    } else {
        "false"@
    }
}

/// `n` as `{:08X}` writes it.
pub open spec fn hex8_upper(n: u32) -> Seq<char> {
    numeral(n as nat, 16, 8, true)
}

/// `n` as `{:08x}` writes it.
pub open spec fn hex8_lower(n: u32) -> Seq<char> {
    numeral(n as nat, 16, 8, false)
}

/// `n` as `{:02X}` writes it.
pub open spec fn hex2_upper(n: u8) -> Seq<char> {
    numeral(n as nat, 16, 2, true)
}

/// The lines `R0: 0x........` up to register `n - 1`.
pub open spec fn register_lines(regs: Seq<u32>, n: nat) -> Seq<char>
    decreases n,
{
    if n == 0 {
        Seq::empty()
    } else {
        register_lines(regs, (n - 1) as nat) + "R"@ + decimal((n - 1) as nat) + ": 0x"@
            + hex8_upper(regs[n - 1]) + "\n"@
    }
}

/// The lines `reg0: 0x...` (unpadded hex) up to register `n - 1`.
pub open spec fn debug_register_lines(regs: Seq<u32>, n: nat) -> Seq<char>
    decreases n,
{
    if n == 0 {
        Seq::empty()
    } else {
        debug_register_lines(regs, (n - 1) as nat) + "reg"@ + decimal((n - 1) as nat) + ": 0x"@
            + hex_lower(regs[n - 1] as nat) + "\n"@
    }
}

/// One line of a word dump: `0x<address>: 0x<value, 8 digits>`.
pub open spec fn word_line(address: u32, value: u32) -> Seq<char> {
    "0x"@ + hex_lower(address as nat) + ": 0x"@ + hex8_lower(value) + "\n"@
}

/// The message for a RAM dump range that is refused.
pub open spec fn bad_dump_range_message(start: u32, end: u32) -> Seq<char> {
    "Invalid memory dump range: 0x"@ + hex8_lower(start) + "..0x"@ + hex8_lower(end)
}

/// How many words a dump from `start` to `end` (inclusive) shows: every
/// fourth address from `start` that does not pass `end`.
pub open spec fn word_count(start: u32, end: u32) -> nat {
    if start > end {
        0
    } else {
        ((end - start) / 4 + 1) as nat
    }
}

impl MachineState {
    /// The register report: R0..R7, SP, BP, PC, SR (as stored), LR and the
    /// condition flags.
    pub open spec fn register_report(self) -> Seq<char> {
        register_lines(self.regs, 8) + "SP: 0x"@ + hex8_upper(self.sp) + "\n"@ + "BP: 0x"@
            + hex8_upper(self.bp) + "\n"@ + "PC: 0x"@ + hex8_upper(self.pc) + "\n"@ + "SR: 0x"@
            + hex8_upper(self.sr) + "\n"@ + "LR: 0x"@ + hex8_upper(self.lr) + "\n"@ + "FLAGS: C="@
            + bool_text(self.carry) + " Z="@ + bool_text(self.zero) + " S="@ + bool_text(self.sign)
            + " O="@ + bool_text(self.overflow) + "\n"@
    }

    /// The register block the DEBUG instruction prints.
    pub open spec fn debug_report(self) -> Seq<char> {
        debug_register_lines(self.regs, 8) + "PC: 0x"@ + hex_lower(self.pc as nat) + "\n"@
            + "SP: 0x"@ + hex_lower(self.sp as nat) + "\n"@ + "BP: 0x"@ + hex_lower(self.bp as nat)
            + "\n"@ + "SR: 0x"@ + hex_lower(self.sr as nat) + "\n"@ + "LR: 0x"@ + hex_lower(
            self.lr as nat,
        ) + "\n"@ + "Flags: Zero: "@ + bool_text(self.zero) + ", Carry: "@ + bool_text(self.carry)
            + ", Sign: "@ + bool_text(self.sign) + ", Overflow: "@ + bool_text(self.overflow)
            + "\n"@
    }

    /// The first `k` lines of a RAM word dump from `start`.
    pub open spec fn ram_word_lines(self, start: u32, k: nat) -> Seq<char>
        decreases k,
    {
        if k == 0 {
            Seq::empty()
        } else {
            let a = (start + 4 * (k - 1)) as u32;
            self.ram_word_lines(start, (k - 1) as nat) + word_line(a, self.ram_word(a))
        }
    }

    /// The first `k` lines of a word dump from `start` over the bus.
    pub open spec fn bus_word_lines(self, start: u32, k: nat) -> Seq<char>
        decreases k,
    {
        if k == 0 {
            Seq::empty()
        } else {
            let a = (start + 4 * (k - 1)) as u32;
            self.bus_word_lines(start, (k - 1) as nat) + word_line(a, self.read_word(a))
        }
    }

    /// The hex byte columns ` XX` of `n` bytes from `address` on.
    pub open spec fn byte_columns(self, address: u32, n: nat) -> Seq<char>
        decreases n,
    {
        if n == 0 {
            Seq::empty()
        } else {
            let a = ((address + n - 1) % 0x1_0000_0000) as u32;
            self.byte_columns(address, (n - 1) as nat) + " "@ + hex2_upper(self.read_byte(a))
        }
    }

    /// The lines of a byte dump of `remaining` bytes from `address`, 16 a
    /// line.
    pub open spec fn byte_lines(self, address: u32, remaining: nat) -> Seq<char>
        decreases remaining,
    {
        if remaining == 0 {
            Seq::empty()
        } else {
            let n: nat = if remaining < 16 {
                remaining
            } else {
                16
            };
            "0x"@ + hex8_upper(address) + ":"@ + self.byte_columns(address, n) + "\n"@
                + self.byte_lines(((address + n) % 0x1_0000_0000) as u32, (remaining - n) as nat)
        }
    }

    /// A RAM word as the dump reads it (0 past the end of RAM).
    pub open spec fn ram_word(self, address: u32) -> u32 {
        if address as int + 4 <= self.ram.len() {
            crate::bytes::be_word(self.ram, address as int)
        } else {
            0
        }
    }

    /// The text of a RAM dump from `start` to `end`.
    pub open spec fn ram_dump(self, start: u32, end: u32) -> Seq<char> {
        "Memory Dump from 0x"@ + hex_lower(start as nat) + " to 0x"@ + hex_lower(end as nat)
            + "\n"@ + Seq::new(60, |i: int| '-') + "\n"@ + self.ram_word_lines(
            start,
            word_count(start, end),
        )
    }

    /// The text of a byte dump of `length` bytes from `start` over the bus.
    pub open spec fn byte_dump(self, start: u32, length: u32) -> Seq<char> {
        if length == 0 {
            "[MEM] empty range\n"@
        } else {
            let end: u32 = if start + length - 1 > u32::MAX {
                u32::MAX
            } else {
                (start + length - 1) as u32
            };
            "[MEM] 0x"@ + hex8_upper(start) + "..0x"@ + hex8_upper(end) + " ("@ + decimal(
                length as nat,
            ) + " byte(s))\n"@ + self.byte_lines(start, length as nat)
        }
    }

    /// The pixels the display scans out: the front buffer once the guest has
    /// swapped, else the back buffer.
    pub open spec fn scanout(self) -> Seq<u32> {
        if self.swapped {
            self.front
        } else {
            self.vram
        }
    }
}

/// The trace line for the instruction word `w` fetched from `pc`.
pub open spec fn trace_text(pc: u32, w: u32) -> Seq<char> {
    let d = decoded(w);
    "PC: 0x"@ + hex8_upper(pc) + ", Instruction: 0x"@ + hex8_upper(w) + ", "@ + mnemonic_text(
        d.opcode,
    ) + " r1=0x"@ + hex_upper(d.reg1 as nat) + " r2=0x"@ + hex_upper(d.reg2 as nat) + " imm=0x"@
        + hex_upper(d.imm as nat)
}

/// The trace line for the instruction word `w` fetched from `pc`.
pub fn trace_line(pc: u32, w: u32) -> (r: String)
    ensures
        r@ == trace_text(pc, w),
{
    let d = decode_instruction(w);
    let mut out = String::new();
    push_text(&mut out, "PC: 0x");
    push_numeral(&mut out, pc as u64, 16, 8, true);
    push_text(&mut out, ", Instruction: 0x");
    push_numeral(&mut out, w as u64, 16, 8, true);
    push_text(&mut out, ", ");
    push_text(&mut out, mnemonic(d.opcode));
    push_text(&mut out, " r1=0x");
    push_numeral(&mut out, d.reg1 as u64, 16, 0, true);
    push_text(&mut out, " r2=0x");
    push_numeral(&mut out, d.reg2 as u64, 16, 0, true);
    push_text(&mut out, " imm=0x");
    push_numeral(&mut out, d.imm as u64, 16, 0, true);
    assert(out@ =~= trace_text(pc, w));
    out
}

/// The header of a binary PPM of the display, `P6\n1024 768\n255\n`, in
/// ASCII.
pub open spec fn ppm_header() -> Seq<u8> {
    seq![80u8, 54, 10, 49, 48, 50, 52, 32, 55, 54, 56, 10, 50, 53, 53, 10]
}

/// The red, green and blue bytes of the first `n` pixels.
pub open spec fn rgb_bytes(pixels: Seq<u32>, n: nat) -> Seq<u8>
    decreases n,
{
    if n == 0 {
        Seq::empty()
    } else {
        let p = pixels[n - 1] as int;
        rgb_bytes(pixels, (n - 1) as nat) + seq![
            ((p / 0x1_0000) % 0x100) as u8,
            ((p / 0x100) % 0x100) as u8,
            (p % 0x100) as u8,
        ]
    }
}

/// Appends `s` to `out`.
fn push_text(out: &mut String, s: &str)
    ensures
        final(out)@ == old(out)@ + s@,
{
    out.append(s);
}

/// Appends `b` as `{}` writes it.
fn push_bool(out: &mut String, b: bool)
    ensures
        final(out)@ == old(out)@ + bool_text(b),
{
    if b {
        out.append("true");
    } else {
        out.append("false");
    }
}

impl Machine {
    /// The register report (see `MachineState::register_report`).
    pub fn register_report_hex(&self) -> (r: String)
        requires
            self.wf(),
        ensures
            r@ == self@.register_report(),
    {
        let mut report = String::new();
        let mut i: usize = 0;
        while i < 8
            invariant
                i <= 8,
                self.wf(),
                report@ == register_lines(self@.regs, i as nat),
            decreases 8 - i,
        {
            push_text(&mut report, "R");
            push_numeral(&mut report, i as u64, 10, 0, false);
            push_text(&mut report, ": 0x");
            push_numeral(&mut report, self.registers[i] as u64, 16, 8, true);
            push_text(&mut report, "\n");
            i = i + 1;
            assert(report@ =~= register_lines(self@.regs, i as nat));
        }
        let ghost lines = report@;
        push_text(&mut report, "SP: 0x");
        push_numeral(&mut report, self.stack_pointer as u64, 16, 8, true);
        push_text(&mut report, "\n");
        push_text(&mut report, "BP: 0x");
        push_numeral(&mut report, self.base_pointer as u64, 16, 8, true);
        push_text(&mut report, "\n");
        push_text(&mut report, "PC: 0x");
        push_numeral(&mut report, self.program_counter as u64, 16, 8, true);
        push_text(&mut report, "\n");
        push_text(&mut report, "SR: 0x");
        push_numeral(&mut report, self.status_register as u64, 16, 8, true);
        push_text(&mut report, "\n");
        push_text(&mut report, "LR: 0x");
        push_numeral(&mut report, self.link_register as u64, 16, 8, true);
        push_text(&mut report, "\n");
        push_text(&mut report, "FLAGS: C=");
        push_bool(&mut report, self.carry_flag);
        push_text(&mut report, " Z=");
        push_bool(&mut report, self.zero_flag);
        push_text(&mut report, " S=");
        push_bool(&mut report, self.sign_flag);
        push_text(&mut report, " O=");
        push_bool(&mut report, self.overflow_flag);
        push_text(&mut report, "\n");
        assert(report@ =~= self@.register_report());
        report
    }

    /// The register block the DEBUG instruction prints.
    pub fn debug_report(&self) -> (r: String)
        requires
            self.wf(),
        ensures
            r@ == self@.debug_report(),
    {
        let mut report = String::new();
        let mut i: usize = 0;
        while i < 8
            invariant
                i <= 8,
                self.wf(),
                report@ == debug_register_lines(self@.regs, i as nat),
            decreases 8 - i,
        {
            push_text(&mut report, "reg");
            push_numeral(&mut report, i as u64, 10, 0, false);
            push_text(&mut report, ": 0x");
            push_numeral(&mut report, self.registers[i] as u64, 16, 0, false);
            push_text(&mut report, "\n");
            i = i + 1;
            assert(report@ =~= debug_register_lines(self@.regs, i as nat));
        }
        push_text(&mut report, "PC: 0x");
        push_numeral(&mut report, self.program_counter as u64, 16, 0, false);
        push_text(&mut report, "\n");
        push_text(&mut report, "SP: 0x");
        push_numeral(&mut report, self.stack_pointer as u64, 16, 0, false);
        push_text(&mut report, "\n");
        push_text(&mut report, "BP: 0x");
        push_numeral(&mut report, self.base_pointer as u64, 16, 0, false);
        push_text(&mut report, "\n");
        push_text(&mut report, "SR: 0x");
        push_numeral(&mut report, self.status_register as u64, 16, 0, false);
        push_text(&mut report, "\n");
        push_text(&mut report, "LR: 0x");
        push_numeral(&mut report, self.link_register as u64, 16, 0, false);
        push_text(&mut report, "\n");
        push_text(&mut report, "Flags: Zero: ");
        push_bool(&mut report, self.zero_flag);
        push_text(&mut report, ", Carry: ");
        push_bool(&mut report, self.carry_flag);
        push_text(&mut report, ", Sign: ");
        push_bool(&mut report, self.sign_flag);
        push_text(&mut report, ", Overflow: ");
        push_bool(&mut report, self.overflow_flag);
        push_text(&mut report, "\n");
        assert(report@ =~= self@.debug_report());
        report
    }

    /// The text of a RAM dump from `start` to `end` inclusive; refused
    /// unless `start <= end` and `end` lies in RAM.
    pub fn dump_memory_text(&self, start_address: u32, end_address: u32) -> (r: Result<
        String,
        String,
    >)
        requires
            self.wf(),
        ensures
            match r {
                Ok(t) => end_address < RAM_END_EXCLUSIVE && start_address <= end_address && t@
                    == self@.ram_dump(start_address, end_address),
                Err(e) => (end_address >= RAM_END_EXCLUSIVE || start_address > end_address) && e@
                    == bad_dump_range_message(start_address, end_address),
            },
    {
        if end_address >= RAM_END_EXCLUSIVE || start_address > end_address {
            let mut e = String::new();
            push_text(&mut e, "Invalid memory dump range: 0x");
            push_numeral(&mut e, start_address as u64, 16, 8, false);
            push_text(&mut e, "..0x");
            push_numeral(&mut e, end_address as u64, 16, 8, false);
            return Err(e);
        }
        let mut out = String::new();
        push_text(&mut out, "Memory Dump from 0x");
        push_numeral(&mut out, start_address as u64, 16, 0, false);
        push_text(&mut out, " to 0x");
        push_numeral(&mut out, end_address as u64, 16, 0, false);
        push_text(&mut out, "\n");
        let mut dashes: usize = 0;
        while dashes < 60
            invariant
                dashes <= 60,
                out@ == "Memory Dump from 0x"@ + hex_lower(start_address as nat) + " to 0x"@
                    + hex_lower(end_address as nat) + "\n"@ + Seq::new(dashes as nat, |i: int| '-'),
            decreases 60 - dashes,
        {
            proof {
                reveal_strlit("-");
            }
            out.append("-");
            dashes = dashes + 1;
            assert(out@ =~= "Memory Dump from 0x"@ + hex_lower(start_address as nat) + " to 0x"@
                + hex_lower(end_address as nat) + "\n"@ + Seq::new(dashes as nat, |i: int| '-'));
        }
        push_text(&mut out, "\n");
        let ghost head = out@;
        let mut address = start_address;
        let mut k: u32 = 0;
        let count = (end_address - start_address) / 4 + 1;
        while k < count
            invariant
                self.wf(),
                start_address <= end_address,
                count == (end_address - start_address) / 4 + 1,
                k <= count,
                k < count ==> address == start_address + 4 * k,
                out@ == head + self@.ram_word_lines(start_address, k as nat),
            decreases count - k,
        {
            let value = self.ram_read_word(address);
            push_text(&mut out, "0x");
            push_numeral(&mut out, address as u64, 16, 0, false);
            push_text(&mut out, ": 0x");
            push_numeral(&mut out, value as u64, 16, 8, false);
            push_text(&mut out, "\n");
            k = k + 1;
            assert(out@ =~= head + self@.ram_word_lines(start_address, k as nat));
            if k < count {
                address = address + 4;
            }
        }
        assert(out@ =~= self@.ram_dump(start_address, end_address));
        Ok(out)
    }

    /// The text of a byte dump of `length` bytes from `start_address` over
    /// the bus (see `MachineState::byte_dump`).
    pub fn memory_range_text(&self, start_address: u32, length: u32) -> (r: String)
        requires
            self.wf(),
        ensures
            r@ == self@.byte_dump(start_address, length),
    {
        let mut out = String::new();
        if length == 0 {
            push_text(&mut out, "[MEM] empty range\n");
            return out;
        }
        let end_address = start_address.saturating_add(length - 1);
        push_text(&mut out, "[MEM] 0x");
        push_numeral(&mut out, start_address as u64, 16, 8, true);
        push_text(&mut out, "..0x");
        push_numeral(&mut out, end_address as u64, 16, 8, true);
        push_text(&mut out, " (");
        push_numeral(&mut out, length as u64, 10, 0, false);
        push_text(&mut out, " byte(s))\n");
        let ghost head = out@;
        let mut address = start_address;
        let mut remaining = length;
        while remaining > 0
            invariant
                self.wf(),
                head + self@.byte_lines(start_address, length as nat) == out@ + self@.byte_lines(
                    address,
                    remaining as nat,
                ),
            decreases remaining,
        {
            let ghost before = out@;
            let line_bytes: u32 = if remaining < 16 {
                remaining
            } else {
                16
            };
            push_text(&mut out, "0x");
            push_numeral(&mut out, address as u64, 16, 8, true);
            push_text(&mut out, ":");
            let ghost line_start = out@;
            let mut i: u32 = 0;
            while i < line_bytes
                invariant
                    self.wf(),
                    i <= line_bytes <= 16,
                    out@ == line_start + self@.byte_columns(address, i as nat),
                decreases line_bytes - i,
            {
                let a = address.wrapping_add(i);
                assert(a == ((address + (i + 1) - 1) % 0x1_0000_0000) as u32);
                let byte = self.bus_read_byte(a);
                push_text(&mut out, " ");
                push_numeral(&mut out, byte as u64, 16, 2, true);
                i = i + 1;
                assert(out@ =~= line_start + self@.byte_columns(address, i as nat));
            }
            push_text(&mut out, "\n");
            let next = address.wrapping_add(line_bytes);
            assert(next == ((address + line_bytes) % 0x1_0000_0000) as u32);
            assert(self@.byte_lines(address, remaining as nat) =~= "0x"@ + hex8_upper(address) + ":"@
                + self@.byte_columns(address, line_bytes as nat) + "\n"@ + self@.byte_lines(
                next,
                (remaining - line_bytes) as nat,
            ));
            assert(out@ =~= before + "0x"@ + hex8_upper(address) + ":"@ + self@.byte_columns(
                address,
                line_bytes as nat,
            ) + "\n"@);
            address = next;
            remaining = remaining - line_bytes;
        }
        assert(self@.byte_lines(address, 0) =~= Seq::<char>::empty());
        assert(out@ =~= head + self@.byte_lines(start_address, length as nat));
        out
    }

    /// The words from `start_address` to `end_address` inclusive over the
    /// bus, one `0x<address>: 0x<value>` line each; nothing when the range
    /// is empty.
    pub fn bus_word_dump(&self, start_address: u32, end_address: u32) -> (r: String)
        requires
            self.wf(),
        ensures
            r@ == self@.bus_word_lines(start_address, word_count(start_address, end_address)),
    {
        let mut out = String::new();
        if start_address > end_address {
            return out;
        }
        let mut address = start_address;
        let mut k: u32 = 0;
        let count = (end_address - start_address) / 4 + 1;
        while k < count
            invariant
                self.wf(),
                start_address <= end_address,
                count == (end_address - start_address) / 4 + 1,
                k <= count,
                k < count ==> address == start_address + 4 * k,
                out@ == self@.bus_word_lines(start_address, k as nat),
            decreases count - k,
        {
            let value = self.bus_read(address);
            push_text(&mut out, "0x");
            push_numeral(&mut out, address as u64, 16, 0, false);
            push_text(&mut out, ": 0x");
            push_numeral(&mut out, value as u64, 16, 8, false);
            push_text(&mut out, "\n");
            k = k + 1;
            assert(out@ =~= self@.bus_word_lines(start_address, k as nat));
            if k < count {
                address = address + 4;
            }
        }
        out
    }

    /// The pixels the display shows (see `MachineState::scanout`).
    pub fn scanout_pixels(&self) -> (r: &Vec<u32>)
        ensures
            r@ == self@.scanout(),
    {
        if self.swapped {
            &self.front
        } else {
            &self.vram
        }
    }

    /// The display as a binary PPM: the header, then the red, green and
    /// blue bytes of each scanned-out pixel.
    pub fn ppm_image(&self) -> (r: Vec<u8>)
        requires
            self.wf(),
        ensures
            r@ == ppm_header() + rgb_bytes(self@.scanout(), (DISPLAY_WIDTH * DISPLAY_HEIGHT) as nat),
    {
        let mut out: Vec<u8> = Vec::new();
        let header: [u8; 16] = [80, 54, 10, 49, 48, 50, 52, 32, 55, 54, 56, 10, 50, 53, 53, 10];
        let mut h: usize = 0;
        while h < 16
            invariant
                h <= 16,
                header@ == ppm_header(),
                out@ == ppm_header().subrange(0, h as int),
            decreases 16 - h,
        {
            out.push(header[h]);
            h = h + 1;
            assert(out@ =~= ppm_header().subrange(0, h as int));
        }
        assert(out@ =~= ppm_header());
        let base = self.scanout_pixels();
        let n = DISPLAY_WIDTH * DISPLAY_HEIGHT;
        let mut i: usize = 0;
        while i < n
            invariant
                i <= n,
                n == DISPLAY_WIDTH * DISPLAY_HEIGHT,
                base@ == self@.scanout(),
                base@.len() >= n,
                out@ == ppm_header() + rgb_bytes(base@, i as nat),
            decreases n - i,
        {
            let pixel = base[i];
            let r = ((pixel >> 16) & 0xFF) as u8;
            let g = ((pixel >> 8) & 0xFF) as u8;
            let b = (pixel & 0xFF) as u8;
            assert(r == ((pixel as int / 0x1_0000) % 0x100) as u8 && g == ((pixel as int / 0x100)
                % 0x100) as u8 && b == (pixel as int % 0x100) as u8) by (bit_vector)
                requires
                    r == ((pixel >> 16) & 0xFF) as u8,
                    g == ((pixel >> 8) & 0xFF) as u8,
                    b == (pixel & 0xFF) as u8,
            ;
            out.push(r);
            out.push(g);
            out.push(b);
            i = i + 1;
            assert(out@ =~= ppm_header() + rgb_bytes(base@, i as nat));
        }
        out
    }

    /// The display saved for `path`: a PNG when the path ends in `.png`
    /// (in either case), else the binary PPM of `ppm_image`.
    pub fn screenshot_image(&self, path: &str) -> (r: Vec<u8>)
        requires
            self.wf(),
        ensures
            r@ == if is_png_path(path@) {
                png_of(self@.scanout(), DISPLAY_WIDTH as nat, DISPLAY_HEIGHT as nat)
            } else {
                ppm_header() + rgb_bytes(self@.scanout(), (DISPLAY_WIDTH * DISPLAY_HEIGHT) as nat)
            },
    {
        if screenshot_is_png(path) {
            let base = self.scanout_pixels();
            let mut out: Vec<u8> = Vec::new();
            write_png(&mut out, base.as_slice(), DISPLAY_WIDTH, DISPLAY_HEIGHT);
            assert(out@ =~= png_of(self@.scanout(), DISPLAY_WIDTH as nat, DISPLAY_HEIGHT as nat));
            out
        } else {
            self.ppm_image()
        }
    }
}

/// Whether a screenshot path names a PNG file: it ends in `.png`, in any case.
pub open spec fn is_png_path(p: Seq<char>) -> bool {
    let n = p.len() as int;
    &&& n >= 4
    &&& p[n - 4] == '.'
    &&& (p[n - 3] == 'p' || p[n - 3] == 'P')
    &&& (p[n - 2] == 'n' || p[n - 2] == 'N')
    &&& (p[n - 1] == 'g' || p[n - 1] == 'G')
}

/// Whether a screenshot goes to `path` as a PNG (else it is written as a PPM).
pub fn screenshot_is_png(path: &str) -> (r: bool)
    ensures
        r == is_png_path(path@),
{
    let c = chars_of(path);
    let n = c.len();
    if n < 4 {
        return false;
    }
    c[n - 4] == '.' && (c[n - 3] == 'p' || c[n - 3] == 'P') && (c[n - 2] == 'n' || c[n - 2]
        == 'N') && (c[n - 1] == 'g' || c[n - 1] == 'G')
}

} // verus!
