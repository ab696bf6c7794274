use vstd::prelude::*;
use vstd::std_specs::convert::TryFromSpecImpl;

verus! {

/// The instruction set. Each variant's 6-bit encoding is given by `Opcode::code`.
#[derive(Clone, Copy, Debug, PartialEq, Eq, Structural)]
pub enum Opcode {
    Mov,
    Movi,
    Movis,
    Ld,
    St,
    Ldb,
    Stb,
    Add,
    Addis,
    Sub,
    Cmp,
    And,
    Or,
    Xor,
    Shl,
    Shr,
    Jmp,
    Jz,
    Jnz,
    Jg,
    Jl,
    Ja,
    Jb,
    Call,
    Push,
    Pop,
    In,
    Out,
    Debug,
    Ei,
    Di,
    Iret,
    Wfi,
    Syscall,
    Halt,
}

/// The opcode encoded by the 6-bit value `v`, if any.
pub open spec fn opcode_of(v: u8) -> Option<Opcode> {
    if v == 0x01 { Some(Opcode::Mov) }
    else if v == 0x02 { Some(Opcode::Movi) }
    else if v == 0x18 { Some(Opcode::Movis) }
    else if v == 0x03 { Some(Opcode::Ld) }
    else if v == 0x04 { Some(Opcode::St) }
    else if v == 0x1C { Some(Opcode::Ldb) }
    else if v == 0x1D { Some(Opcode::Stb) }
    else if v == 0x05 { Some(Opcode::Add) }
    else if v == 0x19 { Some(Opcode::Addis) }
    else if v == 0x06 { Some(Opcode::Sub) }
    else if v == 0x07 { Some(Opcode::Cmp) }
    else if v == 0x08 { Some(Opcode::And) }
    else if v == 0x09 { Some(Opcode::Or) }
    else if v == 0x0A { Some(Opcode::Xor) }
    else if v == 0x0B { Some(Opcode::Shl) }
    else if v == 0x0C { Some(Opcode::Shr) }
    else if v == 0x0D { Some(Opcode::Jmp) }
    else if v == 0x0E { Some(Opcode::Jz) }
    else if v == 0x0F { Some(Opcode::Jnz) }
    else if v == 0x10 { Some(Opcode::Jg) }
    else if v == 0x11 { Some(Opcode::Jl) }
    else if v == 0x12 { Some(Opcode::Ja) }
    else if v == 0x13 { Some(Opcode::Jb) }
    else if v == 0x1B { Some(Opcode::Call) }
    else if v == 0x14 { Some(Opcode::Push) }
    else if v == 0x15 { Some(Opcode::Pop) }
    else if v == 0x16 { Some(Opcode::In) }
    else if v == 0x17 { Some(Opcode::Out) }
    else if v == 0x1A { Some(Opcode::Debug) }
    else if v == 0x1E { Some(Opcode::Ei) }
    else if v == 0x1F { Some(Opcode::Di) }
    else if v == 0x20 { Some(Opcode::Iret) }
    else if v == 0x21 { Some(Opcode::Wfi) }
    else if v == 0x3E { Some(Opcode::Syscall) }
    else if v == 0x3F { Some(Opcode::Halt) }
    else { None }
}

/// The 6-bit encoding of each opcode.
pub open spec fn code_of(op: Opcode) -> u8 {
    match op {
        Opcode::Mov => 0x01,
        Opcode::Movi => 0x02,
        Opcode::Movis => 0x18,
        Opcode::Ld => 0x03,
        Opcode::St => 0x04,
        Opcode::Ldb => 0x1C,
        Opcode::Stb => 0x1D,
        Opcode::Add => 0x05,
        Opcode::Addis => 0x19,
        Opcode::Sub => 0x06,
        Opcode::Cmp => 0x07,
        Opcode::And => 0x08,
        Opcode::Or => 0x09,
        Opcode::Xor => 0x0A,
        Opcode::Shl => 0x0B,
        Opcode::Shr => 0x0C,
        Opcode::Jmp => 0x0D,
        Opcode::Jz => 0x0E,
        Opcode::Jnz => 0x0F,
        Opcode::Jg => 0x10,
        Opcode::Jl => 0x11,
        Opcode::Ja => 0x12,
        Opcode::Jb => 0x13,
        Opcode::Call => 0x1B,
        Opcode::Push => 0x14,
        Opcode::Pop => 0x15,
        Opcode::In => 0x16,
        Opcode::Out => 0x17,
        Opcode::Debug => 0x1A,
        Opcode::Ei => 0x1E,
        Opcode::Di => 0x1F,
        Opcode::Iret => 0x20,
        Opcode::Wfi => 0x21,
        Opcode::Syscall => 0x3E,
        Opcode::Halt => 0x3F,
    }
}

impl Opcode {
    /// The 6-bit encoding of this opcode.
    pub fn code(self) -> (r: u8)
        ensures
            r == code_of(self),
    {
        match self {
            Opcode::Mov => 0x01,
            Opcode::Movi => 0x02,
            Opcode::Movis => 0x18,
            Opcode::Ld => 0x03,
            Opcode::St => 0x04,
            Opcode::Ldb => 0x1C,
            Opcode::Stb => 0x1D,
            Opcode::Add => 0x05,
            Opcode::Addis => 0x19,
            Opcode::Sub => 0x06,
            Opcode::Cmp => 0x07,
            Opcode::And => 0x08,
            Opcode::Or => 0x09,
            Opcode::Xor => 0x0A,
            Opcode::Shl => 0x0B,
            Opcode::Shr => 0x0C,
            Opcode::Jmp => 0x0D,
            Opcode::Jz => 0x0E,
            Opcode::Jnz => 0x0F,
            Opcode::Jg => 0x10,
            Opcode::Jl => 0x11,
            Opcode::Ja => 0x12,
            Opcode::Jb => 0x13,
            Opcode::Call => 0x1B,
            Opcode::Push => 0x14,
            Opcode::Pop => 0x15,
            Opcode::In => 0x16,
            Opcode::Out => 0x17,
            Opcode::Debug => 0x1A,
            Opcode::Ei => 0x1E,
            Opcode::Di => 0x1F,
            Opcode::Iret => 0x20,
            Opcode::Wfi => 0x21,
            Opcode::Syscall => 0x3E,
            Opcode::Halt => 0x3F,
        }
    }
}

impl TryFrom<u8> for Opcode {
    type Error = u8;

    fn try_from(val: u8) -> (r: Result<Opcode, u8>) {
        if val == 0x01 { Ok(Opcode::Mov) }
        else if val == 0x02 { Ok(Opcode::Movi) }
        else if val == 0x18 { Ok(Opcode::Movis) }
        else if val == 0x03 { Ok(Opcode::Ld) }
        else if val == 0x04 { Ok(Opcode::St) }
        else if val == 0x1C { Ok(Opcode::Ldb) }
        else if val == 0x1D { Ok(Opcode::Stb) }
        else if val == 0x05 { Ok(Opcode::Add) }
        else if val == 0x19 { Ok(Opcode::Addis) }
        else if val == 0x06 { Ok(Opcode::Sub) }
        else if val == 0x07 { Ok(Opcode::Cmp) }
        else if val == 0x08 { Ok(Opcode::And) }
        else if val == 0x09 { Ok(Opcode::Or) }
        else if val == 0x0A { Ok(Opcode::Xor) }
        else if val == 0x0B { Ok(Opcode::Shl) }
        else if val == 0x0C { Ok(Opcode::Shr) }
        else if val == 0x0D { Ok(Opcode::Jmp) }
        else if val == 0x0E { Ok(Opcode::Jz) }
        else if val == 0x0F { Ok(Opcode::Jnz) }
        else if val == 0x10 { Ok(Opcode::Jg) }
        else if val == 0x11 { Ok(Opcode::Jl) }
        else if val == 0x12 { Ok(Opcode::Ja) }
        else if val == 0x13 { Ok(Opcode::Jb) }
        else if val == 0x1B { Ok(Opcode::Call) }
        else if val == 0x14 { Ok(Opcode::Push) }
        else if val == 0x15 { Ok(Opcode::Pop) }
        else if val == 0x16 { Ok(Opcode::In) }
        else if val == 0x17 { Ok(Opcode::Out) }
        else if val == 0x1A { Ok(Opcode::Debug) }
        else if val == 0x1E { Ok(Opcode::Ei) }
        else if val == 0x1F { Ok(Opcode::Di) }
        else if val == 0x20 { Ok(Opcode::Iret) }
        else if val == 0x21 { Ok(Opcode::Wfi) }
        else if val == 0x3E { Ok(Opcode::Syscall) }
        else if val == 0x3F { Ok(Opcode::Halt) }
        else { Err(val) }
    }
}

impl TryFromSpecImpl<u8> for Opcode {
    open spec fn obeys_try_from_spec() -> bool {
        true
    }

    open spec fn try_from_spec(v: u8) -> Result<Opcode, u8> {
        match opcode_of(v) {
            Some(op) => Ok(op),
            None => Err(v),
        }
    }
}

/// Decoding a known opcode's encoding gives the opcode back.
pub proof fn lemma_opcode_code_roundtrip(op: Opcode)
    ensures
        opcode_of(code_of(op)) == Some(op),
{
}

/// An encoding that decodes to an opcode is that opcode's encoding.
pub proof fn lemma_opcode_decode_roundtrip(v: u8)
    requires
        opcode_of(v) is Some,
    ensures
        code_of(opcode_of(v)->0) == v,
{
}

/// The fields of one 32-bit instruction word.
#[derive(Clone, Copy)]
pub struct DecodedInstruction {
    pub opcode: u8,
    pub reg1: u8,
    pub reg2: u8,
    pub imm: u32,
    pub raw: u32,
}

/// Sign-extends the low 26 bits of `x` (branch displacements).
pub fn sign_extend_26(x: u32) -> (r: i32)
    ensures
        r as int == if (x as int) % 0x400_0000 >= 0x200_0000 {
            (x as int) % 0x400_0000 - 0x400_0000
        } else {
            (x as int) % 0x400_0000
        },
{
    let r = ((x << 6u32) as i32) >> 6u32;
    assert(r as int == if (x as int) % 0x400_0000 >= 0x200_0000 {
        (x as int) % 0x400_0000 - 0x400_0000
    } else {
        (x as int) % 0x400_0000
    }) by (bit_vector)
        requires r == ((x << 6u32) as i32) >> 6u32;
    r
}

/// Sign-extends the low 21 bits of `x` (signed immediates).
pub fn sign_extend_21(x: u32) -> (r: i32)
    ensures
        r as int == if (x as int) % 0x20_0000 >= 0x10_0000 {
            (x as int) % 0x20_0000 - 0x20_0000
        } else {
            (x as int) % 0x20_0000
        },
{
    let r = ((x << 11u32) as i32) >> 11u32;
    assert(r as int == if (x as int) % 0x20_0000 >= 0x10_0000 {
        (x as int) % 0x20_0000 - 0x20_0000
    } else {
        (x as int) % 0x20_0000
    }) by (bit_vector)
        requires r == ((x << 11u32) as i32) >> 11u32;
    r
}

/// `base + delta` modulo 2^32.
pub open spec fn wrap_add(base: int, delta: int) -> u32 {
    ((base + delta) % 0x1_0000_0000) as u32
}

/// Adds a signed displacement to an address, wrapping around at 2^32.
pub fn add_signed(base: u32, delta: i32) -> (r: u32)
    requires
        delta != i32::MIN,
    ensures
        r == wrap_add(base as int, delta as int),
{
    if delta >= 0 {
        let r = base.wrapping_add(delta as u32);
        r
    } else {
        let r = base.wrapping_sub((-delta) as u32);
        r
    }
}

/// Number of immediate bits an opcode carries.
pub open spec fn imm_modulus(opcode: u8) -> int {
    if opcode == 0x02 || opcode == 0x18 || opcode == 0x19 || opcode == 0x16 || opcode == 0x17 {
        0x20_0000
    } else if opcode == 0x0D || opcode == 0x0E || opcode == 0x0F || opcode == 0x10
        || opcode == 0x11 || opcode == 0x12 || opcode == 0x13 || opcode == 0x1B {
        0x400_0000
    } else {
        0x1_0000
    }
}

fn imm_mask(opcode: u8) -> (r: u32)
    ensures
        r as int == imm_modulus(opcode) - 1,
{
    match opcode {
        0x02 | 0x18 | 0x19 | 0x16 | 0x17 => 0x001F_FFFF,
        0x0D | 0x0E | 0x0F | 0x10 | 0x11 | 0x12 | 0x13 | 0x1B => 0x03FF_FFFF,
        _ => 0x0000_FFFF,
    }
}

/// The fields of an instruction word: the opcode in bits 31..26, the two
/// register numbers in bits 25..21 and 20..16, and an immediate whose width
/// depends on the opcode.
pub open spec fn decoded(machine_code: u32) -> DecodedInstruction {
    let op = ((machine_code as int) / 0x400_0000) as u8;
    DecodedInstruction {
        opcode: op,
        reg1: (((machine_code as int) / 0x20_0000) % 32) as u8,
        reg2: (((machine_code as int) / 0x1_0000) % 32) as u8,
        imm: ((machine_code as int) % imm_modulus(op)) as u32,
        raw: machine_code,
    }
}

/// Splits an instruction word into its fields.
pub fn decode_instruction(machine_code: u32) -> (d: DecodedInstruction)
    ensures
        d == decoded(machine_code),
{
    let opcode = ((machine_code >> 26u32) & 0x3F) as u8;
    let reg1 = ((machine_code >> 21u32) & 0x1F) as u8;
    let reg2 = ((machine_code >> 16u32) & 0x1F) as u8;
    let mask = imm_mask(opcode);
    let imm = machine_code & mask;
    assert((machine_code >> 26u32) & 0x3F == machine_code / 0x400_0000 && (machine_code >> 21u32)
        & 0x1F == (machine_code / 0x20_0000) % 32 && (machine_code >> 16u32) & 0x1F == (machine_code
        / 0x1_0000) % 32) by (bit_vector);
    if mask == 0x1F_FFFF {
        assert(machine_code & 0x1F_FFFF == machine_code % 0x20_0000) by (bit_vector);
    } else if mask == 0x3FF_FFFF {
        assert(machine_code & 0x3FF_FFFF == machine_code % 0x400_0000) by (bit_vector);
    } else {
        assert(machine_code & 0xFFFF == machine_code % 0x1_0000) by (bit_vector);
    }
    DecodedInstruction { opcode, reg1, reg2, imm, raw: machine_code }
}

/// The assembler mnemonic of each opcode encoding.
pub open spec fn mnemonic_text(opcode: u8) -> Seq<char> {
    if opcode == 0x01 { "MOV"@ }
    else if opcode == 0x02 { "MOVI"@ }
    else if opcode == 0x18 { "MOVIS"@ }
    else if opcode == 0x03 { "LD"@ }
    else if opcode == 0x04 { "ST"@ }
    else if opcode == 0x1C { "LDB"@ }
    else if opcode == 0x1D { "STB"@ }
    else if opcode == 0x05 { "ADD"@ }
    else if opcode == 0x19 { "ADDIS"@ }
    else if opcode == 0x06 { "SUB"@ }
    else if opcode == 0x07 { "CMP"@ }
    else if opcode == 0x08 { "AND"@ }
    else if opcode == 0x09 { "OR"@ }
    else if opcode == 0x0A { "XOR"@ }
    else if opcode == 0x0B { "SHL"@ }
    else if opcode == 0x0C { "SHR"@ }
    else if opcode == 0x0D { "JMP"@ }
    else if opcode == 0x0E { "JZ"@ }
    else if opcode == 0x0F { "JNZ"@ }
    else if opcode == 0x10 { "JG"@ }
    else if opcode == 0x11 { "JL"@ }
    else if opcode == 0x12 { "JA"@ }
    else if opcode == 0x13 { "JB"@ }
    else if opcode == 0x1B { "CALL"@ }
    else if opcode == 0x14 { "PUSH"@ }
    else if opcode == 0x15 { "POP"@ }
    else if opcode == 0x16 { "IN"@ }
    else if opcode == 0x17 { "OUT"@ }
    else if opcode == 0x1A { "DEBUG"@ }
    else if opcode == 0x1E { "EI"@ }
    else if opcode == 0x1F { "DI"@ }
    else if opcode == 0x20 { "IRET"@ }
    else if opcode == 0x21 { "WFI"@ }
    else if opcode == 0x3E { "SYSCALL"@ }
    else if opcode == 0x3F { "HALT"@ }
    else { "UNKNOWN"@ }
}

/// The assembler mnemonic of an opcode encoding, "UNKNOWN" for unused encodings.
pub fn mnemonic(opcode: u8) -> (r: &'static str)
    ensures
        r@ == mnemonic_text(opcode),
{
    match opcode {
        0x01 => "MOV",
        0x02 => "MOVI",
        0x18 => "MOVIS",
        0x03 => "LD",
        0x04 => "ST",
        0x1C => "LDB",
        0x1D => "STB",
        0x05 => "ADD",
        0x19 => "ADDIS",
        0x06 => "SUB",
        0x07 => "CMP",
        0x08 => "AND",
        0x09 => "OR",
        0x0A => "XOR",
        0x0B => "SHL",
        0x0C => "SHR",
        0x0D => "JMP",
        0x0E => "JZ",
        0x0F => "JNZ",
        0x10 => "JG",
        0x11 => "JL",
        0x12 => "JA",
        0x13 => "JB",
        0x1B => "CALL",
        0x14 => "PUSH",
        0x15 => "POP",
        0x16 => "IN",
        0x17 => "OUT",
        0x1A => "DEBUG",
        0x1E => "EI",
        0x1F => "DI",
        0x20 => "IRET",
        0x21 => "WFI",
        0x3E => "SYSCALL",
        0x3F => "HALT",
        _ => "UNKNOWN",
    }
}

/// The upper-case name of each opcode.
pub open spec fn opcode_name(op: Opcode) -> Seq<char> {
    match op {
        Opcode::Mov => "MOV"@,
        Opcode::Movi => "MOVI"@,
        Opcode::Movis => "MOVIS"@,
        Opcode::Ld => "LD"@,
        Opcode::St => "ST"@,
        Opcode::Ldb => "LDB"@,
        Opcode::Stb => "STB"@,
        Opcode::Add => "ADD"@,
        Opcode::Addis => "ADDIS"@,
        Opcode::Sub => "SUB"@,
        Opcode::Cmp => "CMP"@,
        Opcode::And => "AND"@,
        Opcode::Or => "OR"@,
        Opcode::Xor => "XOR"@,
        Opcode::Shl => "SHL"@,
        Opcode::Shr => "SHR"@,
        Opcode::Jmp => "JMP"@,
        Opcode::Jz => "JZ"@,
        Opcode::Jnz => "JNZ"@,
        Opcode::Jg => "JG"@,
        Opcode::Jl => "JL"@,
        Opcode::Ja => "JA"@,
        Opcode::Jb => "JB"@,
        Opcode::Call => "CALL"@,
        Opcode::Push => "PUSH"@,
        Opcode::Pop => "POP"@,
        Opcode::In => "IN"@,
        Opcode::Out => "OUT"@,
        Opcode::Debug => "DEBUG"@,
        Opcode::Ei => "EI"@,
        Opcode::Di => "DI"@,
        Opcode::Iret => "IRET"@,
        Opcode::Wfi => "WFI"@,
        Opcode::Syscall => "SYSCALL"@,
        Opcode::Halt => "HALT"@,
    }
}

/// The mnemonic of an encoding is the upper-case name of the opcode it
/// decodes to, and "UNKNOWN" exactly when it decodes to none.
pub proof fn lemma_mnemonic_follows_decoding(opcode: u8)
    ensures
        mnemonic_text(opcode) == match opcode_of(opcode) {
            Some(o) => opcode_name(o),
            None => "UNKNOWN"@,
        },
        mnemonic_text(opcode) == "UNKNOWN"@ <==> opcode_of(opcode) is None,
{
    reveal_strlit("UNKNOWN");
    reveal_strlit("MOV");
    reveal_strlit("MOVI");
    reveal_strlit("MOVIS");
    reveal_strlit("LD");
    reveal_strlit("ST");
    reveal_strlit("LDB");
    reveal_strlit("STB");
    reveal_strlit("ADD");
    reveal_strlit("ADDIS");
    reveal_strlit("SUB");
    reveal_strlit("CMP");
    reveal_strlit("AND");
    reveal_strlit("OR");
    reveal_strlit("XOR");
    reveal_strlit("SHL");
    reveal_strlit("SHR");
    reveal_strlit("JMP");
    reveal_strlit("JZ");
    reveal_strlit("JNZ");
    reveal_strlit("JG");
    reveal_strlit("JL");
    reveal_strlit("JA");
    reveal_strlit("JB");
    reveal_strlit("CALL");
    reveal_strlit("PUSH");
    reveal_strlit("POP");
    reveal_strlit("IN");
    reveal_strlit("OUT");
    reveal_strlit("DEBUG");
    reveal_strlit("EI");
    reveal_strlit("DI");
    reveal_strlit("IRET");
    reveal_strlit("WFI");
    reveal_strlit("SYSCALL");
    reveal_strlit("HALT");
    if let Some(o) = opcode_of(opcode) {
        // No opcode name starts with the letter that "UNKNOWN" starts with.
        assert(opcode_name(o)[0] != "UNKNOWN"@[0]);
    }
}

} // verus!
