use vstd::prelude::*;

verus! {

/// The operations of the instruction set, with their wire bytes.
#[derive(Debug, Clone, Copy, PartialEq, Eq, Structural)]
pub enum Opcode {
    Nop,
    LoadConst,
    LoadGlobal,
    Invoke,
    Pop,
}

/// The opcode that a wire byte stands for, if any.
pub open spec fn opcode_of(byte: u8) -> Option<Opcode> {
    if byte == 0x00 {
        Some(Opcode::Nop)
    } else if byte == 0x03 {
        Some(Opcode::Pop)
    } else if byte == 0x06 {
        Some(Opcode::LoadConst)
    } else if byte == 0x0D {
        Some(Opcode::LoadGlobal)
    } else if byte == 0x14 {
        Some(Opcode::Invoke)
    } else {
        None
    }
}

/// The wire byte of an opcode.
pub open spec fn byte_of(op: Opcode) -> u8 {
    match op {
        Opcode::Nop => 0x00,
        Opcode::Pop => 0x03,
        Opcode::LoadConst => 0x06,
        Opcode::LoadGlobal => 0x0D,
        Opcode::Invoke => 0x14,
    }
}

impl Opcode {
    /// Decodes a wire byte; bytes outside the instruction set give `None`.
    pub fn from_byte(byte: u8) -> (r: Option<Opcode>)
        ensures
            r == opcode_of(byte),
    {
        match byte {
            0x00 => Some(Opcode::Nop),
            0x03 => Some(Opcode::Pop),
            0x06 => Some(Opcode::LoadConst),
            0x0D => Some(Opcode::LoadGlobal),
            0x14 => Some(Opcode::Invoke),
            _ => None,
        }
    }

    /// The wire byte of this opcode.
    pub fn to_byte(self) -> (r: u8)
        ensures
            r == byte_of(self),
    {
        match self {
            Opcode::Nop => 0x00,
            Opcode::Pop => 0x03,
            Opcode::LoadConst => 0x06,
            Opcode::LoadGlobal => 0x0D,
            Opcode::Invoke => 0x14,
        }
    }
}

/// Decoding the byte of an opcode gives the opcode back, and a byte that
/// decodes is the byte of what it decodes to.
pub proof fn opcode_byte_round_trip(op: Opcode, byte: u8)
    ensures
        opcode_of(byte_of(op)) == Some(op),
        opcode_of(byte) matches Some(o) ==> byte_of(o) == byte,
{
}

} // verus!
