//! Instructions and how a 16-bit word is decoded into one.

use vstd::prelude::*;
use crate::chip8::REGISTERS;

verus! {

/// A decoded instruction. Register operands are register numbers; `Vx` comes first.
#[derive(Clone, Copy, Debug, PartialEq, Eq, Structural)]
pub enum Instruction {
    /// `00E0`: clear the screen.
    Cls,
    /// `00EE`: return from a subroutine.
    Ret,
    /// `1nnn`: jump to an address.
    Jp(u16),
    /// `2nnn`: call the subroutine at an address.
    Call(u16),
    /// `3xnn`: skip the next instruction if `Vx` equals a byte.
    SeByte(usize, u8),
    /// `4xnn`: skip the next instruction if `Vx` differs from a byte.
    SneByte(usize, u8),
    /// `5xy_`: skip the next instruction if `Vx` equals `Vy`.
    SeReg(usize, usize),
    /// `6xnn`: set `Vx` to a byte.
    LdByte(usize, u8),
    /// `7xnn`: add a byte to `Vx`.
    AddByte(usize, u8),
    /// `8xy0`: set `Vx` to `Vy`.
    LdReg(usize, usize),
    /// `8xy1`: `Vx = Vx | Vy`.
    Or(usize, usize),
    /// `8xy2`: `Vx = Vx & Vy`.
    And(usize, usize),
    /// `8xy3`: `Vx = Vx ^ Vy`.
    Xor(usize, usize),
    /// `8xy4`: `Vx = Vx + Vy`.
    AddReg(usize, usize),
    /// `8xy5`: `Vx = Vx - Vy`.
    Sub(usize, usize),
    /// `8xy6`: `Vx = Vy >> 1`.
    Shr(usize, usize),
    /// `8xy7`: `Vx = Vy - Vx`.
    Subn(usize, usize),
    /// `8xyE`: `Vx = Vy << 1`.
    Shl(usize, usize),
    /// `9xy_`: skip the next instruction if `Vx` differs from `Vy`.
    SneReg(usize, usize),
    /// `Annn`: set the index register to an address.
    LdI(u16),
    /// `Bxnn`: jump to an address plus `V0`. The register named by the word plays no part.
    JpV0(usize, u16),
    /// `Cxnn`: set `Vx` to a random byte masked by a byte.
    Rnd(usize, u8),
    /// `Dxyn`: draw a sprite of `n` rows at (`Vx`, `Vy`).
    Drw(usize, usize, u8),
    /// `Ex9E`: skip the next instruction if the key named by `Vx` is held.
    Skp(usize),
    /// `ExA1`: skip the next instruction if the key named by `Vx` is not held.
    Sknp(usize),
    /// `Fx07`: set `Vx` to the delay timer.
    LdVxDt(usize),
    /// `Fx0A`: wait for a key and put it in `Vx`.
    LdVxK(usize),
    /// `Fx15`: set the delay timer to `Vx`.
    LdDtVx(usize),
    /// `Fx18`: set the sound timer to `Vx`.
    LdStVx(usize),
    /// `Fx1E`: add `Vx` to the index register.
    AddI(usize),
    /// `Fx29`: point the index register at the glyph for `Vx`.
    LdF(usize),
    /// `Fx33`: store the decimal digits of `Vx` at the index register.
    LdB(usize),
    /// `Fx55`: store registers `V0` to `Vx` at the index register.
    LdIVx(usize),
    /// `Fx65`: load registers `V0` to `Vx` from the index register.
    LdVxI(usize),
    /// A word that encodes no instruction.
    Unmatched(u16),
}

/// The largest address that an instruction word can hold.
pub const MAX_ADDRESS: u16 = 0xFFF;

/// The largest value of a four-bit operand.
pub const MAX_NIBBLE: u8 = 0xF;

/// The top four bits of an instruction word, which select the group of the instruction.
pub open spec fn group_of(word: u16) -> int {
    word as int / 0x1000
}

/// Bits 8 to 11 of an instruction word: the register `x`.
pub open spec fn x_of(word: u16) -> int {
    (word as int / 0x100) % 0x10
}

/// Bits 4 to 7 of an instruction word: the register `y`.
pub open spec fn y_of(word: u16) -> int {
    (word as int / 0x10) % 0x10
}

/// The low twelve bits of an instruction word: an address.
pub open spec fn address_of(word: u16) -> u16 {
    word % 0x1000
}

/// The low eight bits of an instruction word: an immediate byte.
pub open spec fn byte_of(word: u16) -> u8 {
    (word % 0x100) as u8
}

/// The low four bits of an instruction word: a short immediate.
pub open spec fn nibble_of(word: u16) -> u8 {
    (word % 0x10) as u8
}

/// The instruction that `word` encodes.
pub open spec fn decode_spec(word: u16) -> Instruction {
    let x = x_of(word) as usize;
    let y = y_of(word) as usize;
    let address = address_of(word);
    let byte = byte_of(word);
    let nibble = nibble_of(word);
    let group = group_of(word);
    if group == 0x0 {
        if byte == 0xE0 {
            Instruction::Cls
        } else if byte == 0xEE {
            Instruction::Ret
        } else {
            Instruction::Unmatched(word)
        }
    } else if group == 0x1 {
        Instruction::Jp(address)
    } else if group == 0x2 {
        Instruction::Call(address)
    } else if group == 0x3 {
        Instruction::SeByte(x, byte)
    } else if group == 0x4 {
        Instruction::SneByte(x, byte)
    } else if group == 0x5 {
        Instruction::SeReg(x, y)
    } else if group == 0x6 {
        Instruction::LdByte(x, byte)
    } else if group == 0x7 {
        Instruction::AddByte(x, byte)
    } else if group == 0x8 {
        if nibble == 0x0 {
            Instruction::LdReg(x, y)
        } else if nibble == 0x1 {
            Instruction::Or(x, y)
        } else if nibble == 0x2 {
            Instruction::And(x, y)
        } else if nibble == 0x3 {
            Instruction::Xor(x, y)
        } else if nibble == 0x4 {
            Instruction::AddReg(x, y)
        } else if nibble == 0x5 {
            Instruction::Sub(x, y)
        } else if nibble == 0x6 {
            Instruction::Shr(x, y)
        } else if nibble == 0x7 {
            Instruction::Subn(x, y)
        } else if nibble == 0xE {
            Instruction::Shl(x, y)
        } else {
            Instruction::Unmatched(word)
        }
    } else if group == 0x9 {
        Instruction::SneReg(x, y)
    } else if group == 0xA {
        Instruction::LdI(address)
    } else if group == 0xB {
        Instruction::JpV0(x, address)
    } else if group == 0xC {
        Instruction::Rnd(x, byte)
    } else if group == 0xD {
        Instruction::Drw(x, y, nibble)
    } else if group == 0xE {
        if byte == 0x9E {
            Instruction::Skp(x)
        } else if byte == 0xA1 {
            Instruction::Sknp(x)
        } else {
            Instruction::Unmatched(word)
        }
    } else {
        if byte == 0x07 {
            Instruction::LdVxDt(x)
        } else if byte == 0x0A {
            Instruction::LdVxK(x)
        } else if byte == 0x15 {
            Instruction::LdDtVx(x)
        } else if byte == 0x18 {
            Instruction::LdStVx(x)
        } else if byte == 0x1E {
            Instruction::AddI(x)
        } else if byte == 0x29 {
            Instruction::LdF(x)
        } else if byte == 0x33 {
            Instruction::LdB(x)
        } else if byte == 0x55 {
            Instruction::LdIVx(x)
        } else if byte == 0x65 {
            Instruction::LdVxI(x)
        } else {
            Instruction::Unmatched(word)
        }
    }
}

impl Instruction {
    /// Whether every operand fits the field of the instruction word that holds it: a register
    /// number in four bits, an address in twelve, a sprite height in four.
    pub open spec fn well_formed(self) -> bool {
        match self {
            Instruction::SeByte(x, _)
            | Instruction::SneByte(x, _)
            | Instruction::LdByte(x, _)
            | Instruction::AddByte(x, _)
            | Instruction::Rnd(x, _)
            | Instruction::Skp(x)
            | Instruction::Sknp(x)
            | Instruction::LdVxDt(x)
            | Instruction::LdVxK(x)
            | Instruction::LdDtVx(x)
            | Instruction::LdStVx(x)
            | Instruction::AddI(x)
            | Instruction::LdF(x)
            | Instruction::LdB(x)
            | Instruction::LdIVx(x)
            | Instruction::LdVxI(x) => x < REGISTERS,
            Instruction::SeReg(x, y)
            | Instruction::LdReg(x, y)
            | Instruction::Or(x, y)
            | Instruction::And(x, y)
            | Instruction::Xor(x, y)
            | Instruction::AddReg(x, y)
            | Instruction::Sub(x, y)
            | Instruction::Shr(x, y)
            | Instruction::Subn(x, y)
            | Instruction::Shl(x, y)
            | Instruction::SneReg(x, y) => x < REGISTERS && y < REGISTERS,
            Instruction::Drw(x, y, rows) => x < REGISTERS && y < REGISTERS && rows <= MAX_NIBBLE,
            Instruction::Jp(address)
            | Instruction::Call(address)
            | Instruction::LdI(address)
            | Instruction::JpV0(_, address) => address <= MAX_ADDRESS,
            Instruction::Cls | Instruction::Ret | Instruction::Unmatched(_) => true,
        }
    }

    /// Whether the instruction is one of those that may skip the instruction after it.
    pub open spec fn is_skip(self) -> bool {
        match self {
            Instruction::SeByte(_, _)
            | Instruction::SneByte(_, _)
            | Instruction::SeReg(_, _)
            | Instruction::SneReg(_, _)
            | Instruction::Skp(_)
            | Instruction::Sknp(_) => true,
            _ => false,
        }
    }
}

/// Decodes an instruction word.
pub fn decode(word: u16) -> (instruction: Instruction)
    ensures
        instruction == decode_spec(word),
        instruction.well_formed(),
{
    let group = (word >> 12) & 0xF;
    let x = ((word >> 8) & 0xF) as usize;
    let y = ((word >> 4) & 0xF) as usize;
    let address = word & 0xFFF;
    let byte = (word & 0xFF) as u8;
    let nibble = (word & 0xF) as u8;
    assert((word >> 12) & 0xF == word / 0x1000) by (bit_vector);
    assert((word >> 8) & 0xF == (word / 0x100) % 0x10) by (bit_vector);
    assert((word >> 4) & 0xF == (word / 0x10) % 0x10) by (bit_vector);
    assert(word & 0xFFF == word % 0x1000) by (bit_vector);
    assert(word & 0xFF == word % 0x100) by (bit_vector);
    assert(word & 0xF == word % 0x10) by (bit_vector);
    match group {
        0x0 => match byte {
            0xE0 => Instruction::Cls,
            0xEE => Instruction::Ret,
            _ => Instruction::Unmatched(word),
        },
        0x1 => Instruction::Jp(address),
        0x2 => Instruction::Call(address),
        0x3 => Instruction::SeByte(x, byte),
        0x4 => Instruction::SneByte(x, byte),
        0x5 => Instruction::SeReg(x, y),
        0x6 => Instruction::LdByte(x, byte),
        0x7 => Instruction::AddByte(x, byte),
        0x8 => match nibble {
            0x0 => Instruction::LdReg(x, y),
            0x1 => Instruction::Or(x, y),
            0x2 => Instruction::And(x, y),
            0x3 => Instruction::Xor(x, y),
            0x4 => Instruction::AddReg(x, y),
            0x5 => Instruction::Sub(x, y),
            0x6 => Instruction::Shr(x, y),
            0x7 => Instruction::Subn(x, y),
            0xE => Instruction::Shl(x, y),
            _ => Instruction::Unmatched(word),
        },
        0x9 => Instruction::SneReg(x, y),
        0xA => Instruction::LdI(address),
        0xB => Instruction::JpV0(x, address),
        0xC => Instruction::Rnd(x, byte),
        0xD => Instruction::Drw(x, y, nibble),
        0xE => match byte {
            0x9E => Instruction::Skp(x),
            0xA1 => Instruction::Sknp(x),
            _ => Instruction::Unmatched(word),
        },
        _ => match byte {
            0x07 => Instruction::LdVxDt(x),
            0x0A => Instruction::LdVxK(x),
            0x15 => Instruction::LdDtVx(x),
            0x18 => Instruction::LdStVx(x),
            0x1E => Instruction::AddI(x),
            0x29 => Instruction::LdF(x),
            0x33 => Instruction::LdB(x),
            0x55 => Instruction::LdIVx(x),
            0x65 => Instruction::LdVxI(x),
            _ => Instruction::Unmatched(word),
        },
    }
}

} // verus!
