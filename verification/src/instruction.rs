//! The instruction set and its decoder.

use vstd::prelude::*;
use crate::error::EngineError;

verus! {

/// One decoded instruction. Register operands are named `Vx` and `Vy`,
/// `kk` is an 8-bit immediate, `addr` a 12-bit address and `n` a nibble.
#[derive(Clone, Copy, Debug, PartialEq, Eq, Structural)]
pub enum Instruction {
    /// `0nnn`: legacy call of a machine routine at `addr`; handled like `Call`.
    Sys(u16),
    /// `00E0`: clear the display.
    Cls,
    /// `00EE`: return from a subroutine.
    Ret,
    /// `1nnn`: jump to `addr`.
    JpAddr(u16),
    /// `2nnn`: call the subroutine at `addr`.
    Call(u16),
    /// `3xkk`: skip the next instruction if `Vx == kk`.
    SeVxByte(u8, u8),
    /// `4xkk`: skip the next instruction if `Vx != kk`.
    SneVxByte(u8, u8),
    /// `5xy0`: skip the next instruction if `Vx == Vy`.
    SeVxVy(u8, u8),
    /// `6xkk`: set `Vx = kk`.
    LdVxByte(u8, u8),
    /// `7xkk`: set `Vx = Vx + kk`, wrapping; no flag.
    AddVxByte(u8, u8),
    /// `8xy0`: set `Vx = Vy`.
    LdVxVy(u8, u8),
    /// `8xy1`: set `Vx = Vx | Vy`.
    Or(u8, u8),
    /// `8xy2`: set `Vx = Vx & Vy`.
    And(u8, u8),
    /// `8xy3`: set `Vx = Vx ^ Vy`.
    Xor(u8, u8),
    /// `8xy4`: set `Vx = Vx + Vy`, `VF` = carry.
    AddVxVy(u8, u8),
    /// `8xy5`: set `Vx = Vx - Vy`, `VF` = no borrow.
    Sub(u8, u8),
    /// `8xy6`: set `Vx = Vy >> 1`, `VF` = the bit shifted out.
    Shr(u8, u8),
    /// `8xy7`: set `Vx = Vy - Vx`, `VF` = no borrow.
    Subn(u8, u8),
    /// `8xyE`: set `Vx = Vy << 1`, `VF` = the bit shifted out.
    Shl(u8, u8),
    /// `9xy0`: skip the next instruction if `Vx != Vy`.
    SneVxVy(u8, u8),
    /// `Annn`: set `I = addr`.
    LdIAddr(u16),
    /// `Bnnn`: jump to `addr + V0`.
    JpV0Addr(u16),
    /// `Cxkk`: set `Vx` = random byte `& kk`.
    Rnd(u8, u8),
    /// `Dxyn`: draw the `n`-row sprite at `I` at column `Vx`, row `Vy`; `VF` = collision.
    Drw(u8, u8, u8),
    /// `Ex9E`: skip the next instruction if the key named by `Vx` is down.
    Skp(u8),
    /// `ExA1`: skip the next instruction if the key named by `Vx` is up.
    Sknp(u8),
    /// `Fx07`: set `Vx` = delay timer.
    LdVxDt(u8),
    /// `Fx0A`: wait for a key, store it in `Vx`.
    LdVxK(u8),
    /// `Fx15`: set delay timer = `Vx`.
    LdDtVx(u8),
    /// `Fx18`: set sound timer = `Vx`.
    LdStVx(u8),
    /// `Fx1E`: set `I = I + Vx`.
    AddIVx(u8),
    /// `Fx29`: set `I` to the glyph of the digit in `Vx`.
    LdFVx(u8),
    /// `Fx33`: store the three decimal digits of `Vx` at `I`, `I+1`, `I+2`.
    LdBVx(u8),
    /// `Fx55`: store `V0..=Vx` in memory from `I` on.
    LdIVx(u8),
    /// `Fx65`: load `V0..=Vx` from memory from `I` on.
    LdVxI(u8),
}

/// The instruction that a 16-bit word encodes, read as four nibbles
/// `op x y n` from the most significant down, with `addr` the low twelve
/// bits and `kk` the low eight. A word outside the table is a decode error
/// that carries the word.
pub open spec fn decode_spec(word: u16) -> Result<Instruction, EngineError> {
    let op = word as int / 0x1000;
    let x = ((word as int / 0x100) % 0x10) as u8;
    let y = ((word as int / 0x10) % 0x10) as u8;
    let n = (word as int % 0x10) as u8;
    let addr = (word as int % 0x1000) as u16;
    let kk = (word as int % 0x100) as u8;
    if word == 0x00E0 {
        Ok(Instruction::Cls)
    } else if word == 0x00EE {
        Ok(Instruction::Ret)
    } else if op == 0x0 {
        Ok(Instruction::Sys(addr))
    } else if op == 0x1 {
        Ok(Instruction::JpAddr(addr))
    } else if op == 0x2 {
        Ok(Instruction::Call(addr))
    } else if op == 0x3 {
        Ok(Instruction::SeVxByte(x, kk))
    } else if op == 0x4 {
        Ok(Instruction::SneVxByte(x, kk))
    } else if op == 0x5 && n == 0 {
        Ok(Instruction::SeVxVy(x, y))
    } else if op == 0x6 {
        Ok(Instruction::LdVxByte(x, kk))
    } else if op == 0x7 {
        Ok(Instruction::AddVxByte(x, kk))
    } else if op == 0x8 && n == 0x0 {
        Ok(Instruction::LdVxVy(x, y))
    } else if op == 0x8 && n == 0x1 {
        Ok(Instruction::Or(x, y))
    } else if op == 0x8 && n == 0x2 {
        Ok(Instruction::And(x, y))
    } else if op == 0x8 && n == 0x3 {
        Ok(Instruction::Xor(x, y))
    } else if op == 0x8 && n == 0x4 {
        Ok(Instruction::AddVxVy(x, y))
    } else if op == 0x8 && n == 0x5 {
        Ok(Instruction::Sub(x, y))
    } else if op == 0x8 && n == 0x6 {
        Ok(Instruction::Shr(x, y))
    } else if op == 0x8 && n == 0x7 {
        Ok(Instruction::Subn(x, y))
    } else if op == 0x8 && n == 0xE {
        Ok(Instruction::Shl(x, y))
    } else if op == 0x9 && n == 0 {
        Ok(Instruction::SneVxVy(x, y))
    } else if op == 0xA {
        Ok(Instruction::LdIAddr(addr))
    } else if op == 0xB {
        Ok(Instruction::JpV0Addr(addr))
    } else if op == 0xC {
        Ok(Instruction::Rnd(x, kk))
    } else if op == 0xD {
        Ok(Instruction::Drw(x, y, n))
    } else if op == 0xE && kk == 0x9E {
        Ok(Instruction::Skp(x))
    } else if op == 0xE && kk == 0xA1 {
        Ok(Instruction::Sknp(x))
    } else if op == 0xF && kk == 0x07 {
        Ok(Instruction::LdVxDt(x))
    } else if op == 0xF && kk == 0x0A {
        Ok(Instruction::LdVxK(x))
    } else if op == 0xF && kk == 0x15 {
        Ok(Instruction::LdDtVx(x))
    } else if op == 0xF && kk == 0x18 {
        Ok(Instruction::LdStVx(x))
    } else if op == 0xF && kk == 0x1E {
        Ok(Instruction::AddIVx(x))
    } else if op == 0xF && kk == 0x29 {
        Ok(Instruction::LdFVx(x))
    } else if op == 0xF && kk == 0x33 {
        Ok(Instruction::LdBVx(x))
    } else if op == 0xF && kk == 0x55 {
        Ok(Instruction::LdIVx(x))
    } else if op == 0xF && kk == 0x65 {
        Ok(Instruction::LdVxI(x))
    } else {
        Err(EngineError::DecodeError(word))
    }
}

impl Instruction {
    /// Operands are in range: registers and the sprite height are nibbles,
    /// addresses have twelve bits.
    pub open spec fn well_formed(self) -> bool {
        match self {
            Instruction::Cls | Instruction::Ret => true,
            Instruction::Sys(addr)
            | Instruction::JpAddr(addr)
            | Instruction::Call(addr)
            | Instruction::LdIAddr(addr)
            | Instruction::JpV0Addr(addr) => addr < 0x1000,
            Instruction::SeVxByte(x, _)
            | Instruction::SneVxByte(x, _)
            | Instruction::LdVxByte(x, _)
            | Instruction::AddVxByte(x, _)
            | Instruction::Rnd(x, _) => x < 16,
            Instruction::SeVxVy(x, y)
            | Instruction::LdVxVy(x, y)
            | Instruction::Or(x, y)
            | Instruction::And(x, y)
            | Instruction::Xor(x, y)
            | Instruction::AddVxVy(x, y)
            | Instruction::Sub(x, y)
            | Instruction::Shr(x, y)
            | Instruction::Subn(x, y)
            | Instruction::Shl(x, y)
            | Instruction::SneVxVy(x, y) => x < 16 && y < 16,
            Instruction::Drw(x, y, n) => x < 16 && y < 16 && n < 16,
            Instruction::Skp(x)
            | Instruction::Sknp(x)
            | Instruction::LdVxDt(x)
            | Instruction::LdVxK(x)
            | Instruction::LdDtVx(x)
            | Instruction::LdStVx(x)
            | Instruction::AddIVx(x)
            | Instruction::LdFVx(x)
            | Instruction::LdBVx(x)
            | Instruction::LdIVx(x)
            | Instruction::LdVxI(x) => x < 16,
        }
    }

    /// Decodes one 16-bit word. Every word either names an instruction of
    /// the table or is handed back inside `DecodeError`.
    pub fn decode(word: u16) -> (decoded: Result<Instruction, EngineError>)
        ensures
            decoded == decode_spec(word),
            decoded matches Ok(instruction) ==> instruction.well_formed(),
    {
        let op: u8 = ((word >> 12) & 0xF) as u8;
        let x: u8 = ((word >> 8) & 0xF) as u8;
        let y: u8 = ((word >> 4) & 0xF) as u8;
        let n: u8 = (word & 0xF) as u8;
        let addr: u16 = word & 0x0FFF;
        let kk: u8 = (word & 0x00FF) as u8;
        proof {
            assert((word >> 12) & 0xF == word / 0x1000) by (bit_vector);
            assert((word >> 8) & 0xF == (word / 0x100) % 0x10) by (bit_vector);
            assert((word >> 4) & 0xF == (word / 0x10) % 0x10) by (bit_vector);
            assert(word & 0xF == word % 0x10) by (bit_vector);
            assert(word & 0x0FFF == word % 0x1000) by (bit_vector);
            assert(word & 0x00FF == word % 0x100) by (bit_vector);
        }
        match (op, x, y, n) {
            (0x0, 0x0, 0xE, 0x0) => Ok(Instruction::Cls),
            (0x0, 0x0, 0xE, 0xE) => Ok(Instruction::Ret),
            (0x0, _, _, _) => Ok(Instruction::Sys(addr)),
            (0x1, _, _, _) => Ok(Instruction::JpAddr(addr)),
            (0x2, _, _, _) => Ok(Instruction::Call(addr)),
            (0x3, _, _, _) => Ok(Instruction::SeVxByte(x, kk)),
            (0x4, _, _, _) => Ok(Instruction::SneVxByte(x, kk)),
            (0x5, _, _, 0x0) => Ok(Instruction::SeVxVy(x, y)),
            (0x6, _, _, _) => Ok(Instruction::LdVxByte(x, kk)),
            (0x7, _, _, _) => Ok(Instruction::AddVxByte(x, kk)),
            (0x8, _, _, 0x0) => Ok(Instruction::LdVxVy(x, y)),
            (0x8, _, _, 0x1) => Ok(Instruction::Or(x, y)),
            (0x8, _, _, 0x2) => Ok(Instruction::And(x, y)),
            (0x8, _, _, 0x3) => Ok(Instruction::Xor(x, y)),
            (0x8, _, _, 0x4) => Ok(Instruction::AddVxVy(x, y)),
            (0x8, _, _, 0x5) => Ok(Instruction::Sub(x, y)),
            (0x8, _, _, 0x6) => Ok(Instruction::Shr(x, y)),
            (0x8, _, _, 0x7) => Ok(Instruction::Subn(x, y)),
            (0x8, _, _, 0xE) => Ok(Instruction::Shl(x, y)),
            (0x9, _, _, 0x0) => Ok(Instruction::SneVxVy(x, y)),
            (0xA, _, _, _) => Ok(Instruction::LdIAddr(addr)),
            (0xB, _, _, _) => Ok(Instruction::JpV0Addr(addr)),
            (0xC, _, _, _) => Ok(Instruction::Rnd(x, kk)),
            (0xD, _, _, _) => Ok(Instruction::Drw(x, y, n)),
            (0xE, _, 0x9, 0xE) => Ok(Instruction::Skp(x)),
            (0xE, _, 0xA, 0x1) => Ok(Instruction::Sknp(x)),
            (0xF, _, 0x0, 0x7) => Ok(Instruction::LdVxDt(x)),
            (0xF, _, 0x0, 0xA) => Ok(Instruction::LdVxK(x)),
            (0xF, _, 0x1, 0x5) => Ok(Instruction::LdDtVx(x)),
            (0xF, _, 0x1, 0x8) => Ok(Instruction::LdStVx(x)),
            (0xF, _, 0x1, 0xE) => Ok(Instruction::AddIVx(x)),
            (0xF, _, 0x2, 0x9) => Ok(Instruction::LdFVx(x)),
            (0xF, _, 0x3, 0x3) => Ok(Instruction::LdBVx(x)),
            (0xF, _, 0x5, 0x5) => Ok(Instruction::LdIVx(x)),
            (0xF, _, 0x6, 0x5) => Ok(Instruction::LdVxI(x)),
            _ => Err(EngineError::DecodeError(word)),
        }
    }
}

impl TryFrom<u16> for Instruction {
    type Error = EngineError;

    /// Decodes one 16-bit word, as `Instruction::decode` does.
    fn try_from(value: u16) -> (decoded: Result<Self, EngineError>) {
        Instruction::decode(value)
    }
}

impl vstd::std_specs::convert::TryFromSpecImpl<u16> for Instruction {
    open spec fn obeys_try_from_spec() -> bool {
        true
    }

    open spec fn try_from_spec(value: u16) -> Result<Self, EngineError> {
        decode_spec(value)
    }
}

} // verus!
