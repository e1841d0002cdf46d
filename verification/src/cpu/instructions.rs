//! The instruction set and the opcode decoder.
//!
//! [`decode_opcode`] maps a 16-bit instruction word to a tagged
//! [`Instruction`] value, or to [`DecodeError::UnknownOpcode`] for a word
//! that matches no known shape.  The mapping is pinned down exactly by
//! [`spec_decode`].

use vstd::prelude::*;

verus! {

/// One decoded instruction.  Register indices are small unsigned integers
/// (always below 16), addresses are 12-bit values carried in a `u16`, and
/// immediates are 8-bit.
#[derive(Clone, Copy, Debug, PartialEq, Eq, Structural)]
pub enum Instruction {
    /// `0NNN`: call to a native routine at `NNN`; modelled as a no-op.
    Call(u16),
    /// `00E0`: clear the screen.
    Clear,
    /// `00EE`: return from a subroutine.
    SubReturn,
    /// `1NNN`: jump to `NNN`.
    Jump(u16),
    /// `2NNN`: call the subroutine at `NNN`.
    CallSubroutine(u16),
    /// `3XNN`: skip the next instruction if `VX == NN`.
    SkipEq(usize, u8),
    /// `4XNN`: skip the next instruction if `VX != NN`.
    SkipNeq(usize, u8),
    /// `5XY0`: skip the next instruction if `VX == VY`.
    SkipRegEq(usize, usize),
    /// `6XNN`: set `VX` to `NN`.
    SetReg(usize, u8),
    /// `7XNN`: add `NN` to `VX` without touching the flag register.
    AddNoCarry(usize, u8),
    /// `8XY0`: set `VX` to `VY`.
    Assign(usize, usize),
    /// `8XY1`: set `VX` to `VX | VY`.
    AssignOr(usize, usize),
    /// `8XY2`: set `VX` to `VX & VY`.
    AssignAnd(usize, usize),
    /// `8XY3`: set `VX` to `VX ^ VY`.
    AssignXor(usize, usize),
    /// `8XY4`: add `VY` to `VX`; the flag register records the carry.
    AddCarry(usize, usize),
    /// `8XY5`: subtract `VY` from `VX`; the flag register records "no borrow".
    SubLeft(usize, usize),
    /// `8XY6`: shift `VX` right by one; the flag register receives the bit
    /// shifted out.
    LeastSig(usize),
    /// `8XY7`: set `VX` to `VY - VX`; the flag register records "no borrow".
    SubRight(usize, usize),
    /// `8XYE`: shift `VX` left by one; the flag register receives the bit
    /// shifted out.
    MostSig(usize),
    /// `9XY0`: skip the next instruction if `VX != VY`.
    CondNeq(usize, usize),
    /// `ANNN`: set the index register to `NNN`.
    SetI(u16),
    /// `BNNN`: jump to `V0 + NNN`.
    JumpV0NNN(u16),
    /// `CXNN`: set `VX` to a random byte masked with `NN`.
    RandX(usize, u8),
    /// `DXYN`: draw the `N`-byte sprite at the index register to
    /// `(VX, VY)`; the flag register records collisions.
    DrawSprite(usize, usize, u8),
    /// `EX9E`: skip the next instruction if the key named by `VX` is down.
    KeyPressed(usize),
    /// `EXA1`: skip the next instruction if the key named by `VX` is up.
    KeyUnpressed(usize),
    /// `FX07`: set `VX` to the delay timer.
    SetXDelayTimer(usize),
    /// `FX0A`: suspend instruction progression until a key press lands in `VX`.
    AwaitKeyPress(usize),
    /// `FX15`: set the delay timer to `VX`.
    SetDelayTimer(usize),
    /// `FX18`: set the sound timer to `VX`.
    SetSoundTimer(usize),
    /// `FX1E`: add `VX` to the index register; the flag register records
    /// overflow past the 12-bit address range.
    AddVxToI(usize),
    /// `FX29`: point the index register at the glyph for the value of `VX`.
    SetIWithChar(usize),
    /// `FX33`: store the decimal digits of `VX` at the index register.
    SetBCD(usize),
    /// `FX55`: store `V0..=VX` to memory at the index register.
    RegDump(usize),
    /// `FX65`: load `V0..=VX` from memory at the index register.
    RegLoad(usize),
}

/// A failure of the decoder.
#[derive(Clone, Copy, Debug, PartialEq, Eq, Structural)]
pub enum DecodeError {
    /// The word matches no known instruction shape; carries the word itself.
    UnknownOpcode(u16),
}

impl Instruction {
    /// Every operand is within the range its field width allows: register
    /// indices and nibble immediates below 16, addresses below `0x1000`.
    pub open spec fn wf(self) -> bool {
        match self {
            Instruction::Call(nnn) => nnn < 0x1000,
            Instruction::Clear => true,
            Instruction::SubReturn => true,
            Instruction::Jump(nnn) => nnn < 0x1000,
            Instruction::CallSubroutine(nnn) => nnn < 0x1000,
            Instruction::SkipEq(x, _nn) => x < 16,
            Instruction::SkipNeq(x, _nn) => x < 16,
            Instruction::SkipRegEq(x, y) => x < 16 && y < 16,
            Instruction::SetReg(x, _nn) => x < 16,
            Instruction::AddNoCarry(x, _nn) => x < 16,
            Instruction::Assign(x, y) => x < 16 && y < 16,
            Instruction::AssignOr(x, y) => x < 16 && y < 16,
            Instruction::AssignAnd(x, y) => x < 16 && y < 16,
            Instruction::AssignXor(x, y) => x < 16 && y < 16,
            Instruction::AddCarry(x, y) => x < 16 && y < 16,
            Instruction::SubLeft(x, y) => x < 16 && y < 16,
            Instruction::LeastSig(x) => x < 16,
            Instruction::SubRight(x, y) => x < 16 && y < 16,
            Instruction::MostSig(x) => x < 16,
            Instruction::CondNeq(x, y) => x < 16 && y < 16,
            Instruction::SetI(nnn) => nnn < 0x1000,
            Instruction::JumpV0NNN(nnn) => nnn < 0x1000,
            Instruction::RandX(x, _nn) => x < 16,
            Instruction::DrawSprite(x, y, n) => x < 16 && y < 16 && n < 16,
            Instruction::KeyPressed(x) => x < 16,
            Instruction::KeyUnpressed(x) => x < 16,
            Instruction::SetXDelayTimer(x) => x < 16,
            Instruction::AwaitKeyPress(x) => x < 16,
            Instruction::SetDelayTimer(x) => x < 16,
            Instruction::SetSoundTimer(x) => x < 16,
            Instruction::AddVxToI(x) => x < 16,
            Instruction::SetIWithChar(x) => x < 16,
            Instruction::SetBCD(x) => x < 16,
            Instruction::RegDump(x) => x < 16,
            Instruction::RegLoad(x) => x < 16,
        }
    }
}

/// The decode table: what every 16-bit word means.
///
/// Dispatch is on the top nibble; top nibbles `0x0`, `0x8`, `0xE` and `0xF`
/// take a secondary dispatch on the low byte or low nibble.  A word that
/// matches no shape decodes to [`DecodeError::UnknownOpcode`].
pub open spec fn spec_decode(opcode: u16) -> Result<Instruction, DecodeError> {
    let top = (opcode & 0xF000) >> 12;
    let x = ((opcode & 0x0F00) >> 8) as usize;
    let y = ((opcode & 0x00F0) >> 4) as usize;
    let n = (opcode & 0x000F) as u8;
    let nn = (opcode & 0x00FF) as u8;
    let nnn = opcode & 0x0FFF;
    if top == 0x0 {
        if nn == 0xE0 {
            Ok(Instruction::Clear)
        } else if nn == 0xEE {
            Ok(Instruction::SubReturn)
        } else {
            Ok(Instruction::Call(nnn))
        }
    } else if top == 0x1 {
        Ok(Instruction::Jump(nnn))
    } else if top == 0x2 {
        Ok(Instruction::CallSubroutine(nnn))
    } else if top == 0x3 {
        Ok(Instruction::SkipEq(x, nn))
    } else if top == 0x4 {
        Ok(Instruction::SkipNeq(x, nn))
    } else if top == 0x5 {
        Ok(Instruction::SkipRegEq(x, y))
    } else if top == 0x6 {
        Ok(Instruction::SetReg(x, nn))
    } else if top == 0x7 {
        Ok(Instruction::AddNoCarry(x, nn))
    } else if top == 0x8 {
        if n == 0x0 {
            Ok(Instruction::Assign(x, y))
        } else if n == 0x1 {
            Ok(Instruction::AssignOr(x, y))
        } else if n == 0x2 {
            Ok(Instruction::AssignAnd(x, y))
        } else if n == 0x3 {
            Ok(Instruction::AssignXor(x, y))
        } else if n == 0x4 {
            Ok(Instruction::AddCarry(x, y))
        } else if n == 0x5 {
            Ok(Instruction::SubLeft(x, y))
        } else if n == 0x6 {
            Ok(Instruction::LeastSig(x))
        } else if n == 0x7 {
            Ok(Instruction::SubRight(x, y))
        } else if n == 0xE {
            Ok(Instruction::MostSig(x))
        } else {
            Err(DecodeError::UnknownOpcode(opcode))
        }
    } else if top == 0x9 {
        Ok(Instruction::CondNeq(x, y))
    } else if top == 0xA {
        Ok(Instruction::SetI(nnn))
    } else if top == 0xB {
        Ok(Instruction::JumpV0NNN(nnn))
    } else if top == 0xC {
        Ok(Instruction::RandX(x, nn))
    } else if top == 0xD {
        Ok(Instruction::DrawSprite(x, y, n))
    } else if top == 0xE {
        if nn == 0x9E {
            Ok(Instruction::KeyPressed(x))
        } else if nn == 0xA1 {
            Ok(Instruction::KeyUnpressed(x))
        } else {
            Err(DecodeError::UnknownOpcode(opcode))
        }
    } else {
        if nn == 0x07 {
            Ok(Instruction::SetXDelayTimer(x))
        } else if nn == 0x0A {
            Ok(Instruction::AwaitKeyPress(x))
        } else if nn == 0x15 {
            Ok(Instruction::SetDelayTimer(x))
        } else if nn == 0x18 {
            Ok(Instruction::SetSoundTimer(x))
        } else if nn == 0x1E {
            Ok(Instruction::AddVxToI(x))
        } else if nn == 0x29 {
            Ok(Instruction::SetIWithChar(x))
        } else if nn == 0x33 {
            Ok(Instruction::SetBCD(x))
        } else if nn == 0x55 {
            Ok(Instruction::RegDump(x))
        } else if nn == 0x65 {
            Ok(Instruction::RegLoad(x))
        } else {
            Err(DecodeError::UnknownOpcode(opcode))
        }
    }
}

/// Low 12 bits of an instruction word: an address operand.
pub fn get_nnn(opcode: u16) -> (r: u16)
    ensures
        r == opcode & 0x0FFF,
{
    opcode & 0x0FFF
}

/// Low byte of an instruction word: an immediate operand.
pub fn get_nn(opcode: u16) -> (r: u8)
    ensures
        r == (opcode & 0x00FF) as u8,
{
    (opcode & 0x00FF) as u8
}

/// Second-highest nibble of an instruction word: the `X` register operand.
pub fn get_x(opcode: u16) -> (r: u8)
    ensures
        r == ((opcode & 0x0F00) >> 8) as u8,
{
    ((opcode & 0x0F00) >> 8) as u8
}

/// Second-lowest nibble of an instruction word: the `Y` register operand.
pub fn get_y(opcode: u16) -> (r: u8)
    ensures
        r == ((opcode & 0x00F0) >> 4) as u8,
{
    ((opcode & 0x00F0) >> 4) as u8
}

/// Decodes one instruction word.
///
/// Returns exactly what the decode table [`spec_decode`] gives: the tagged
/// instruction with its operand fields extracted for every known shape, and
/// `UnknownOpcode` for every other word.
pub fn decode_opcode(opcode: u16) -> (r: Result<Instruction, DecodeError>)
    ensures
        r == spec_decode(opcode),
        r matches Ok(instr) ==> instr.wf(),
{
    proof {
        assert((opcode & 0xF000) >> 12 < 16) by (bit_vector);
        assert((opcode & 0x0F00) >> 8 < 16) by (bit_vector);
        assert((opcode & 0x00F0) >> 4 < 16) by (bit_vector);
        assert(opcode & 0x000F < 16) by (bit_vector);
        assert(opcode & 0x0FFF < 0x1000) by (bit_vector);
    }
    let top: u16 = (opcode & 0xF000) >> 12;
    let x: usize = ((opcode & 0x0F00) >> 8) as usize;
    let y: usize = ((opcode & 0x00F0) >> 4) as usize;
    let n: u8 = (opcode & 0x000F) as u8;
    let nn: u8 = (opcode & 0x00FF) as u8;
    let nnn: u16 = opcode & 0x0FFF;
    if top == 0x0 {
        if nn == 0xE0 {
            Ok(Instruction::Clear)
        } else if nn == 0xEE {
            Ok(Instruction::SubReturn)
        } else {
            Ok(Instruction::Call(nnn))
        }
    } else if top == 0x1 {
        Ok(Instruction::Jump(nnn))
    } else if top == 0x2 {
        Ok(Instruction::CallSubroutine(nnn))
    } else if top == 0x3 {
        Ok(Instruction::SkipEq(x, nn))
    } else if top == 0x4 {
        Ok(Instruction::SkipNeq(x, nn))
    } else if top == 0x5 {
        Ok(Instruction::SkipRegEq(x, y))
    } else if top == 0x6 {
        Ok(Instruction::SetReg(x, nn))
    } else if top == 0x7 {
        Ok(Instruction::AddNoCarry(x, nn))
    } else if top == 0x8 {
        if n == 0x0 {
            Ok(Instruction::Assign(x, y))
        } else if n == 0x1 {
            Ok(Instruction::AssignOr(x, y))
        } else if n == 0x2 {
            Ok(Instruction::AssignAnd(x, y))
        } else if n == 0x3 {
            Ok(Instruction::AssignXor(x, y))
        } else if n == 0x4 {
            Ok(Instruction::AddCarry(x, y))
        } else if n == 0x5 {
            Ok(Instruction::SubLeft(x, y))
        } else if n == 0x6 {
            Ok(Instruction::LeastSig(x))
        } else if n == 0x7 {
            Ok(Instruction::SubRight(x, y))
        } else if n == 0xE {
            Ok(Instruction::MostSig(x))
        } else {
            Err(DecodeError::UnknownOpcode(opcode))
        }
    } else if top == 0x9 {
        Ok(Instruction::CondNeq(x, y))
    } else if top == 0xA {
        Ok(Instruction::SetI(nnn))
    } else if top == 0xB {
        Ok(Instruction::JumpV0NNN(nnn))
    } else if top == 0xC {
        Ok(Instruction::RandX(x, nn))
    } else if top == 0xD {
        Ok(Instruction::DrawSprite(x, y, n))
    } else if top == 0xE {
        if nn == 0x9E {
            Ok(Instruction::KeyPressed(x))
        } else if nn == 0xA1 {
            Ok(Instruction::KeyUnpressed(x))
        } else {
            Err(DecodeError::UnknownOpcode(opcode))
        }
    } else {
        if nn == 0x07 {
            Ok(Instruction::SetXDelayTimer(x))
        } else if nn == 0x0A {
            Ok(Instruction::AwaitKeyPress(x))
        } else if nn == 0x15 {
            Ok(Instruction::SetDelayTimer(x))
        } else if nn == 0x18 {
            Ok(Instruction::SetSoundTimer(x))
        } else if nn == 0x1E {
            Ok(Instruction::AddVxToI(x))
        } else if nn == 0x29 {
            Ok(Instruction::SetIWithChar(x))
        } else if nn == 0x33 {
            Ok(Instruction::SetBCD(x))
        } else if nn == 0x55 {
            Ok(Instruction::RegDump(x))
        } else if nn == 0x65 {
            Ok(Instruction::RegLoad(x))
        } else {
            Err(DecodeError::UnknownOpcode(opcode))
        }
    }
}

} // verus!
