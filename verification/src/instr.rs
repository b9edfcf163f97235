//! Instruction decoding.
//!
//! A 16-bit instruction is split into four 4-bit nibbles and matched against
//! the instruction patterns; [`decode`] produces the tagged variant that the
//! execution step dispatches on, or `None` for an unrecognized pattern.

use vstd::prelude::*;

verus! {

/// One decoded instruction. Register operands are nibble-derived indices
/// (0 through 15); `nnn` immediates are 12-bit addresses.
#[derive(Clone, Copy, Debug, PartialEq, Eq, Structural)]
pub enum Instr {
    /// 0000: no operation.
    Nop,
    /// 00E0: clear the framebuffer.
    ClearScreen,
    /// 00EE: return from subroutine.
    Ret,
    /// 1NNN: jump to address NNN.
    Jump(u16),
    /// 2NNN: call subroutine at NNN.
    Call(u16),
    /// 3XNN: skip next instruction if VX == NN.
    SkipEqImm(u8, u8),
    /// 4XNN: skip next instruction if VX != NN.
    SkipNeImm(u8, u8),
    /// 5XY0: skip next instruction if VX == VY.
    SkipEqReg(u8, u8),
    /// 6XNN: VX = NN.
    LoadImm(u8, u8),
    /// 7XNN: VX += NN, wrapping, no flag effect.
    AddImm(u8, u8),
    /// 8XY0: VX = VY.
    CopyReg(u8, u8),
    /// 8XY1: VX |= VY.
    OrReg(u8, u8),
    /// 8XY2: VX &= VY.
    AndReg(u8, u8),
    /// 8XY3: VX ^= VY.
    XorReg(u8, u8),
    /// 8XY4: VX += VY, VF = carry.
    AddReg(u8, u8),
    /// 8XY5: VX -= VY, VF = 1 when no borrow.
    SubReg(u8, u8),
    /// 8XY6: VX >>= 1, VF = the bit shifted out.
    ShiftRight(u8),
    /// 8XY7: VX = VY - VX, VF = 1 when no borrow.
    SubFrom(u8, u8),
    /// 8XYE: VX <<= 1, VF = the bit shifted out.
    ShiftLeft(u8),
    /// 9XY0: skip next instruction if VX != VY.
    SkipNeReg(u8, u8),
    /// ANNN: I = NNN.
    SetIndex(u16),
    /// BNNN: jump to V0 + NNN.
    JumpV0(u16),
    /// CXNN: VX = random byte AND NN.
    RandomMask(u8, u8),
    /// DXYN: draw the N-row sprite at memory I at coordinates (VX, VY).
    Draw(u8, u8, u8),
    /// EX9E: skip next instruction if the key with index VX is pressed.
    SkipKeyPressed(u8),
    /// EXA1: skip next instruction if the key with index VX is not pressed.
    SkipKeyNotPressed(u8),
    /// FX07: VX = delay timer.
    ReadDelay(u8),
    /// FX0A: wait for a key press, storing the key index in VX.
    WaitKey(u8),
    /// FX15: delay timer = VX.
    SetDelay(u8),
    /// FX18: sound timer = VX.
    SetSound(u8),
    /// FX1E: I += VX, wrapping.
    AddIndex(u8),
    /// FX29: I = address of the font glyph for the digit in VX.
    FontAddr(u8),
    /// FX33: store the decimal digits of VX at memory I, I+1, I+2.
    StoreBcd(u8),
    /// FX55: store V0 through VX into memory starting at I.
    StoreRegs(u8),
    /// FX65: load V0 through VX from memory starting at I.
    LoadRegs(u8),
}

/// What `decode` returns: the nibble patterns of the instruction set, in
/// match order, `None` when none fits.
pub open spec fn spec_decode(op: u16) -> Option<Instr> {
    let d1 = (op >> 12) & 0xF;
    let d2 = (op >> 8) & 0xF;
    let d3 = (op >> 4) & 0xF;
    let d4 = op & 0xF;
    let x = d2 as u8;
    let y = d3 as u8;
    let n = d4 as u8;
    let nn = (op & 0xFF) as u8;
    let nnn = op & 0xFFF;
    if d1 == 0 && d2 == 0 && d3 == 0 && d4 == 0 {
        Some(Instr::Nop)
    } else if d1 == 0 && d2 == 0 && d3 == 0xE && d4 == 0 {
        Some(Instr::ClearScreen)
    } else if d1 == 0 && d2 == 0 && d3 == 0xE && d4 == 0xE {
        Some(Instr::Ret)
    } else if d1 == 1 {
        Some(Instr::Jump(nnn))
    } else if d1 == 2 {
        Some(Instr::Call(nnn))
    } else if d1 == 3 {
        Some(Instr::SkipEqImm(x, nn))
    } else if d1 == 4 {
        Some(Instr::SkipNeImm(x, nn))
    } else if d1 == 5 && d4 == 0 {
        Some(Instr::SkipEqReg(x, y))
    } else if d1 == 6 {
        Some(Instr::LoadImm(x, nn))
    } else if d1 == 7 {
        Some(Instr::AddImm(x, nn))
    } else if d1 == 8 && d4 == 0 {
        Some(Instr::CopyReg(x, y))
    } else if d1 == 8 && d4 == 1 {
        Some(Instr::OrReg(x, y))
    } else if d1 == 8 && d4 == 2 {
        Some(Instr::AndReg(x, y))
    } else if d1 == 8 && d4 == 3 {
        Some(Instr::XorReg(x, y))
    } else if d1 == 8 && d4 == 4 {
        Some(Instr::AddReg(x, y))
    } else if d1 == 8 && d4 == 5 {
        Some(Instr::SubReg(x, y))
    } else if d1 == 8 && d4 == 6 {
        Some(Instr::ShiftRight(x))
    } else if d1 == 8 && d4 == 7 {
        Some(Instr::SubFrom(x, y))
    } else if d1 == 8 && d4 == 0xE {
        Some(Instr::ShiftLeft(x))
    } else if d1 == 9 && d4 == 0 {
        Some(Instr::SkipNeReg(x, y))
    } else if d1 == 0xA {
        Some(Instr::SetIndex(nnn))
    } else if d1 == 0xB {
        Some(Instr::JumpV0(nnn))
    } else if d1 == 0xC {
        Some(Instr::RandomMask(x, nn))
    } else if d1 == 0xD {
        Some(Instr::Draw(x, y, n))
    } else if d1 == 0xE && d3 == 9 && d4 == 0xE {
        Some(Instr::SkipKeyPressed(x))
    } else if d1 == 0xE && d3 == 0xA && d4 == 1 {
        Some(Instr::SkipKeyNotPressed(x))
    } else if d1 == 0xF && d3 == 0 && d4 == 7 {
        Some(Instr::ReadDelay(x))
    } else if d1 == 0xF && d3 == 0 && d4 == 0xA {
        Some(Instr::WaitKey(x))
    } else if d1 == 0xF && d3 == 1 && d4 == 5 {
        Some(Instr::SetDelay(x))
    } else if d1 == 0xF && d3 == 1 && d4 == 8 {
        Some(Instr::SetSound(x))
    } else if d1 == 0xF && d3 == 1 && d4 == 0xE {
        Some(Instr::AddIndex(x))
    } else if d1 == 0xF && d3 == 2 && d4 == 9 {
        Some(Instr::FontAddr(x))
    } else if d1 == 0xF && d3 == 3 && d4 == 3 {
        Some(Instr::StoreBcd(x))
    } else if d1 == 0xF && d3 == 5 && d4 == 5 {
        Some(Instr::StoreRegs(x))
    } else if d1 == 0xF && d3 == 6 && d4 == 5 {
        Some(Instr::LoadRegs(x))
    } else {
        None
    }
}

/// Decoded operands stay in their nibble-derived ranges: register indices
/// and row counts below 16, addresses below 4096.
pub open spec fn instr_wf(ins: Instr) -> bool {
    match ins {
        Instr::Nop => true,
        Instr::ClearScreen => true,
        Instr::Ret => true,
        Instr::Jump(nnn) => nnn < 4096,
        Instr::Call(nnn) => nnn < 4096,
        Instr::SkipEqImm(x, _) => x < 16,
        Instr::SkipNeImm(x, _) => x < 16,
        Instr::SkipEqReg(x, y) => x < 16 && y < 16,
        Instr::LoadImm(x, _) => x < 16,
        Instr::AddImm(x, _) => x < 16,
        Instr::CopyReg(x, y) => x < 16 && y < 16,
        Instr::OrReg(x, y) => x < 16 && y < 16,
        Instr::AndReg(x, y) => x < 16 && y < 16,
        Instr::XorReg(x, y) => x < 16 && y < 16,
        Instr::AddReg(x, y) => x < 16 && y < 16,
        Instr::SubReg(x, y) => x < 16 && y < 16,
        Instr::ShiftRight(x) => x < 16,
        Instr::SubFrom(x, y) => x < 16 && y < 16,
        Instr::ShiftLeft(x) => x < 16,
        Instr::SkipNeReg(x, y) => x < 16 && y < 16,
        Instr::SetIndex(nnn) => nnn < 4096,
        Instr::JumpV0(nnn) => nnn < 4096,
        Instr::RandomMask(x, _) => x < 16,
        Instr::Draw(x, y, n) => x < 16 && y < 16 && n < 16,
        Instr::SkipKeyPressed(x) => x < 16,
        Instr::SkipKeyNotPressed(x) => x < 16,
        Instr::ReadDelay(x) => x < 16,
        Instr::WaitKey(x) => x < 16,
        Instr::SetDelay(x) => x < 16,
        Instr::SetSound(x) => x < 16,
        Instr::AddIndex(x) => x < 16,
        Instr::FontAddr(x) => x < 16,
        Instr::StoreBcd(x) => x < 16,
        Instr::StoreRegs(x) => x < 16,
        Instr::LoadRegs(x) => x < 16,
    }
}

/// Every successfully decoded instruction has well-formed operands.
pub proof fn lemma_decode_bounds(op: u16)
    ensures
        spec_decode(op) matches Some(ins) ==> instr_wf(ins),
{
    assert(((op >> 8) & 0xF) < 16) by (bit_vector);
    assert(((op >> 4) & 0xF) < 16) by (bit_vector);
    assert((op & 0xF) < 16) by (bit_vector);
    assert((op & 0xFFF) < 4096) by (bit_vector);
}

/// Splits the instruction into its four nibbles and matches them against the
/// instruction patterns.
pub fn decode(op: u16) -> (r: Option<Instr>)
    ensures
        r == spec_decode(op),
{
    let d1 = (op >> 12) & 0xF;
    let d2 = (op >> 8) & 0xF;
    let d3 = (op >> 4) & 0xF;
    let d4 = op & 0xF;
    let x = d2 as u8;
    let y = d3 as u8;
    let n = d4 as u8;
    let nn = (op & 0xFF) as u8;
    let nnn = op & 0xFFF;
    match (d1, d2, d3, d4) {
        (0, 0, 0, 0) => Some(Instr::Nop),
        (0, 0, 0xE, 0) => Some(Instr::ClearScreen),
        (0, 0, 0xE, 0xE) => Some(Instr::Ret),
        (1, _, _, _) => Some(Instr::Jump(nnn)),
        (2, _, _, _) => Some(Instr::Call(nnn)),
        (3, _, _, _) => Some(Instr::SkipEqImm(x, nn)),
        (4, _, _, _) => Some(Instr::SkipNeImm(x, nn)),
        (5, _, _, 0) => Some(Instr::SkipEqReg(x, y)),
        (6, _, _, _) => Some(Instr::LoadImm(x, nn)),
        (7, _, _, _) => Some(Instr::AddImm(x, nn)),
        (8, _, _, 0) => Some(Instr::CopyReg(x, y)),
        (8, _, _, 1) => Some(Instr::OrReg(x, y)),
        (8, _, _, 2) => Some(Instr::AndReg(x, y)),
        (8, _, _, 3) => Some(Instr::XorReg(x, y)),
        (8, _, _, 4) => Some(Instr::AddReg(x, y)),
        (8, _, _, 5) => Some(Instr::SubReg(x, y)),
        (8, _, _, 6) => Some(Instr::ShiftRight(x)),
        (8, _, _, 7) => Some(Instr::SubFrom(x, y)),
        (8, _, _, 0xE) => Some(Instr::ShiftLeft(x)),
        (9, _, _, 0) => Some(Instr::SkipNeReg(x, y)),
        (0xA, _, _, _) => Some(Instr::SetIndex(nnn)),
        (0xB, _, _, _) => Some(Instr::JumpV0(nnn)),
        (0xC, _, _, _) => Some(Instr::RandomMask(x, nn)),
        (0xD, _, _, _) => Some(Instr::Draw(x, y, n)),
        (0xE, _, 9, 0xE) => Some(Instr::SkipKeyPressed(x)),
        (0xE, _, 0xA, 1) => Some(Instr::SkipKeyNotPressed(x)),
        (0xF, _, 0, 7) => Some(Instr::ReadDelay(x)),
        (0xF, _, 0, 0xA) => Some(Instr::WaitKey(x)),
        (0xF, _, 1, 5) => Some(Instr::SetDelay(x)),
        (0xF, _, 1, 8) => Some(Instr::SetSound(x)),
        (0xF, _, 1, 0xE) => Some(Instr::AddIndex(x)),
        (0xF, _, 2, 9) => Some(Instr::FontAddr(x)),
        (0xF, _, 3, 3) => Some(Instr::StoreBcd(x)),
        (0xF, _, 5, 5) => Some(Instr::StoreRegs(x)),
        (0xF, _, 6, 5) => Some(Instr::LoadRegs(x)),
        (_, _, _, _) => None,
    }
}

} // verus!
