//! Instruction decoding: from a raw 16-bit instruction word to one of the
//! defined instruction shapes, totally — every word maps to a shape or to the
//! explicit unknown outcome.

use vstd::prelude::*;

verus! {

/// The leading nibble, selecting the instruction family.
pub open spec fn op_hi(op: u16) -> u16 {
    op >> 12
}

/// The second nibble: the register index X.
pub open spec fn op_x(op: u16) -> u16 {
    (op >> 8) & 0xF
}

/// The third nibble: the register index Y.
pub open spec fn op_y(op: u16) -> u16 {
    (op >> 4) & 0xF
}

/// The trailing nibble: the sprite height N.
pub open spec fn op_n(op: u16) -> u16 {
    op & 0xF
}

/// The low byte: the immediate NN.
pub open spec fn op_nn(op: u16) -> u8 {
    (op & 0xFF) as u8
}

/// The low 12 bits: the address or immediate NNN.
pub open spec fn op_nnn(op: u16) -> u16 {
    op & 0xFFF
}

/// The extracted fields are nibble- and 12-bit-sized, so register indices
/// stay below 16 and addresses below 4096.
pub proof fn lemma_op_fields(op: u16)
    ensures
        op_hi(op) < 16,
        op_x(op) < 16,
        op_y(op) < 16,
        op_n(op) < 16,
        op_nnn(op) < 4096,
{
    assert(op >> 12 < 16) by (bit_vector);
    assert((op >> 8) & 0xF < 16) by (bit_vector);
    assert((op >> 4) & 0xF < 16) by (bit_vector);
    assert(op & 0xF < 16) by (bit_vector);
    assert(op & 0xFFF < 4096) by (bit_vector);
}

/// One decoded instruction: the shape together with the operand fields that
/// shape carries.
#[derive(Debug, Clone, Copy, PartialEq, Eq)]
pub enum Instruction {
    /// 00E0: clear the display.
    ClearScreen,
    /// 00EE: return from a subroutine.
    Return,
    /// 1NNN: jump to NNN.
    Jump(u16),
    /// 2NNN: call the subroutine at NNN.
    Call(u16),
    /// 3XNN: skip the next instruction if VX == NN.
    SkipEqImm(u8, u8),
    /// 4XNN: skip the next instruction if VX != NN.
    SkipNeImm(u8, u8),
    /// 5XY0: skip the next instruction if VX == VY.
    SkipEqReg(u8, u8),
    /// 6XNN: VX := NN.
    LoadImm(u8, u8),
    /// 7XNN: VX := VX + NN, wrapping.
    AddImm(u8, u8),
    /// 8XY0: VX := VY.
    MoveReg(u8, u8),
    /// 8XY1: VX := VX | VY.
    OrReg(u8, u8),
    /// 8XY2: VX := VX & VY.
    AndReg(u8, u8),
    /// 8XY3: VX := VX ^ VY.
    XorReg(u8, u8),
    /// 8XY4: VX := VX + VY, VF records the carry.
    AddReg(u8, u8),
    /// 8XY5: VX := VX - VY, VF records the absent borrow.
    SubReg(u8, u8),
    /// 8XY6: VF := low bit of VX, VX := VX >> 1.
    ShiftRight(u8),
    /// 8XY7: VX := VY - VX, VF records the absent borrow.
    SubFrom(u8, u8),
    /// 8XYE: VF := high bit of VX, VX := VX << 1.
    ShiftLeft(u8),
    /// 9XY0: skip the next instruction if VX != VY.
    SkipNeReg(u8, u8),
    /// ANNN: I := NNN.
    LoadIndex(u16),
    /// BNNN: jump to NNN + V0.
    JumpPlusV0(u16),
    /// CXNN: VX := pseudo-random byte & NN.
    Random(u8, u8),
    /// DXYN: draw the N-byte sprite at memory[I..] at position (VX, VY).
    Draw(u8, u8, u8),
    /// EX9E: skip the next instruction if key VX is pressed.
    SkipKeyPressed(u8),
    /// EXA1: skip the next instruction if key VX is not pressed.
    SkipKeyNotPressed(u8),
    /// FX07: VX := delay timer.
    LoadDelay(u8),
    /// FX0A: block until a key is pressed, then VX := that key.
    WaitKey(u8),
    /// FX15: delay timer := VX.
    SetDelay(u8),
    /// FX18: sound timer := VX.
    SetSound(u8),
    /// FX1E: I := (I + VX) masked to 12 bits.
    AddIndex(u8),
    /// FX29: I := address of the font sprite for digit VX.
    LoadFontAddr(u8),
    /// FX33: write the BCD digits of VX at memory[I..I+2].
    StoreBcd(u8),
    /// FX55: copy V0..=VX into memory at I.
    StoreRegisters(u8),
    /// FX65: copy memory at I into V0..=VX.
    LoadRegisters(u8),
    /// No defined shape matches the word.
    Unknown(u16),
}

/// Total decoding of an instruction word: the nibble pattern selects the
/// shape, and the shape's operand fields are extracted from the word.
pub open spec fn spec_decode(op: u16) -> Instruction {
    let x = op_x(op) as u8;
    let y = op_y(op) as u8;
    let n = op_n(op) as u8;
    let nn = op_nn(op);
    let nnn = op_nnn(op);
    if op == 0x00E0 {
        Instruction::ClearScreen
    } else if op == 0x00EE {
        Instruction::Return
    } else if op_hi(op) == 0x1 {
        Instruction::Jump(nnn)
    } else if op_hi(op) == 0x2 {
        Instruction::Call(nnn)
    } else if op_hi(op) == 0x3 {
        Instruction::SkipEqImm(x, nn)
    } else if op_hi(op) == 0x4 {
        Instruction::SkipNeImm(x, nn)
    } else if op_hi(op) == 0x5 && op_n(op) == 0x0 {
        Instruction::SkipEqReg(x, y)
    } else if op_hi(op) == 0x6 {
        Instruction::LoadImm(x, nn)
    } else if op_hi(op) == 0x7 {
        Instruction::AddImm(x, nn)
    } else if op_hi(op) == 0x8 && op_n(op) == 0x0 {
        Instruction::MoveReg(x, y)
    } else if op_hi(op) == 0x8 && op_n(op) == 0x1 {
        Instruction::OrReg(x, y)
    } else if op_hi(op) == 0x8 && op_n(op) == 0x2 {
        Instruction::AndReg(x, y)
    } else if op_hi(op) == 0x8 && op_n(op) == 0x3 {
        Instruction::XorReg(x, y)
    } else if op_hi(op) == 0x8 && op_n(op) == 0x4 {
        Instruction::AddReg(x, y)
    } else if op_hi(op) == 0x8 && op_n(op) == 0x5 {
        Instruction::SubReg(x, y)
    } else if op_hi(op) == 0x8 && op_n(op) == 0x6 {
        Instruction::ShiftRight(x)
    } else if op_hi(op) == 0x8 && op_n(op) == 0x7 {
        Instruction::SubFrom(x, y)
    } else if op_hi(op) == 0x8 && op_n(op) == 0xE {
        Instruction::ShiftLeft(x)
    } else if op_hi(op) == 0x9 && op_n(op) == 0x0 {
        Instruction::SkipNeReg(x, y)
    } else if op_hi(op) == 0xA {
        Instruction::LoadIndex(nnn)
    } else if op_hi(op) == 0xB {
        Instruction::JumpPlusV0(nnn)
    } else if op_hi(op) == 0xC {
        Instruction::Random(x, nn)
    } else if op_hi(op) == 0xD {
        Instruction::Draw(x, y, n)
    } else if op_hi(op) == 0xE && op_nn(op) == 0x9E {
        Instruction::SkipKeyPressed(x)
    } else if op_hi(op) == 0xE && op_nn(op) == 0xA1 {
        Instruction::SkipKeyNotPressed(x)
    } else if op_hi(op) == 0xF && op_nn(op) == 0x07 {
        Instruction::LoadDelay(x)
    } else if op_hi(op) == 0xF && op_nn(op) == 0x0A {
        Instruction::WaitKey(x)
    } else if op_hi(op) == 0xF && op_nn(op) == 0x15 {
        Instruction::SetDelay(x)
    } else if op_hi(op) == 0xF && op_nn(op) == 0x18 {
        Instruction::SetSound(x)
    } else if op_hi(op) == 0xF && op_nn(op) == 0x1E {
        Instruction::AddIndex(x)
    } else if op_hi(op) == 0xF && op_nn(op) == 0x29 {
        Instruction::LoadFontAddr(x)
    } else if op_hi(op) == 0xF && op_nn(op) == 0x33 {
        Instruction::StoreBcd(x)
    } else if op_hi(op) == 0xF && op_nn(op) == 0x55 {
        Instruction::StoreRegisters(x)
    } else if op_hi(op) == 0xF && op_nn(op) == 0x65 {
        Instruction::LoadRegisters(x)
    } else {
        Instruction::Unknown(op)
    }
}

/// Decode one instruction word into its shape and operand fields.
pub fn decode(op: u16) -> (r: Instruction)
    ensures
        r == spec_decode(op),
{
    proof {
        lemma_op_fields(op);
    }
    let hi = op >> 12;
    let x = ((op >> 8) & 0xF) as u8;
    let y = ((op >> 4) & 0xF) as u8;
    let n = (op & 0xF) as u8;
    let nn = (op & 0xFF) as u8;
    let nnn = op & 0xFFF;
    if op == 0x00E0 {
        Instruction::ClearScreen
    } else if op == 0x00EE {
        Instruction::Return
    } else if hi == 0x1 {
        Instruction::Jump(nnn)
    } else if hi == 0x2 {
        Instruction::Call(nnn)
    } else if hi == 0x3 {
        Instruction::SkipEqImm(x, nn)
    } else if hi == 0x4 {
        Instruction::SkipNeImm(x, nn)
    } else if hi == 0x5 && n == 0x0 {
        Instruction::SkipEqReg(x, y)
    } else if hi == 0x6 {
        Instruction::LoadImm(x, nn)
    } else if hi == 0x7 {
        Instruction::AddImm(x, nn)
    } else if hi == 0x8 && n == 0x0 {
        Instruction::MoveReg(x, y)
    } else if hi == 0x8 && n == 0x1 {
        Instruction::OrReg(x, y)
    } else if hi == 0x8 && n == 0x2 {
        Instruction::AndReg(x, y)
    } else if hi == 0x8 && n == 0x3 {
        Instruction::XorReg(x, y)
    } else if hi == 0x8 && n == 0x4 {
        Instruction::AddReg(x, y)
    } else if hi == 0x8 && n == 0x5 {
        Instruction::SubReg(x, y)
    } else if hi == 0x8 && n == 0x6 {
        Instruction::ShiftRight(x)
    } else if hi == 0x8 && n == 0x7 {
        Instruction::SubFrom(x, y)
    } else if hi == 0x8 && n == 0xE {
        Instruction::ShiftLeft(x)
    } else if hi == 0x9 && n == 0x0 {
        Instruction::SkipNeReg(x, y)
    } else if hi == 0xA {
        Instruction::LoadIndex(nnn)
    } else if hi == 0xB {
        Instruction::JumpPlusV0(nnn)
    } else if hi == 0xC {
        Instruction::Random(x, nn)
    } else if hi == 0xD {
        Instruction::Draw(x, y, n)
    } else if hi == 0xE && nn == 0x9E {
        Instruction::SkipKeyPressed(x)
    } else if hi == 0xE && nn == 0xA1 {
        Instruction::SkipKeyNotPressed(x)
    } else if hi == 0xF && nn == 0x07 {
        Instruction::LoadDelay(x)
    } else if hi == 0xF && nn == 0x0A {
        Instruction::WaitKey(x)
    } else if hi == 0xF && nn == 0x15 {
        Instruction::SetDelay(x)
    } else if hi == 0xF && nn == 0x18 {
        Instruction::SetSound(x)
    } else if hi == 0xF && nn == 0x1E {
        Instruction::AddIndex(x)
    } else if hi == 0xF && nn == 0x29 {
        Instruction::LoadFontAddr(x)
    } else if hi == 0xF && nn == 0x33 {
        Instruction::StoreBcd(x)
    } else if hi == 0xF && nn == 0x55 {
        Instruction::StoreRegisters(x)
    } else if hi == 0xF && nn == 0x65 {
        Instruction::LoadRegisters(x)
    } else {
        Instruction::Unknown(op)
    }
}

} // verus!
