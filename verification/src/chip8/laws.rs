//! Laws of the interpreter that relate several operations or hold across all
//! states, each proved from the contracts the handlers and `step` carry.

use vstd::prelude::*;

use crate::chip8::{first_key, spec_fetch, spec_step, Chip8Error, Chip8Model};
use crate::chip8::decode::{lemma_op_fields, op_hi, op_n, op_nnn, op_x, op_y, spec_decode, Instruction};
use crate::chip8::opcodes::{
    draw_collision, draw_covered, lemma_mod_offset, pix_col, pix_row, spec_add_reg, spec_draw,
    spec_load_regs, spec_pix, spec_store_regs, spec_sub_reg, sprite_bit,
};

verus! {

/// Whether this instruction neither jumps, calls, returns, skips, waits,
/// nor is unknown: executing it advances the program counter by exactly 2.
pub open spec fn is_plain(inst: Instruction) -> bool {
    match inst {
        Instruction::ClearScreen => true,
        Instruction::LoadImm(_, _) => true,
        Instruction::AddImm(_, _) => true,
        Instruction::MoveReg(_, _) => true,
        Instruction::OrReg(_, _) => true,
        Instruction::AndReg(_, _) => true,
        Instruction::XorReg(_, _) => true,
        Instruction::AddReg(_, _) => true,
        Instruction::SubReg(_, _) => true,
        Instruction::ShiftRight(_) => true,
        Instruction::SubFrom(_, _) => true,
        Instruction::ShiftLeft(_) => true,
        Instruction::LoadIndex(_) => true,
        Instruction::Random(_, _) => true,
        Instruction::Draw(_, _, _) => true,
        Instruction::LoadDelay(_) => true,
        Instruction::SetDelay(_) => true,
        Instruction::SetSound(_) => true,
        Instruction::AddIndex(_) => true,
        Instruction::LoadFontAddr(_) => true,
        Instruction::StoreBcd(_) => true,
        Instruction::StoreRegisters(_) => true,
        Instruction::LoadRegisters(_) => true,
        _ => false,
    }
}

/// Whether this instruction is one of the six conditional skips.
pub open spec fn is_skip(inst: Instruction) -> bool {
    match inst {
        Instruction::SkipEqImm(_, _) => true,
        Instruction::SkipNeImm(_, _) => true,
        Instruction::SkipEqReg(_, _) => true,
        Instruction::SkipNeReg(_, _) => true,
        Instruction::SkipKeyPressed(_) => true,
        Instruction::SkipKeyNotPressed(_) => true,
        _ => false,
    }
}

/// Whether a skip instruction's condition holds in state `s`, so that the
/// skip is taken.
pub open spec fn skip_taken(s: Chip8Model, inst: Instruction) -> bool {
    match inst {
        Instruction::SkipEqImm(x, nn) => s.regs[x as int] == nn,
        Instruction::SkipNeImm(x, nn) => s.regs[x as int] != nn,
        Instruction::SkipEqReg(x, y) => s.regs[x as int] == s.regs[y as int],
        Instruction::SkipNeReg(x, y) => s.regs[x as int] != s.regs[y as int],
        Instruction::SkipKeyPressed(x) => s.keys[(s.regs[x as int] & 0xF) as int],
        Instruction::SkipKeyNotPressed(x) => !s.keys[(s.regs[x as int] & 0xF) as int],
        _ => false,
    }
}

/// Every instruction that does not branch advances the program counter by
/// exactly 2; every taken skip advances it by exactly 4, and every untaken
/// skip by 2.
pub proof fn lemma_pc_advance(s: Chip8Model)
    requires
        s.wf(),
        !s.waiting,
        s.pc < 4095,
    ensures
        is_plain(spec_decode(spec_fetch(s))) ==> spec_step(s).0.pc == s.pc + 2,
        is_skip(spec_decode(spec_fetch(s))) && skip_taken(s, spec_decode(spec_fetch(s)))
            ==> spec_step(s).0.pc == s.pc + 4,
        is_skip(spec_decode(spec_fetch(s))) && !skip_taken(s, spec_decode(spec_fetch(s)))
            ==> spec_step(s).0.pc == s.pc + 2,
{
    lemma_op_fields(spec_fetch(s));
}

/// 8XY4: VF is 1 exactly when the unsigned 8-bit sum of VX and VY exceeds
/// 255, and (when the destination is not VF itself) VX holds that sum
/// modulo 256.
pub proof fn lemma_add_carry(s: Chip8Model, op: u16)
    requires
        s.wf(),
    ensures
        spec_add_reg(s, op).regs[15] == 1 <==> s.regs[op_x(op) as int] + s.regs[op_y(op) as int]
            > 255,
        op_x(op) != 15 ==> spec_add_reg(s, op).regs[op_x(op) as int] == (s.regs[op_x(op) as int]
            + s.regs[op_y(op) as int]) % 256,
{
    lemma_op_fields(op);
}

/// 8XY5: VF is 1 exactly when VX was at least VY before the subtraction,
/// and (when the destination is not VF itself) VX holds VX - VY modulo 256.
pub proof fn lemma_sub_borrow(s: Chip8Model, op: u16)
    requires
        s.wf(),
    ensures
        spec_sub_reg(s, op).regs[15] == 1 <==> s.regs[op_x(op) as int] >= s.regs[op_y(op) as int],
        op_x(op) != 15 ==> spec_sub_reg(s, op).regs[op_x(op) as int] == (s.regs[op_x(op) as int]
            - s.regs[op_y(op) as int]) % 256,
{
    lemma_op_fields(op);
    let x = op_x(op) as int;
    let y = op_y(op) as int;
    vstd::arithmetic::div_mod::lemma_mod_multiples_vanish(1, s.regs[x] - s.regs[y], 256);
}

/// A call and its matching return round-trip: after executing 2NNN and then
/// the 00EE it jumps to, the program counter sits at the instruction just
/// after the call, the stack pointer is restored, and registers, memory and
/// display are untouched.
pub proof fn lemma_call_ret_round_trip(s: Chip8Model)
    requires
        s.wf(),
        !s.waiting,
        s.pc < 4095,
        op_hi(spec_fetch(s)) == 2,
        s.sp < 16,
        op_nnn(spec_fetch(s)) < 4095,
        s.mem[op_nnn(spec_fetch(s)) as int] == 0x00,
        s.mem[op_nnn(spec_fetch(s)) as int + 1] == 0xEE,
    ensures
        spec_step(s).1 == Ok::<(), Chip8Error>(()),
        spec_step(spec_step(s).0).1 == Ok::<(), Chip8Error>(()),
        spec_step(spec_step(s).0).0.pc == s.pc + 2,
        spec_step(spec_step(s).0).0.sp == s.sp,
        spec_step(spec_step(s).0).0.regs == s.regs,
        spec_step(spec_step(s).0).0.mem == s.mem,
        spec_step(spec_step(s).0).0.video == s.video,
        forall|i: int| 0 <= i < s.sp ==> spec_step(spec_step(s).0).0.stack[i] == s.stack[i],
{
    let op1 = spec_fetch(s);
    lemma_op_fields(op1);
    assert(0x00E0u16 >> 12 == 0) by (bit_vector);
    assert(0x00EEu16 >> 12 == 0) by (bit_vector);
    let s1 = spec_step(s).0;
    assert(s1.pc == op_nnn(op1));
    let op2 = spec_fetch(s1);
    assert(op2 == ((0x00u16 as u16) << 8) | (0xEEu16 as u16));
    assert(((0x00u16) << 8) | (0xEEu16) == 0x00EEu16) by (bit_vector);
}

/// FX55 then FX65 with the same X and index round-trips: every register
/// V0..=VX written to memory is read back unchanged.
pub proof fn lemma_store_load_round_trip(s: Chip8Model, op: u16, k: int)
    requires
        s.wf(),
        0 <= k <= op_x(op),
    ensures
        spec_load_regs(spec_store_regs(s, op), op).regs[k] == s.regs[k],
{
    lemma_op_fields(op);
    let i = s.index as int;
    vstd::arithmetic::div_mod::lemma_mod_bound(i + k, 4096);
    lemma_mod_offset(i, k, 4096);
}

/// Drawing any sprite twice at the same position restores the display to
/// what it was: the second draw undoes the first, pixel by pixel. The
/// coordinate registers must not be VF, which the first draw overwrites.
pub proof fn lemma_draw_twice_restores(s: Chip8Model, op: u16)
    requires
        s.wf(),
        op_x(op) != 15,
        op_y(op) != 15,
    ensures
        spec_draw(spec_draw(s, op), op).video == s.video,
{
    lemma_op_fields(op);
    let s1 = spec_draw(s, op);
    assert forall|p: int| 0 <= p < 2048 implies draw_covered(s1, op, p) == draw_covered(
        s,
        op,
        p,
    ) by {
        assert(s1.regs[op_x(op) as int] == s.regs[op_x(op) as int]);
        assert(s1.regs[op_y(op) as int] == s.regs[op_y(op) as int]);
    }
    assert(spec_draw(s1, op).video =~= s.video);
}

/// When every set bit of the sprite lands on a dark pixel and the sprite
/// has at least one set bit, the first draw reports no collision and a
/// second identical draw — which turns those pixels off again — reports one
/// in VF.
pub proof fn lemma_draw_twice_collides(s: Chip8Model, op: u16)
    requires
        s.wf(),
        op_x(op) != 15,
        op_y(op) != 15,
        forall|r: int, c: int|
            0 <= r < op_n(op) && 0 <= c < 8 && #[trigger] sprite_bit(
                s.mem[(s.index + r) % 4096],
                c,
            ) ==> !s.video[spec_pix(
                s.regs[op_x(op) as int] + c,
                s.regs[op_y(op) as int] + r,
            )],
        exists|r: int, c: int|
            0 <= r < op_n(op) && 0 <= c < 8 && #[trigger] sprite_bit(
                s.mem[(s.index + r) % 4096],
                c,
            ),
    ensures
        spec_draw(s, op).regs[15] == 0,
        spec_draw(spec_draw(s, op), op).regs[15] == 1,
{
    lemma_op_fields(op);
    let x0 = s.regs[op_x(op) as int] as int;
    let y0 = s.regs[op_y(op) as int] as int;
    let s1 = spec_draw(s, op);
    assert(!draw_collision(s, op));
    assert(s1.regs[15] == 0);
    let (r0, c0) = choose|r: int, c: int|
        0 <= r < op_n(op) && 0 <= c < 8 && #[trigger] sprite_bit(s.mem[(s.index + r) % 4096], c);
    let p = spec_pix(x0 + c0, y0 + r0);
    let py = (y0 + r0) % 32;
    let px = (x0 + c0) % 64;
    vstd::arithmetic::div_mod::lemma_mod_bound(y0 + r0, 32);
    vstd::arithmetic::div_mod::lemma_mod_bound(x0 + c0, 64);
    assert(p == py * 64 + px);
    vstd::arithmetic::div_mod::lemma_fundamental_div_mod_converse_div(p, 64, py, px);
    vstd::arithmetic::div_mod::lemma_fundamental_div_mod_converse_mod(p, 64, py, px);
    lemma_mod_offset(y0, r0, 32);
    lemma_mod_offset(x0, c0, 64);
    assert(pix_row(p, y0) == r0);
    assert(pix_col(p, x0) == c0);
    assert(0 <= p < 2048);
    assert(draw_covered(s, op, p));
    assert(s1.video[p] == !s.video[p]);
    assert(!s.video[p]);
    assert(s1.regs[op_x(op) as int] == s.regs[op_x(op) as int]);
    assert(s1.regs[op_y(op) as int] == s.regs[op_y(op) as int]);
    assert(sprite_bit(s1.mem[(s1.index + r0) % 4096], c0));
    assert(s1.video[spec_pix(s1.regs[op_x(op) as int] + c0, s1.regs[op_y(op) as int] + r0)]);
    assert(draw_collision(s1, op));
}

/// While the engine is blocked waiting for a key with none pressed, a step
/// changes nothing at all.
pub proof fn lemma_wait_holds(s: Chip8Model)
    requires
        s.wf(),
        s.waiting,
        first_key(s.keys, 0) == 16,
    ensures
        spec_step(s).0 == s,
        spec_step(s).1 == Ok::<(), Chip8Error>(()),
{
}

} // verus!
