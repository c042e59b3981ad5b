//! The opcode handlers: one executable method per instruction shape, each
//! proved equal to a specification-level transition on the abstract model.
//!
//! Every handler reads its operand fields from the instruction word held in
//! `opcode`, mutates the state, and advances the program counter as the
//! instruction demands: by 2 for plain instructions, by 4 on a taken skip,
//! and not at all for jumps and calls, which set it directly. Flag-writing
//! arithmetic computes result and flag from the pre-instruction register
//! values, writes the destination register, then writes VF, so VF holds the
//! flag even when it is also the destination.
#![allow(non_snake_case)]

use vstd::prelude::*;

use crate::chip8::{Chip8, Chip8Error, Chip8Model};
use crate::chip8::decode::{lemma_op_fields, op_n, op_nn, op_nnn, op_x, op_y};

verus! {

/// A 12-bit mask keeps a value inside memory bounds and acts as the
/// remainder modulo 4096.
pub proof fn lemma_mask12(v: u16)
    ensures
        v & 0xFFF < 4096,
        v & 0xFFF == v as int % 4096,
{
    assert(v & 0xFFF < 4096) by (bit_vector);
    assert(v & 0xFFF == v % 4096) by (bit_vector);
}

/// The low nibble of a byte is below 16.
pub proof fn lemma_low_nibble(v: u8)
    ensures
        v & 0xF < 16,
{
    assert(v & 0xF < 16) by (bit_vector);
}

/// Stepping an address by an offset below the modulus and reducing leaves
/// exactly that offset from the start.
pub proof fn lemma_mod_offset(a: int, b: int, m: int)
    requires
        0 < m,
        0 <= b < m,
    ensures
        ((a + b) % m - a) % m == b,
{
    vstd::arithmetic::div_mod::lemma_sub_mod_noop_right((a + b) % m, a, m);
    vstd::arithmetic::div_mod::lemma_sub_mod_noop(a + b, a, m);
    vstd::arithmetic::div_mod::lemma_small_mod(b as nat, m as nat);
}

/// Within one window of the modulus, an address is determined by its offset
/// from the start.
pub proof fn lemma_mod_offset_unique(a: int, b: int, v: int, m: int)
    requires
        0 < m,
        0 <= b < m,
        0 <= v < m,
        (v - a) % m == b,
    ensures
        v == (a + b) % m,
{
    let w = (a + b) % m;
    lemma_mod_offset(a, b, m);
    vstd::arithmetic::div_mod::lemma_mod_bound(a + b, m);
    vstd::arithmetic::div_mod::lemma_sub_mod_noop(v - a, w - a, m);
    vstd::arithmetic::div_mod::lemma_small_mod(0nat, m as nat);
    if v >= w {
        vstd::arithmetic::div_mod::lemma_small_mod((v - w) as nat, m as nat);
    } else {
        vstd::arithmetic::div_mod::lemma_mod_multiples_vanish(1, v - w, m);
        vstd::arithmetic::div_mod::lemma_small_mod((m + v - w) as nat, m as nat);
    }
}

/// The state with the program counter stepped past the current instruction:
/// by 4 when a skip was taken, by 2 otherwise.
pub open spec fn spec_skip(s: Chip8Model, taken: bool) -> Chip8Model {
    Chip8Model { pc: if taken { (s.pc + 4) as u16 } else { (s.pc + 2) as u16 }, ..s }
}

/// 00E0: every pixel off.
pub open spec fn spec_cls(s: Chip8Model) -> Chip8Model {
    Chip8Model { video: Seq::new(2048, |i: int| false), pc: (s.pc + 2) as u16, ..s }
}

/// 00EE: the program counter from the top of the stack, the slot freed.
pub open spec fn spec_ret(s: Chip8Model) -> Chip8Model {
    Chip8Model { pc: s.stack[s.sp - 1], sp: (s.sp - 1) as u8, ..s }
}

/// 1NNN: the program counter set to NNN.
pub open spec fn spec_jump(s: Chip8Model, op: u16) -> Chip8Model {
    Chip8Model { pc: op_nnn(op), ..s }
}

/// 2NNN: the address of the following instruction pushed, the program
/// counter set to NNN.
pub open spec fn spec_call(s: Chip8Model, op: u16) -> Chip8Model {
    Chip8Model {
        stack: s.stack.update(s.sp as int, (s.pc + 2) as u16),
        sp: (s.sp + 1) as u8,
        pc: op_nnn(op),
        ..s
    }
}

/// 3XNN: skip when VX equals NN.
pub open spec fn spec_skip_eq_imm(s: Chip8Model, op: u16) -> Chip8Model {
    spec_skip(s, s.regs[op_x(op) as int] == op_nn(op))
}

/// 4XNN: skip when VX differs from NN.
pub open spec fn spec_skip_ne_imm(s: Chip8Model, op: u16) -> Chip8Model {
    spec_skip(s, s.regs[op_x(op) as int] != op_nn(op))
}

/// 5XY0: skip when VX equals VY.
pub open spec fn spec_skip_eq_reg(s: Chip8Model, op: u16) -> Chip8Model {
    spec_skip(s, s.regs[op_x(op) as int] == s.regs[op_y(op) as int])
}

/// 6XNN: VX set to NN.
pub open spec fn spec_load_imm(s: Chip8Model, op: u16) -> Chip8Model {
    Chip8Model { regs: s.regs.update(op_x(op) as int, op_nn(op)), pc: (s.pc + 2) as u16, ..s }
}

/// 7XNN: VX set to VX + NN modulo 256; no flag is touched.
pub open spec fn spec_add_imm(s: Chip8Model, op: u16) -> Chip8Model {
    let x = op_x(op) as int;
    Chip8Model {
        regs: s.regs.update(x, ((s.regs[x] + op_nn(op)) % 256) as u8),
        pc: (s.pc + 2) as u16,
        ..s
    }
}

/// 8XY0: VX set to VY.
pub open spec fn spec_move_reg(s: Chip8Model, op: u16) -> Chip8Model {
    Chip8Model {
        regs: s.regs.update(op_x(op) as int, s.regs[op_y(op) as int]),
        pc: (s.pc + 2) as u16,
        ..s
    }
}

/// 8XY1: VX set to VX | VY.
pub open spec fn spec_or_reg(s: Chip8Model, op: u16) -> Chip8Model {
    let x = op_x(op) as int;
    Chip8Model {
        regs: s.regs.update(x, s.regs[x] | s.regs[op_y(op) as int]),
        pc: (s.pc + 2) as u16,
        ..s
    }
}

/// 8XY2: VX set to VX & VY.
pub open spec fn spec_and_reg(s: Chip8Model, op: u16) -> Chip8Model {
    let x = op_x(op) as int;
    Chip8Model {
        regs: s.regs.update(x, s.regs[x] & s.regs[op_y(op) as int]),
        pc: (s.pc + 2) as u16,
        ..s
    }
}

/// 8XY3: VX set to VX ^ VY.
pub open spec fn spec_xor_reg(s: Chip8Model, op: u16) -> Chip8Model {
    let x = op_x(op) as int;
    Chip8Model {
        regs: s.regs.update(x, s.regs[x] ^ s.regs[op_y(op) as int]),
        pc: (s.pc + 2) as u16,
        ..s
    }
}

/// 8XY4: VX set to the 8-bit sum of VX and VY; VF set to 1 exactly when the
/// unsigned sum exceeds 255. The flag write comes last.
pub open spec fn spec_add_reg(s: Chip8Model, op: u16) -> Chip8Model {
    let x = op_x(op) as int;
    let y = op_y(op) as int;
    let sum = s.regs[x] + s.regs[y];
    Chip8Model {
        regs: s.regs.update(x, (sum % 256) as u8).update(15, if sum > 255 { 1u8 } else { 0u8 }),
        pc: (s.pc + 2) as u16,
        ..s
    }
}

/// 8XY5: VX set to VX - VY modulo 256; VF set to 1 exactly when VX was at
/// least VY (no borrow). The flag write comes last.
pub open spec fn spec_sub_reg(s: Chip8Model, op: u16) -> Chip8Model {
    let x = op_x(op) as int;
    let y = op_y(op) as int;
    Chip8Model {
        regs: s.regs.update(x, ((s.regs[x] + 256 - s.regs[y]) % 256) as u8).update(
            15,
            if s.regs[x] >= s.regs[y] { 1u8 } else { 0u8 },
        ),
        pc: (s.pc + 2) as u16,
        ..s
    }
}

/// 8XY6: VF set to the low bit of VX, VX shifted right once. The flag write
/// comes last.
pub open spec fn spec_shr(s: Chip8Model, op: u16) -> Chip8Model {
    let x = op_x(op) as int;
    Chip8Model {
        regs: s.regs.update(x, s.regs[x] >> 1).update(15, s.regs[x] & 1),
        pc: (s.pc + 2) as u16,
        ..s
    }
}

/// 8XY7: VX set to VY - VX modulo 256; VF set to 1 exactly when VY was at
/// least VX. The flag write comes last.
pub open spec fn spec_sub_from(s: Chip8Model, op: u16) -> Chip8Model {
    let x = op_x(op) as int;
    let y = op_y(op) as int;
    Chip8Model {
        regs: s.regs.update(x, ((s.regs[y] + 256 - s.regs[x]) % 256) as u8).update(
            15,
            if s.regs[y] >= s.regs[x] { 1u8 } else { 0u8 },
        ),
        pc: (s.pc + 2) as u16,
        ..s
    }
}

/// 8XYE: VF set to the high bit of VX, VX shifted left once, wrapping. The
/// flag write comes last.
pub open spec fn spec_shl(s: Chip8Model, op: u16) -> Chip8Model {
    let x = op_x(op) as int;
    Chip8Model {
        regs: s.regs.update(x, s.regs[x] << 1).update(15, s.regs[x] >> 7),
        pc: (s.pc + 2) as u16,
        ..s
    }
}

/// 9XY0: skip when VX differs from VY.
pub open spec fn spec_skip_ne_reg(s: Chip8Model, op: u16) -> Chip8Model {
    spec_skip(s, s.regs[op_x(op) as int] != s.regs[op_y(op) as int])
}

/// ANNN: the index register set to NNN.
pub open spec fn spec_load_index(s: Chip8Model, op: u16) -> Chip8Model {
    Chip8Model { index: op_nnn(op), pc: (s.pc + 2) as u16, ..s }
}

/// BNNN: the program counter set to NNN + V0.
pub open spec fn spec_jump_v0(s: Chip8Model, op: u16) -> Chip8Model {
    Chip8Model { pc: (op_nnn(op) + s.regs[0]) as u16, ..s }
}

/// The pseudo-random generator's successor state: a 16-bit xorshift.
pub open spec fn next_rng(r: u16) -> u16 {
    let a = r ^ (r << 7);
    let b = a ^ (a >> 9);
    b ^ (b << 8)
}

/// CXNN: the generator stepped once; VX set to its high byte masked by NN.
pub open spec fn spec_random(s: Chip8Model, op: u16) -> Chip8Model {
    let stepped = next_rng(s.rng);
    Chip8Model {
        regs: s.regs.update(op_x(op) as int, ((stepped >> 8) as u8) & op_nn(op)),
        rng: stepped,
        pc: (s.pc + 2) as u16,
        ..s
    }
}

/// EX9E: skip when the key named by the low nibble of VX is pressed.
pub open spec fn spec_skip_key(s: Chip8Model, op: u16) -> Chip8Model {
    spec_skip(s, s.keys[(s.regs[op_x(op) as int] & 0xF) as int])
}

/// EXA1: skip when the key named by the low nibble of VX is not pressed.
pub open spec fn spec_skip_no_key(s: Chip8Model, op: u16) -> Chip8Model {
    spec_skip(s, !s.keys[(s.regs[op_x(op) as int] & 0xF) as int])
}

/// FX07: VX set to the delay timer.
pub open spec fn spec_load_delay(s: Chip8Model, op: u16) -> Chip8Model {
    Chip8Model { regs: s.regs.update(op_x(op) as int, s.delay), pc: (s.pc + 2) as u16, ..s }
}

/// FX0A: the engine enters its waiting mode with the program counter held;
/// `step` resumes it once the keypad shows a pressed key.
pub open spec fn spec_wait_key(s: Chip8Model, op: u16) -> Chip8Model {
    Chip8Model { waiting: true, wait_reg: op_x(op) as u8, ..s }
}

/// FX15: the delay timer set to VX.
pub open spec fn spec_set_delay(s: Chip8Model, op: u16) -> Chip8Model {
    Chip8Model { delay: s.regs[op_x(op) as int], pc: (s.pc + 2) as u16, ..s }
}

/// FX18: the sound timer set to VX.
pub open spec fn spec_set_sound(s: Chip8Model, op: u16) -> Chip8Model {
    Chip8Model { sound: s.regs[op_x(op) as int], pc: (s.pc + 2) as u16, ..s }
}

/// FX1E: the index register set to I + VX, masked to 12 bits.
pub open spec fn spec_add_index(s: Chip8Model, op: u16) -> Chip8Model {
    Chip8Model {
        index: ((s.index + s.regs[op_x(op) as int]) % 4096) as u16,
        pc: (s.pc + 2) as u16,
        ..s
    }
}

/// FX29: the index register set to the font sprite address for digit VX.
pub open spec fn spec_load_font(s: Chip8Model, op: u16) -> Chip8Model {
    Chip8Model {
        index: (0x50 + s.regs[op_x(op) as int] * 5) as u16,
        pc: (s.pc + 2) as u16,
        ..s
    }
}

/// FX33: the decimal digits of VX written at I, I+1, I+2 (hundreds, tens,
/// ones), each address masked to 12 bits.
pub open spec fn spec_store_bcd(s: Chip8Model, op: u16) -> Chip8Model {
    let vx = s.regs[op_x(op) as int];
    let i = s.index as int;
    Chip8Model {
        mem: s.mem.update(i % 4096, (vx / 100) as u8).update((i + 1) % 4096, ((vx / 10) % 10) as u8)
            .update((i + 2) % 4096, (vx % 10) as u8),
        pc: (s.pc + 2) as u16,
        ..s
    }
}

/// FX55: memory from I onward (addresses masked to 12 bits) overwritten with
/// V0..=VX; all other bytes kept.
pub open spec fn spec_store_regs(s: Chip8Model, op: u16) -> Chip8Model {
    let i = s.index as int;
    let x = op_x(op) as int;
    Chip8Model {
        mem: Seq::new(4096, |a: int|
            if (a - i) % 4096 <= x {
                s.regs[(a - i) % 4096]
            } else {
                s.mem[a]
            }),
        pc: (s.pc + 2) as u16,
        ..s
    }
}

/// FX65: V0..=VX overwritten with memory from I onward (addresses masked to
/// 12 bits); the higher registers kept.
pub open spec fn spec_load_regs(s: Chip8Model, op: u16) -> Chip8Model {
    let i = s.index as int;
    let x = op_x(op) as int;
    Chip8Model {
        regs: Seq::new(16, |k: int| if k <= x { s.mem[(i + k) % 4096] } else { s.regs[k] }),
        pc: (s.pc + 2) as u16,
        ..s
    }
}

/// Whether sprite byte `b` has its bit for column `c` set; column 0 is the
/// leftmost pixel, the byte's most significant bit.
pub open spec fn sprite_bit(b: u8, c: int) -> bool {
    (b >> ((7 - c) as u8)) & 1 == 1
}

/// The display-buffer position of the point (x, y), both coordinates
/// wrapped to the 64 x 32 grid.
pub open spec fn spec_pix(x: int, y: int) -> int {
    (y % 32) * 64 + (x % 64)
}

/// The sprite row this pixel position lies in, as an offset from the draw
/// origin row `y0`, wrapped to the grid height.
pub open spec fn pix_row(p: int, y0: int) -> int {
    (p / 64 - y0) % 32
}

/// The sprite column this pixel position lies in, as an offset from the
/// draw origin column `x0`, wrapped to the grid width.
pub open spec fn pix_col(p: int, x0: int) -> int {
    (p % 64 - x0) % 64
}

/// Whether pixel position `p` is toggled by one of the first `t` sprite
/// cells, counting cells row-major: it lies within the sprite's footprint
/// and the matching sprite bit is set.
pub open spec fn draw_covered_upto(s: Chip8Model, op: u16, p: int, t: int) -> bool {
    let x0 = s.regs[op_x(op) as int] as int;
    let y0 = s.regs[op_y(op) as int] as int;
    let row = pix_row(p, y0);
    let col = pix_col(p, x0);
    &&& 0 <= row < op_n(op)
    &&& 0 <= col < 8
    &&& row * 8 + col < t
    &&& sprite_bit(s.mem[(s.index + row) % 4096], col)
}

/// Whether pixel position `p` is toggled by the sprite draw at all.
pub open spec fn draw_covered(s: Chip8Model, op: u16, p: int) -> bool {
    draw_covered_upto(s, op, p, op_n(op) * 8)
}

/// Whether one of the first `t` sprite cells (row-major) has its bit set
/// over an already-lit pixel: the collision the draw reports in VF.
pub open spec fn draw_collision_upto(s: Chip8Model, op: u16, t: int) -> bool {
    let x0 = s.regs[op_x(op) as int] as int;
    let y0 = s.regs[op_y(op) as int] as int;
    exists|r: int, c: int|
        0 <= r < op_n(op) && 0 <= c < 8 && r * 8 + c < t
            && #[trigger] sprite_bit(s.mem[(s.index + r) % 4096], c)
            && s.video[spec_pix(x0 + c, y0 + r)]
}

/// Whether the sprite draw turns any pixel from on to off.
pub open spec fn draw_collision(s: Chip8Model, op: u16) -> bool {
    draw_collision_upto(s, op, op_n(op) * 8)
}

/// DXYN: the N-byte sprite at memory[I..] drawn by XOR at (VX, VY), both
/// coordinates wrapping; VF set to 1 exactly when a pixel went out.
pub open spec fn spec_draw(s: Chip8Model, op: u16) -> Chip8Model {
    Chip8Model {
        video: Seq::new(2048, |p: int|
            if draw_covered(s, op, p) {
                !s.video[p]
            } else {
                s.video[p]
            }),
        regs: s.regs.update(15, if draw_collision(s, op) { 1u8 } else { 0u8 }),
        pc: (s.pc + 2) as u16,
        ..s
    }
}

impl Chip8 {
    /// 00E0: clear the display; afterwards every pixel reads as off.
    pub fn op_00E0(&mut self)
        requires
            old(self)@.wf(),
            !old(self)@.waiting,
            old(self)@.pc < 4095,
        ensures
            final(self)@.wf(),
            final(self)@ == spec_cls(old(self)@),
            forall|i: int| 0 <= i < 2048 ==> !final(self)@.video[i],
    {
        let mut i: usize = 0;
        while i < 2048
            invariant
                i <= 2048,
                self.video@.len() == 2048,
                forall|k: int| 0 <= k < i ==> !self.video@[k],
                self.memory@ == old(self).memory@,
                self.registers@ == old(self).registers@,
                self.stack@ == old(self).stack@,
                self.input@ == old(self).input@,
                self.index == old(self).index,
                self.pc == old(self).pc,
                self.sp == old(self).sp,
                self.delay_timer == old(self).delay_timer,
                self.sound_timer == old(self).sound_timer,
                self.waiting == old(self).waiting,
                self.wait_reg == old(self).wait_reg,
                self.rng == old(self).rng,
            decreases 2048 - i,
        {
            self.video.set(i, false);
            i += 1;
        }
        self.pc = self.pc + 2;
        proof {
            assert(self@.video =~= Seq::new(2048, |i: int| false));
            assert(self@ =~= spec_cls(old(self)@));
        }
    }

    /// 00EE: return from a subroutine by popping the return address, or
    /// report `StackUnderflow` when no call is outstanding.
    pub fn op_00EE(&mut self) -> (r: Result<(), Chip8Error>)
        requires
            old(self)@.wf(),
            !old(self)@.waiting,
        ensures
            final(self)@.wf(),
            old(self)@.sp == 0 ==> r == Err::<(), Chip8Error>(Chip8Error::StackUnderflow)
                && final(self)@ == old(self)@,
            old(self)@.sp > 0 ==> r == Ok::<(), Chip8Error>(())
                && final(self)@ == spec_ret(old(self)@),
    {
        if self.sp == 0 {
            return Err(Chip8Error::StackUnderflow);
        }
        self.pc = self.stack[(self.sp - 1) as usize];
        self.sp = self.sp - 1;
        proof {
            assert(self@ =~= spec_ret(old(self)@));
        }
        Ok(())
    }

    /// 1NNN: jump to NNN.
    pub fn op_1NNN(&mut self)
        requires
            old(self)@.wf(),
            !old(self)@.waiting,
        ensures
            final(self)@.wf(),
            final(self)@ == spec_jump(old(self)@, old(self).opcode),
    {
        self.pc = self.opcode & 0xFFF;
        proof {
            assert(self@ =~= spec_jump(old(self)@, old(self).opcode));
        }
    }

    /// 2NNN: push the address of the following instruction and jump to NNN,
    /// or report `StackOverflow` when all stack slots are in use.
    pub fn op_2NNN(&mut self) -> (r: Result<(), Chip8Error>)
        requires
            old(self)@.wf(),
            !old(self)@.waiting,
            old(self)@.pc < 4095,
        ensures
            final(self)@.wf(),
            old(self)@.sp == 16 ==> r == Err::<(), Chip8Error>(Chip8Error::StackOverflow)
                && final(self)@ == old(self)@,
            old(self)@.sp < 16 ==> r == Ok::<(), Chip8Error>(())
                && final(self)@ == spec_call(old(self)@, old(self).opcode),
    {
        if self.sp == 16 {
            return Err(Chip8Error::StackOverflow);
        }
        self.stack.set(self.sp as usize, self.pc + 2);
        self.sp = self.sp + 1;
        self.pc = self.opcode & 0xFFF;
        proof {
            assert(self@ =~= spec_call(old(self)@, old(self).opcode));
        }
        Ok(())
    }

    /// 3XNN: skip the next instruction when VX equals NN.
    pub fn op_3XNN(&mut self)
        requires
            old(self)@.wf(),
            !old(self)@.waiting,
            old(self)@.pc < 4095,
        ensures
            final(self)@.wf(),
            final(self)@ == spec_skip_eq_imm(old(self)@, old(self).opcode),
    {
        proof {
            lemma_op_fields(self.opcode);
        }
        let x = ((self.opcode >> 8) & 0xF) as usize;
        let nn = (self.opcode & 0xFF) as u8;
        if self.registers[x] == nn {
            self.pc = self.pc + 4;
        } else {
            self.pc = self.pc + 2;
        }
        proof {
            assert(self@ =~= spec_skip_eq_imm(old(self)@, old(self).opcode));
        }
    }

    /// 4XNN: skip the next instruction when VX differs from NN.
    pub fn op_4XNN(&mut self)
        requires
            old(self)@.wf(),
            !old(self)@.waiting,
            old(self)@.pc < 4095,
        ensures
            final(self)@.wf(),
            final(self)@ == spec_skip_ne_imm(old(self)@, old(self).opcode),
    {
        proof {
            lemma_op_fields(self.opcode);
        }
        let x = ((self.opcode >> 8) & 0xF) as usize;
        let nn = (self.opcode & 0xFF) as u8;
        if self.registers[x] != nn {
            self.pc = self.pc + 4;
        } else {
            self.pc = self.pc + 2;
        }
        proof {
            assert(self@ =~= spec_skip_ne_imm(old(self)@, old(self).opcode));
        }
    }

    /// 5XY0: skip the next instruction when VX equals VY.
    pub fn op_5XY0(&mut self)
        requires
            old(self)@.wf(),
            !old(self)@.waiting,
            old(self)@.pc < 4095,
        ensures
            final(self)@.wf(),
            final(self)@ == spec_skip_eq_reg(old(self)@, old(self).opcode),
    {
        proof {
            lemma_op_fields(self.opcode);
        }
        let x = ((self.opcode >> 8) & 0xF) as usize;
        let y = ((self.opcode >> 4) & 0xF) as usize;
        if self.registers[x] == self.registers[y] {
            self.pc = self.pc + 4;
        } else {
            self.pc = self.pc + 2;
        }
        proof {
            assert(self@ =~= spec_skip_eq_reg(old(self)@, old(self).opcode));
        }
    }

    /// 6XNN: load NN into VX.
    pub fn op_6XNN(&mut self)
        requires
            old(self)@.wf(),
            !old(self)@.waiting,
            old(self)@.pc < 4095,
        ensures
            final(self)@.wf(),
            final(self)@ == spec_load_imm(old(self)@, old(self).opcode),
    {
        proof {
            lemma_op_fields(self.opcode);
        }
        let x = ((self.opcode >> 8) & 0xF) as usize;
        let nn = (self.opcode & 0xFF) as u8;
        self.registers.set(x, nn);
        self.pc = self.pc + 2;
        proof {
            assert(self@ =~= spec_load_imm(old(self)@, old(self).opcode));
        }
    }

    /// 7XNN: add NN to VX, wrapping; the flag register is untouched.
    pub fn op_7XNN(&mut self)
        requires
            old(self)@.wf(),
            !old(self)@.waiting,
            old(self)@.pc < 4095,
        ensures
            final(self)@.wf(),
            final(self)@ == spec_add_imm(old(self)@, old(self).opcode),
    {
        proof {
            lemma_op_fields(self.opcode);
        }
        let x = ((self.opcode >> 8) & 0xF) as usize;
        let nn = (self.opcode & 0xFF) as u8;
        let sum: u16 = self.registers[x] as u16 + nn as u16;
        self.registers.set(x, (sum % 256) as u8);
        self.pc = self.pc + 2;
        proof {
            assert(self@ =~= spec_add_imm(old(self)@, old(self).opcode));
        }
    }

    /// 8XY0: copy VY into VX.
    pub fn op_8XY0(&mut self)
        requires
            old(self)@.wf(),
            !old(self)@.waiting,
            old(self)@.pc < 4095,
        ensures
            final(self)@.wf(),
            final(self)@ == spec_move_reg(old(self)@, old(self).opcode),
    {
        proof {
            lemma_op_fields(self.opcode);
        }
        let x = ((self.opcode >> 8) & 0xF) as usize;
        let y = ((self.opcode >> 4) & 0xF) as usize;
        let vy = self.registers[y];
        self.registers.set(x, vy);
        self.pc = self.pc + 2;
        proof {
            assert(self@ =~= spec_move_reg(old(self)@, old(self).opcode));
        }
    }

    /// 8XY1: VX |= VY.
    pub fn op_8XY1(&mut self)
        requires
            old(self)@.wf(),
            !old(self)@.waiting,
            old(self)@.pc < 4095,
        ensures
            final(self)@.wf(),
            final(self)@ == spec_or_reg(old(self)@, old(self).opcode),
    {
        proof {
            lemma_op_fields(self.opcode);
        }
        let x = ((self.opcode >> 8) & 0xF) as usize;
        let y = ((self.opcode >> 4) & 0xF) as usize;
        let v = self.registers[x] | self.registers[y];
        self.registers.set(x, v);
        self.pc = self.pc + 2;
        proof {
            assert(self@ =~= spec_or_reg(old(self)@, old(self).opcode));
        }
    }

    /// 8XY2: VX &= VY.
    pub fn op_8XY2(&mut self)
        requires
            old(self)@.wf(),
            !old(self)@.waiting,
            old(self)@.pc < 4095,
        ensures
            final(self)@.wf(),
            final(self)@ == spec_and_reg(old(self)@, old(self).opcode),
    {
        proof {
            lemma_op_fields(self.opcode);
        }
        let x = ((self.opcode >> 8) & 0xF) as usize;
        let y = ((self.opcode >> 4) & 0xF) as usize;
        let v = self.registers[x] & self.registers[y];
        self.registers.set(x, v);
        self.pc = self.pc + 2;
        proof {
            assert(self@ =~= spec_and_reg(old(self)@, old(self).opcode));
        }
    }

    /// 8XY3: VX ^= VY.
    pub fn op_8XY3(&mut self)
        requires
            old(self)@.wf(),
            !old(self)@.waiting,
            old(self)@.pc < 4095,
        ensures
            final(self)@.wf(),
            final(self)@ == spec_xor_reg(old(self)@, old(self).opcode),
    {
        proof {
            lemma_op_fields(self.opcode);
        }
        let x = ((self.opcode >> 8) & 0xF) as usize;
        let y = ((self.opcode >> 4) & 0xF) as usize;
        let v = self.registers[x] ^ self.registers[y];
        self.registers.set(x, v);
        self.pc = self.pc + 2;
        proof {
            assert(self@ =~= spec_xor_reg(old(self)@, old(self).opcode));
        }
    }

    /// 8XY4: VX += VY wrapping, with VF recording the carry out of 8 bits.
    pub fn op_8XY4(&mut self)
        requires
            old(self)@.wf(),
            !old(self)@.waiting,
            old(self)@.pc < 4095,
        ensures
            final(self)@.wf(),
            final(self)@ == spec_add_reg(old(self)@, old(self).opcode),
    {
        proof {
            lemma_op_fields(self.opcode);
        }
        let x = ((self.opcode >> 8) & 0xF) as usize;
        let y = ((self.opcode >> 4) & 0xF) as usize;
        let sum: u16 = self.registers[x] as u16 + self.registers[y] as u16;
        let flag: u8 = if sum > 255 { 1 } else { 0 };
        self.registers.set(x, (sum % 256) as u8);
        self.registers.set(15, flag);
        self.pc = self.pc + 2;
        proof {
            assert(self@ =~= spec_add_reg(old(self)@, old(self).opcode));
        }
    }

    /// 8XY5: VX -= VY wrapping, with VF set to 1 exactly when no borrow was
    /// needed.
    pub fn op_8XY5(&mut self)
        requires
            old(self)@.wf(),
            !old(self)@.waiting,
            old(self)@.pc < 4095,
        ensures
            final(self)@.wf(),
            final(self)@ == spec_sub_reg(old(self)@, old(self).opcode),
    {
        proof {
            lemma_op_fields(self.opcode);
        }
        let x = ((self.opcode >> 8) & 0xF) as usize;
        let y = ((self.opcode >> 4) & 0xF) as usize;
        let vx = self.registers[x];
        let vy = self.registers[y];
        let diff: u16 = (vx as u16 + 256 - vy as u16) % 256;
        let flag: u8 = if vx >= vy { 1 } else { 0 };
        self.registers.set(x, diff as u8);
        self.registers.set(15, flag);
        self.pc = self.pc + 2;
        proof {
            assert(self@ =~= spec_sub_reg(old(self)@, old(self).opcode));
        }
    }

    /// 8XY6: shift VX right once, with VF recording the bit shifted out.
    pub fn op_8XY6(&mut self)
        requires
            old(self)@.wf(),
            !old(self)@.waiting,
            old(self)@.pc < 4095,
        ensures
            final(self)@.wf(),
            final(self)@ == spec_shr(old(self)@, old(self).opcode),
    {
        proof {
            lemma_op_fields(self.opcode);
        }
        let x = ((self.opcode >> 8) & 0xF) as usize;
        let vx = self.registers[x];
        self.registers.set(x, vx >> 1);
        self.registers.set(15, vx & 1);
        self.pc = self.pc + 2;
        proof {
            assert(self@ =~= spec_shr(old(self)@, old(self).opcode));
        }
    }

    /// 8XY7: VX := VY - VX wrapping, with VF set to 1 exactly when no borrow
    /// was needed.
    pub fn op_8XY7(&mut self)
        requires
            old(self)@.wf(),
            !old(self)@.waiting,
            old(self)@.pc < 4095,
        ensures
            final(self)@.wf(),
            final(self)@ == spec_sub_from(old(self)@, old(self).opcode),
    {
        proof {
            lemma_op_fields(self.opcode);
        }
        let x = ((self.opcode >> 8) & 0xF) as usize;
        let y = ((self.opcode >> 4) & 0xF) as usize;
        let vx = self.registers[x];
        let vy = self.registers[y];
        let diff: u16 = (vy as u16 + 256 - vx as u16) % 256;
        let flag: u8 = if vy >= vx { 1 } else { 0 };
        self.registers.set(x, diff as u8);
        self.registers.set(15, flag);
        self.pc = self.pc + 2;
        proof {
            assert(self@ =~= spec_sub_from(old(self)@, old(self).opcode));
        }
    }

    /// 8XYE: shift VX left once, wrapping, with VF recording the bit shifted
    /// out.
    pub fn op_8XYE(&mut self)
        requires
            old(self)@.wf(),
            !old(self)@.waiting,
            old(self)@.pc < 4095,
        ensures
            final(self)@.wf(),
            final(self)@ == spec_shl(old(self)@, old(self).opcode),
    {
        proof {
            lemma_op_fields(self.opcode);
        }
        let x = ((self.opcode >> 8) & 0xF) as usize;
        let vx = self.registers[x];
        self.registers.set(x, vx << 1);
        self.registers.set(15, vx >> 7);
        self.pc = self.pc + 2;
        proof {
            assert(self@ =~= spec_shl(old(self)@, old(self).opcode));
        }
    }

    /// 9XY0: skip the next instruction when VX differs from VY.
    pub fn op_9XY0(&mut self)
        requires
            old(self)@.wf(),
            !old(self)@.waiting,
            old(self)@.pc < 4095,
        ensures
            final(self)@.wf(),
            final(self)@ == spec_skip_ne_reg(old(self)@, old(self).opcode),
    {
        proof {
            lemma_op_fields(self.opcode);
        }
        let x = ((self.opcode >> 8) & 0xF) as usize;
        let y = ((self.opcode >> 4) & 0xF) as usize;
        if self.registers[x] != self.registers[y] {
            self.pc = self.pc + 4;
        } else {
            self.pc = self.pc + 2;
        }
        proof {
            assert(self@ =~= spec_skip_ne_reg(old(self)@, old(self).opcode));
        }
    }

    /// ANNN: load NNN into the index register.
    pub fn op_ANNN(&mut self)
        requires
            old(self)@.wf(),
            !old(self)@.waiting,
            old(self)@.pc < 4095,
        ensures
            final(self)@.wf(),
            final(self)@ == spec_load_index(old(self)@, old(self).opcode),
    {
        proof {
            lemma_op_fields(self.opcode);
        }
        self.index = self.opcode & 0xFFF;
        self.pc = self.pc + 2;
        proof {
            assert(self@ =~= spec_load_index(old(self)@, old(self).opcode));
        }
    }

    /// BNNN: jump to NNN plus V0.
    pub fn op_BNNN(&mut self)
        requires
            old(self)@.wf(),
            !old(self)@.waiting,
        ensures
            final(self)@.wf(),
            final(self)@ == spec_jump_v0(old(self)@, old(self).opcode),
    {
        proof {
            lemma_op_fields(self.opcode);
        }
        self.pc = (self.opcode & 0xFFF) + self.registers[0] as u16;
        proof {
            assert(self@ =~= spec_jump_v0(old(self)@, old(self).opcode));
        }
    }

    /// CXNN: step the pseudo-random generator and load its high byte, masked
    /// by NN, into VX.
    pub fn op_CXNN(&mut self)
        requires
            old(self)@.wf(),
            !old(self)@.waiting,
            old(self)@.pc < 4095,
        ensures
            final(self)@.wf(),
            final(self)@ == spec_random(old(self)@, old(self).opcode),
    {
        proof {
            lemma_op_fields(self.opcode);
        }
        let x = ((self.opcode >> 8) & 0xF) as usize;
        let nn = (self.opcode & 0xFF) as u8;
        let r = self.rng;
        let a = r ^ (r << 7);
        let b = a ^ (a >> 9);
        let stepped = b ^ (b << 8);
        self.rng = stepped;
        self.registers.set(x, ((stepped >> 8) as u8) & nn);
        self.pc = self.pc + 2;
        proof {
            assert(self@ =~= spec_random(old(self)@, old(self).opcode));
        }
    }

    /// DXYN: draw the N-byte sprite at memory[I..] at position (VX, VY) by
    /// XOR, wrapping coordinates on the 64 x 32 grid; VF reports whether any
    /// pixel was turned off.
    pub fn op_DXYN(&mut self)
        requires
            old(self)@.wf(),
            !old(self)@.waiting,
            old(self)@.pc < 4095,
        ensures
            final(self)@.wf(),
            final(self)@ == spec_draw(old(self)@, old(self).opcode),
    {
        proof {
            lemma_op_fields(self.opcode);
        }
        let x = ((self.opcode >> 8) & 0xF) as usize;
        let y = ((self.opcode >> 4) & 0xF) as usize;
        let n = (self.opcode & 0xF) as usize;
        let x0 = self.registers[x] as usize;
        let y0 = self.registers[y] as usize;
        let ghost s0 = self@;
        let ghost op = self.opcode;
        let total = n * 8;
        let mut collision = false;
        let mut t: usize = 0;
        while t < total
            invariant
                s0 == old(self)@,
                op == old(self).opcode,
                s0.wf(),
                x == op_x(op) as int,
                y == op_y(op) as int,
                n == op_n(op) as int,
                x0 == s0.regs[x as int] as int,
                y0 == s0.regs[y as int] as int,
                x0 < 256,
                y0 < 256,
                n < 16,
                total == n * 8,
                t <= total,
                self.opcode == op,
                self.memory@ == s0.mem,
                self.registers@ == s0.regs,
                self.stack@ == s0.stack,
                self.input@ == s0.keys,
                self.index == s0.index,
                self.pc == s0.pc,
                self.sp == s0.sp,
                self.delay_timer == s0.delay,
                self.sound_timer == s0.sound,
                self.waiting == s0.waiting,
                self.wait_reg == s0.wait_reg,
                self.rng == s0.rng,
                self.video@.len() == 2048,
                forall|p: int|
                    0 <= p < 2048 && draw_covered_upto(s0, op, p, t as int)
                        ==> self.video@[p] == !s0.video[p],
                forall|p: int|
                    0 <= p < 2048 && !draw_covered_upto(s0, op, p, t as int)
                        ==> self.video@[p] == s0.video[p],
                collision == draw_collision_upto(s0, op, t as int),
            decreases total - t,
        {
            let r = t / 8;
            let c = t % 8;
            let ghost rr = r as int;
            let ghost cc = c as int;
            let addr = ((self.index + r as u16) & 0xFFF) as usize;
            proof {
                assert(rr * 8 + cc == t as int);
                assert(0 <= rr < n);
                assert(0 <= cc < 8);
                lemma_mask12((self.index + r as u16) as u16);
                vstd::arithmetic::div_mod::lemma_mod_bound(s0.index as int + rr, 4096);
                assert(addr as int == (s0.index + rr) % 4096);
            }
            let byte = self.memory[addr];
            let shift = (7 - c) as u8;
            let bit_set = ((byte >> shift) & 1) == 1;
            let px = (x0 + c) % 64;
            let py = (y0 + r) % 32;
            let idx = py * 64 + px;
            proof {
                assert(bit_set == sprite_bit(s0.mem[(s0.index + rr) % 4096], cc));
                assert(px as int == (x0 as int + cc) % 64);
                assert(py as int == (y0 as int + rr) % 32);
                assert(px < 64 && py < 32);
                assert(idx < 2048);
                assert(idx as int == spec_pix(x0 as int + cc, y0 as int + rr));
                lemma_mod_offset(y0 as int, rr, 32);
                lemma_mod_offset(x0 as int, cc, 64);
                assert(pix_row(idx as int, y0 as int) == rr);
                assert(pix_col(idx as int, x0 as int) == cc);
                assert forall|p: int|
                    0 <= p < 2048 && #[trigger] pix_row(p, y0 as int) == rr
                        && pix_col(p, x0 as int) == cc implies p == idx as int by {
                    let q = p / 64;
                    let u = p % 64;
                    assert(p == 64 * q + u && 0 <= u < 64 && 0 <= q < 32);
                    lemma_mod_offset_unique(y0 as int, rr, q, 32);
                    lemma_mod_offset_unique(x0 as int, cc, u, 64);
                }
                assert(!draw_covered_upto(s0, op, idx as int, t as int));
            }
            if bit_set {
                let was = self.video[idx];
                self.video.set(idx, !was);
                if was {
                    collision = true;
                }
                proof {
                    assert(s0.video[idx as int] == was);
                    if was {
                        assert(draw_collision_upto(s0, op, (t + 1) as int));
                    }
                }
            }
            t += 1;
            proof {
                assert forall|p: int|
                    0 <= p < 2048 && draw_covered_upto(s0, op, p, t as int)
                        implies self.video@[p] == !s0.video[p] by {
                    if pix_row(p, y0 as int) == rr && pix_col(p, x0 as int) == cc {
                        assert(p == idx as int);
                    }
                }
                assert forall|p: int|
                    0 <= p < 2048 && !draw_covered_upto(s0, op, p, t as int)
                        implies self.video@[p] == s0.video[p] by {
                    if pix_row(p, y0 as int) == rr && pix_col(p, x0 as int) == cc {
                        assert(p == idx as int);
                    }
                }
                if !collision {
                    assert(!draw_collision_upto(s0, op, t as int)) by {
                        assert forall|r2: int, c2: int|
                            0 <= r2 < op_n(op) && 0 <= c2 < 8 && r2 * 8 + c2 < t as int
                                && #[trigger] sprite_bit(s0.mem[(s0.index + r2) % 4096], c2)
                                implies !s0.video[spec_pix(
                                s0.regs[op_x(op) as int] as int + c2,
                                s0.regs[op_y(op) as int] as int + r2,
                            )] by {
                            if r2 == rr && c2 == cc {
                                assert(!(bit_set && s0.video[idx as int]));
                            } else {
                                assert(r2 * 8 + c2 < t as int - 1 || r2 > rr || (r2 == rr && c2
                                    > cc));
                            }
                        }
                    }
                }
            }
        }
        self.registers.set(15, if collision { 1 } else { 0 });
        self.pc = self.pc + 2;
        proof {
            assert(self@.video =~= spec_draw(s0, op).video);
            assert(self@ =~= spec_draw(s0, op));
        }
    }

    /// EX9E: skip the next instruction when the key named by VX is pressed.
    pub fn op_EX9E(&mut self)
        requires
            old(self)@.wf(),
            !old(self)@.waiting,
            old(self)@.pc < 4095,
        ensures
            final(self)@.wf(),
            final(self)@ == spec_skip_key(old(self)@, old(self).opcode),
    {
        proof {
            lemma_op_fields(self.opcode);
        }
        let x = ((self.opcode >> 8) & 0xF) as usize;
        let vx = self.registers[x];
        proof {
            lemma_low_nibble(vx);
        }
        let key = (vx & 0xF) as usize;
        if self.input[key] {
            self.pc = self.pc + 4;
        } else {
            self.pc = self.pc + 2;
        }
        proof {
            assert(self@ =~= spec_skip_key(old(self)@, old(self).opcode));
        }
    }

    /// EXA1: skip the next instruction when the key named by VX is not
    /// pressed.
    pub fn op_EXA1(&mut self)
        requires
            old(self)@.wf(),
            !old(self)@.waiting,
            old(self)@.pc < 4095,
        ensures
            final(self)@.wf(),
            final(self)@ == spec_skip_no_key(old(self)@, old(self).opcode),
    {
        proof {
            lemma_op_fields(self.opcode);
        }
        let x = ((self.opcode >> 8) & 0xF) as usize;
        let vx = self.registers[x];
        proof {
            lemma_low_nibble(vx);
        }
        let key = (vx & 0xF) as usize;
        if !self.input[key] {
            self.pc = self.pc + 4;
        } else {
            self.pc = self.pc + 2;
        }
        proof {
            assert(self@ =~= spec_skip_no_key(old(self)@, old(self).opcode));
        }
    }

    /// FX07: load the delay timer into VX.
    pub fn op_FX07(&mut self)
        requires
            old(self)@.wf(),
            !old(self)@.waiting,
            old(self)@.pc < 4095,
        ensures
            final(self)@.wf(),
            final(self)@ == spec_load_delay(old(self)@, old(self).opcode),
    {
        proof {
            lemma_op_fields(self.opcode);
        }
        let x = ((self.opcode >> 8) & 0xF) as usize;
        let d = self.delay_timer;
        self.registers.set(x, d);
        self.pc = self.pc + 2;
        proof {
            assert(self@ =~= spec_load_delay(old(self)@, old(self).opcode));
        }
    }

    /// FX0A: enter the waiting mode with the program counter held; `step`
    /// stores the next pressed key into VX and resumes.
    pub fn op_FX0A(&mut self)
        requires
            old(self)@.wf(),
            !old(self)@.waiting,
            old(self)@.pc < 4095,
        ensures
            final(self)@.wf(),
            final(self)@ == spec_wait_key(old(self)@, old(self).opcode),
    {
        proof {
            lemma_op_fields(self.opcode);
        }
        self.wait_reg = ((self.opcode >> 8) & 0xF) as u8;
        self.waiting = true;
        proof {
            assert(self@ =~= spec_wait_key(old(self)@, old(self).opcode));
        }
    }

    /// FX15: load VX into the delay timer.
    pub fn op_FX15(&mut self)
        requires
            old(self)@.wf(),
            !old(self)@.waiting,
            old(self)@.pc < 4095,
        ensures
            final(self)@.wf(),
            final(self)@ == spec_set_delay(old(self)@, old(self).opcode),
    {
        proof {
            lemma_op_fields(self.opcode);
        }
        let x = ((self.opcode >> 8) & 0xF) as usize;
        self.delay_timer = self.registers[x];
        self.pc = self.pc + 2;
        proof {
            assert(self@ =~= spec_set_delay(old(self)@, old(self).opcode));
        }
    }

    /// FX18: load VX into the sound timer.
    pub fn op_FX18(&mut self)
        requires
            old(self)@.wf(),
            !old(self)@.waiting,
            old(self)@.pc < 4095,
        ensures
            final(self)@.wf(),
            final(self)@ == spec_set_sound(old(self)@, old(self).opcode),
    {
        proof {
            lemma_op_fields(self.opcode);
        }
        let x = ((self.opcode >> 8) & 0xF) as usize;
        self.sound_timer = self.registers[x];
        self.pc = self.pc + 2;
        proof {
            assert(self@ =~= spec_set_sound(old(self)@, old(self).opcode));
        }
    }

    /// FX1E: add VX to the index register, masking the sum to 12 bits.
    pub fn op_FX1E(&mut self)
        requires
            old(self)@.wf(),
            !old(self)@.waiting,
            old(self)@.pc < 4095,
        ensures
            final(self)@.wf(),
            final(self)@ == spec_add_index(old(self)@, old(self).opcode),
    {
        proof {
            lemma_op_fields(self.opcode);
        }
        let x = ((self.opcode >> 8) & 0xF) as usize;
        let sum: u16 = self.index + self.registers[x] as u16;
        proof {
            lemma_mask12(sum);
        }
        self.index = sum & 0xFFF;
        self.pc = self.pc + 2;
        proof {
            assert(self@ =~= spec_add_index(old(self)@, old(self).opcode));
        }
    }

    /// FX29: point the index register at the font sprite for digit VX.
    pub fn op_FX29(&mut self)
        requires
            old(self)@.wf(),
            !old(self)@.waiting,
            old(self)@.pc < 4095,
        ensures
            final(self)@.wf(),
            final(self)@ == spec_load_font(old(self)@, old(self).opcode),
    {
        proof {
            lemma_op_fields(self.opcode);
        }
        let x = ((self.opcode >> 8) & 0xF) as usize;
        self.index = 0x50 + self.registers[x] as u16 * 5;
        self.pc = self.pc + 2;
        proof {
            assert(self@ =~= spec_load_font(old(self)@, old(self).opcode));
        }
    }

    /// FX33: write the three decimal digits of VX at I, I+1, I+2, each
    /// address masked to 12 bits.
    pub fn op_FX33(&mut self)
        requires
            old(self)@.wf(),
            !old(self)@.waiting,
            old(self)@.pc < 4095,
        ensures
            final(self)@.wf(),
            final(self)@ == spec_store_bcd(old(self)@, old(self).opcode),
    {
        proof {
            lemma_op_fields(self.opcode);
            lemma_mask12((self.index + 1) as u16);
            lemma_mask12((self.index + 2) as u16);
        }
        let x = ((self.opcode >> 8) & 0xF) as usize;
        let vx = self.registers[x];
        let a0 = self.index as usize;
        let a1 = ((self.index + 1) & 0xFFF) as usize;
        let a2 = ((self.index + 2) & 0xFFF) as usize;
        self.memory.set(a0, vx / 100);
        self.memory.set(a1, (vx / 10) % 10);
        self.memory.set(a2, vx % 10);
        self.pc = self.pc + 2;
        proof {
            assert(old(self).index as int % 4096 == old(self).index as int);
            assert(self@ =~= spec_store_bcd(old(self)@, old(self).opcode));
        }
    }

    /// FX55: copy V0..=VX into memory starting at I, each address masked to
    /// 12 bits.
    pub fn op_FX55(&mut self)
        requires
            old(self)@.wf(),
            !old(self)@.waiting,
            old(self)@.pc < 4095,
        ensures
            final(self)@.wf(),
            final(self)@ == spec_store_regs(old(self)@, old(self).opcode),
    {
        proof {
            lemma_op_fields(self.opcode);
        }
        let x = ((self.opcode >> 8) & 0xF) as usize;
        let ghost i = self.index as int;
        let mut j: usize = 0;
        while j <= x
            invariant
                old(self)@.wf(),
                x == op_x(old(self).opcode) as int,
                x < 16,
                j <= x + 1,
                i == self.index as int,
                self.opcode == old(self).opcode,
                self.registers@ == old(self).registers@,
                self.stack@ == old(self).stack@,
                self.video@ == old(self).video@,
                self.input@ == old(self).input@,
                self.index == old(self).index,
                self.pc == old(self).pc,
                self.sp == old(self).sp,
                self.delay_timer == old(self).delay_timer,
                self.sound_timer == old(self).sound_timer,
                self.waiting == old(self).waiting,
                self.wait_reg == old(self).wait_reg,
                self.rng == old(self).rng,
                self.memory@.len() == 4096,
                forall|a: int|
                    0 <= a < 4096 && (a - i) % 4096 < j
                        ==> self.memory@[a] == old(self).registers@[(a - i) % 4096],
                forall|a: int|
                    0 <= a < 4096 && (a - i) % 4096 >= j ==> self.memory@[a] == old(
                        self,
                    ).memory@[a],
            decreases x + 1 - j,
        {
            let addr = ((self.index + j as u16) & 0xFFF) as usize;
            proof {
                lemma_mask12((self.index + j as u16) as u16);
                lemma_mod_offset(i, j as int, 4096);
                assert(addr as int == (i + j) % 4096);
                assert((addr as int - i) % 4096 == j as int);
                assert forall|a: int|
                    0 <= a < 4096 && #[trigger] ((a - i) % 4096) == j as int
                        implies a == addr as int by {
                    lemma_mod_offset_unique(i, j as int, a, 4096);
                }
            }
            let vj = self.registers[j];
            self.memory.set(addr, vj);
            j += 1;
            proof {
                assert forall|a: int| 0 <= a < 4096 implies 0 <= #[trigger] ((a - i) % 4096) < 4096 by {
                    vstd::arithmetic::div_mod::lemma_mod_bound(a - i, 4096);
                }
            }
        }
        self.pc = self.pc + 2;
        proof {
            assert forall|a: int| 0 <= a < 4096 implies 0 <= #[trigger] ((a - i) % 4096) < 4096 by {
                vstd::arithmetic::div_mod::lemma_mod_bound(a - i, 4096);
            }
            assert(self@.mem =~= spec_store_regs(old(self)@, old(self).opcode).mem);
            assert(self@ =~= spec_store_regs(old(self)@, old(self).opcode));
        }
    }

    /// FX65: copy memory starting at I into V0..=VX, each address masked to
    /// 12 bits.
    pub fn op_FX65(&mut self)
        requires
            old(self)@.wf(),
            !old(self)@.waiting,
            old(self)@.pc < 4095,
        ensures
            final(self)@.wf(),
            final(self)@ == spec_load_regs(old(self)@, old(self).opcode),
    {
        proof {
            lemma_op_fields(self.opcode);
        }
        let x = ((self.opcode >> 8) & 0xF) as usize;
        let ghost i = self.index as int;
        let mut k: usize = 0;
        while k <= x
            invariant
                old(self)@.wf(),
                x == op_x(old(self).opcode) as int,
                x < 16,
                k <= x + 1,
                i == self.index as int,
                self.opcode == old(self).opcode,
                self.memory@ == old(self).memory@,
                self.stack@ == old(self).stack@,
                self.video@ == old(self).video@,
                self.input@ == old(self).input@,
                self.index == old(self).index,
                self.pc == old(self).pc,
                self.sp == old(self).sp,
                self.delay_timer == old(self).delay_timer,
                self.sound_timer == old(self).sound_timer,
                self.waiting == old(self).waiting,
                self.wait_reg == old(self).wait_reg,
                self.rng == old(self).rng,
                self.registers@.len() == 16,
                forall|t: int| 0 <= t < k ==> self.registers@[t] == old(self).memory@[(i + t) % 4096],
                forall|t: int| k <= t < 16 ==> self.registers@[t] == old(self).registers@[t],
            decreases x + 1 - k,
        {
            let addr = ((self.index + k as u16) & 0xFFF) as usize;
            proof {
                lemma_mask12((self.index + k as u16) as u16);
                assert(addr as int == (i + k) % 4096);
                vstd::arithmetic::div_mod::lemma_mod_bound(i + k, 4096);
            }
            let b = self.memory[addr];
            self.registers.set(k, b);
            k += 1;
        }
        self.pc = self.pc + 2;
        proof {
            assert(self@.regs =~= spec_load_regs(old(self)@, old(self).opcode).regs);
            assert(self@ =~= spec_load_regs(old(self)@, old(self).opcode));
        }
    }
}

} // verus!
