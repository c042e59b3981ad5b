//! The interpreter state: memory, registers, call stack, display, keypad and
//! timers, together with its abstract model and the operations the host drives.

pub mod decode;
pub mod laws;
pub mod opcodes;

use vstd::prelude::*;

use crate::chip8::decode::{decode, spec_decode, Instruction};
use crate::chip8::opcodes::{
    spec_add_imm, spec_add_index, spec_add_reg, spec_and_reg, spec_call, spec_cls, spec_draw,
    spec_jump, spec_jump_v0, spec_load_delay, spec_load_font, spec_load_imm, spec_load_index,
    spec_load_regs, spec_move_reg, spec_or_reg, spec_random, spec_ret, spec_set_delay,
    spec_set_sound, spec_shl, spec_shr, spec_skip_eq_imm, spec_skip_eq_reg, spec_skip_key,
    spec_skip_ne_imm, spec_skip_ne_reg, spec_skip_no_key, spec_store_bcd, spec_store_regs,
    spec_sub_from, spec_sub_reg, spec_wait_key, spec_xor_reg,
};

verus! {

/// The outcomes `step` and construction can fail with. `UnknownOpcode` carries
/// the offending instruction word; the others mark a fatal condition.
#[derive(Debug, Clone, Copy, PartialEq, Eq)]
pub enum Chip8Error {
    /// The program image does not fit in memory above the reserved area.
    OversizedProgram,
    /// A fetch would read past the end of memory.
    OutOfBounds,
    /// A call was made with all stack slots in use.
    StackOverflow,
    /// A return was executed with no return address on the stack.
    StackUnderflow,
    /// The fetched instruction word matches no defined shape.
    UnknownOpcode(u16),
}

/// The abstract machine state every contract speaks of: the persistent
/// interpreter state as mathematical sequences and scalars. The transient
/// instruction word being executed is not part of it.
#[verifier::ext_equal]
pub ghost struct Chip8Model {
    /// 4096 bytes of memory, addresses 0x000..=0xFFF.
    pub mem: Seq<u8>,
    /// The sixteen 8-bit registers V0..=VF.
    pub regs: Seq<u8>,
    /// Sixteen return-address slots; only those below `sp` are meaningful.
    pub stack: Seq<u16>,
    /// 64 x 32 pixels in row-major order; `true` is lit.
    pub video: Seq<bool>,
    /// The sixteen keypad keys; `true` is pressed.
    pub keys: Seq<bool>,
    /// The index register I.
    pub index: u16,
    /// The program counter.
    pub pc: u16,
    /// The stack pointer: the next free stack slot.
    pub sp: u8,
    /// The delay timer.
    pub delay: u8,
    /// The sound timer.
    pub sound: u8,
    /// Whether the engine is blocked waiting for a key press.
    pub waiting: bool,
    /// The register that receives the key once one is pressed.
    pub wait_reg: u8,
    /// The state of the pseudo-random generator behind the random opcode.
    pub rng: u16,
}

impl Chip8Model {
    /// Well-formedness: the state containers have their fixed sizes, the
    /// stack pointer and index register are in range, and a blocked engine
    /// holds its program counter on a decodable instruction.
    pub open spec fn wf(self) -> bool {
        &&& self.mem.len() == 4096
        &&& self.regs.len() == 16
        &&& self.stack.len() == 16
        &&& self.video.len() == 2048
        &&& self.keys.len() == 16
        &&& self.sp <= 16
        &&& self.index < 4096
        &&& self.wait_reg < 16
        &&& (self.waiting ==> self.pc < 4095)
    }
}

/// One CHIP-8 machine: exclusively owned by the host, mutated in place by
/// `step` and `tick_timers`, read by the host's renderer and audio loop.
pub struct Chip8 {
    /// 4096 bytes of memory (font area at 0x050, program at 0x200).
    pub memory: Vec<u8>,
    /// Registers V0..=VF.
    pub registers: Vec<u8>,
    /// Return-address stack.
    pub stack: Vec<u16>,
    /// Display buffer, 64 x 32 pixels in row-major order.
    pub video: Vec<bool>,
    /// Keypad state, written by the host between cycles.
    pub input: Vec<bool>,
    /// The instruction word most recently fetched; transient working state.
    pub opcode: u16,
    /// The index register I.
    pub index: u16,
    /// The program counter.
    pub pc: u16,
    /// The stack pointer.
    pub sp: u8,
    /// The delay timer.
    pub delay_timer: u8,
    /// The sound timer.
    pub sound_timer: u8,
    /// Set while the wait-for-key opcode is blocking the engine.
    pub waiting: bool,
    /// The register that receives the awaited key.
    pub wait_reg: u8,
    /// State of the pseudo-random generator.
    pub rng: u16,
}

impl View for Chip8 {
    type V = Chip8Model;

    open spec fn view(&self) -> Chip8Model {
        Chip8Model {
            mem: self.memory@,
            regs: self.registers@,
            stack: self.stack@,
            video: self.video@,
            keys: self.input@,
            index: self.index,
            pc: self.pc,
            sp: self.sp,
            delay: self.delay_timer,
            sound: self.sound_timer,
            waiting: self.waiting,
            wait_reg: self.wait_reg,
            rng: self.rng,
        }
    }
}

/// Memory as it looks right after loading: the font table at 0x050, the
/// program image at 0x200, and zero everywhere else.
pub open spec fn spec_init_mem(font: Seq<u8>, rom: Seq<u8>) -> Seq<u8> {
    Seq::new(4096, |a: int|
        if 0x50 <= a < 0xA0 {
            font[a - 0x50]
        } else if 512 <= a < 512 + rom.len() {
            rom[a - 512]
        } else {
            0u8
        })
}

/// The freshly constructed machine: loaded memory, everything else zeroed,
/// the program counter at the program start, and the random generator seeded.
pub open spec fn spec_init(font: Seq<u8>, rom: Seq<u8>) -> Chip8Model {
    Chip8Model {
        mem: spec_init_mem(font, rom),
        regs: Seq::new(16, |i: int| 0u8),
        stack: Seq::new(16, |i: int| 0u16),
        video: Seq::new(2048, |i: int| false),
        keys: Seq::new(16, |i: int| false),
        index: 0,
        pc: 512,
        sp: 0,
        delay: 0,
        sound: 0,
        waiting: false,
        wait_reg: 0,
        rng: 0x2A,
    }
}

/// Both timers after one 60 Hz tick: each decremented, floored at zero.
pub open spec fn spec_tick(s: Chip8Model) -> Chip8Model {
    Chip8Model {
        delay: if s.delay > 0 { (s.delay - 1) as u8 } else { 0u8 },
        sound: if s.sound > 0 { (s.sound - 1) as u8 } else { 0u8 },
        ..s
    }
}

/// The instruction word at the program counter: two consecutive bytes
/// combined big-endian.
pub open spec fn spec_fetch(s: Chip8Model) -> u16 {
    ((s.mem[s.pc as int] as u16) << 8) | (s.mem[s.pc as int + 1] as u16)
}

/// The lowest pressed key at or above position `k`, or 16 if none is.
pub open spec fn first_key(keys: Seq<bool>, k: int) -> int
    decreases 16 - k,
{
    if k < 0 || k >= 16 {
        16
    } else if keys[k] {
        k
    } else {
        first_key(keys, k + 1)
    }
}

/// The outcome of one cycle from state `s`: the next state and `step`'s
/// result. A blocked engine consumes the lowest pressed key or does nothing;
/// otherwise the instruction at the program counter is fetched, decoded and
/// executed, and every failure leaves the state as it was.
pub open spec fn spec_step(s: Chip8Model) -> (Chip8Model, Result<(), Chip8Error>) {
    if s.waiting {
        let k = first_key(s.keys, 0);
        if k < 16 {
            (Chip8Model {
                regs: s.regs.update(s.wait_reg as int, k as u8),
                waiting: false,
                pc: (s.pc + 2) as u16,
                ..s
            }, Ok(()))
        } else {
            (s, Ok(()))
        }
    } else if s.pc >= 4095 {
        (s, Err(Chip8Error::OutOfBounds))
    } else {
        let op = spec_fetch(s);
        match spec_decode(op) {
            Instruction::ClearScreen => (spec_cls(s), Ok(())),
            Instruction::Return => if s.sp == 0 {
                (s, Err(Chip8Error::StackUnderflow))
            } else {
                (spec_ret(s), Ok(()))
            },
            Instruction::Jump(_) => (spec_jump(s, op), Ok(())),
            Instruction::Call(_) => if s.sp == 16 {
                (s, Err(Chip8Error::StackOverflow))
            } else {
                (spec_call(s, op), Ok(()))
            },
            Instruction::SkipEqImm(_, _) => (spec_skip_eq_imm(s, op), Ok(())),
            Instruction::SkipNeImm(_, _) => (spec_skip_ne_imm(s, op), Ok(())),
            Instruction::SkipEqReg(_, _) => (spec_skip_eq_reg(s, op), Ok(())),
            Instruction::LoadImm(_, _) => (spec_load_imm(s, op), Ok(())),
            Instruction::AddImm(_, _) => (spec_add_imm(s, op), Ok(())),
            Instruction::MoveReg(_, _) => (spec_move_reg(s, op), Ok(())),
            Instruction::OrReg(_, _) => (spec_or_reg(s, op), Ok(())),
            Instruction::AndReg(_, _) => (spec_and_reg(s, op), Ok(())),
            Instruction::XorReg(_, _) => (spec_xor_reg(s, op), Ok(())),
            Instruction::AddReg(_, _) => (spec_add_reg(s, op), Ok(())),
            Instruction::SubReg(_, _) => (spec_sub_reg(s, op), Ok(())),
            Instruction::ShiftRight(_) => (spec_shr(s, op), Ok(())),
            Instruction::SubFrom(_, _) => (spec_sub_from(s, op), Ok(())),
            Instruction::ShiftLeft(_) => (spec_shl(s, op), Ok(())),
            Instruction::SkipNeReg(_, _) => (spec_skip_ne_reg(s, op), Ok(())),
            Instruction::LoadIndex(_) => (spec_load_index(s, op), Ok(())),
            Instruction::JumpPlusV0(_) => (spec_jump_v0(s, op), Ok(())),
            Instruction::Random(_, _) => (spec_random(s, op), Ok(())),
            Instruction::Draw(_, _, _) => (spec_draw(s, op), Ok(())),
            Instruction::SkipKeyPressed(_) => (spec_skip_key(s, op), Ok(())),
            Instruction::SkipKeyNotPressed(_) => (spec_skip_no_key(s, op), Ok(())),
            Instruction::LoadDelay(_) => (spec_load_delay(s, op), Ok(())),
            Instruction::WaitKey(_) => (spec_wait_key(s, op), Ok(())),
            Instruction::SetDelay(_) => (spec_set_delay(s, op), Ok(())),
            Instruction::SetSound(_) => (spec_set_sound(s, op), Ok(())),
            Instruction::AddIndex(_) => (spec_add_index(s, op), Ok(())),
            Instruction::LoadFontAddr(_) => (spec_load_font(s, op), Ok(())),
            Instruction::StoreBcd(_) => (spec_store_bcd(s, op), Ok(())),
            Instruction::StoreRegisters(_) => (spec_store_regs(s, op), Ok(())),
            Instruction::LoadRegisters(_) => (spec_load_regs(s, op), Ok(())),
            Instruction::Unknown(_) => (s, Err(Chip8Error::UnknownOpcode(op))),
        }
    }
}

fn zero_bytes(n: usize) -> (v: Vec<u8>)
    ensures
        v@ == Seq::new(n as nat, |i: int| 0u8),
{
    let mut v: Vec<u8> = Vec::new();
    let mut i: usize = 0;
    while i < n
        invariant
            i <= n,
            v@.len() == i,
            forall|k: int| 0 <= k < i ==> v@[k] == 0u8,
        decreases n - i,
    {
        v.push(0u8);
        i += 1;
    }
    proof {
        assert(v@ =~= Seq::new(n as nat, |i: int| 0u8));
    }
    v
}

fn zero_words(n: usize) -> (v: Vec<u16>)
    ensures
        v@ == Seq::new(n as nat, |i: int| 0u16),
{
    let mut v: Vec<u16> = Vec::new();
    let mut i: usize = 0;
    while i < n
        invariant
            i <= n,
            v@.len() == i,
            forall|k: int| 0 <= k < i ==> v@[k] == 0u16,
        decreases n - i,
    {
        v.push(0u16);
        i += 1;
    }
    proof {
        assert(v@ =~= Seq::new(n as nat, |i: int| 0u16));
    }
    v
}

fn false_flags(n: usize) -> (v: Vec<bool>)
    ensures
        v@ == Seq::new(n as nat, |i: int| false),
{
    let mut v: Vec<bool> = Vec::new();
    let mut i: usize = 0;
    while i < n
        invariant
            i <= n,
            v@.len() == i,
            forall|k: int| 0 <= k < i ==> v@[k] == false,
        decreases n - i,
    {
        v.push(false);
        i += 1;
    }
    proof {
        assert(v@ =~= Seq::new(n as nat, |i: int| false));
    }
    v
}

impl Chip8 {
    /// Build the machine from an 80-byte font table and a program image.
    /// The program must fit in memory above the reserved area; an image
    /// longer than 3584 bytes is rejected, never truncated.
    pub fn init_chip8(font_set: [u8; 80], rom: Vec<u8>) -> (r: Result<Chip8, Chip8Error>)
        ensures
            rom@.len() <= 3584 ==> (r matches Ok(c) && c@ == spec_init(font_set@, rom@)
                && c@.wf()),
            rom@.len() > 3584 ==> r == Err::<Chip8, Chip8Error>(Chip8Error::OversizedProgram),
    {
        if rom.len() > 3584 {
            return Err(Chip8Error::OversizedProgram);
        }
        let mut memory = zero_bytes(4096);
        let mut i: usize = 0;
        while i < 80
            invariant
                i <= 80,
                memory@.len() == 4096,
                forall|k: int| 0x50 <= k < 0x50 + i ==> memory@[k] == font_set@[k - 0x50],
                forall|k: int| 0 <= k < 4096 && !(0x50 <= k < 0x50 + i) ==> memory@[k] == 0u8,
            decreases 80 - i,
        {
            memory.set(0x50 + i, font_set[i]);
            i += 1;
        }
        let mut i: usize = 0;
        while i < rom.len()
            invariant
                i <= rom@.len() <= 3584,
                memory@.len() == 4096,
                forall|k: int| 0x50 <= k < 0xA0 ==> memory@[k] == font_set@[k - 0x50],
                forall|k: int| 512 <= k < 512 + i ==> memory@[k] == rom@[k - 512],
                forall|k: int|
                    0 <= k < 4096 && !(0x50 <= k < 0xA0) && !(512 <= k < 512 + i)
                        ==> memory@[k] == 0u8,
            decreases rom@.len() - i,
        {
            memory.set(512 + i, rom[i]);
            i += 1;
        }
        let c = Chip8 {
            memory,
            registers: zero_bytes(16),
            stack: zero_words(16),
            video: false_flags(2048),
            input: false_flags(16),
            opcode: 0,
            index: 0,
            pc: 512,
            sp: 0,
            delay_timer: 0,
            sound_timer: 0,
            waiting: false,
            wait_reg: 0,
            rng: 0x2A,
        };
        proof {
            assert(c@.mem =~= spec_init_mem(font_set@, rom@));
            assert(c@ =~= spec_init(font_set@, rom@));
        }
        Ok(c)
    }

    /// Reinitialize this machine in place from a font table and a program
    /// image, with the same contract as construction.
    pub fn load(&mut self, font_set: [u8; 80], rom: Vec<u8>) -> (r: Result<(), Chip8Error>)
        ensures
            rom@.len() <= 3584 ==> r == Ok::<(), Chip8Error>(())
                && final(self)@ == spec_init(font_set@, rom@) && final(self)@.wf(),
            rom@.len() > 3584 ==> r == Err::<(), Chip8Error>(Chip8Error::OversizedProgram)
                && final(self)@ == old(self)@,
    {
        match Self::init_chip8(font_set, rom) {
            Ok(c) => {
                *self = c;
                Ok(())
            },
            Err(e) => Err(e),
        }
    }

    /// One 60 Hz timer tick: decrement both timers, each floored at zero.
    pub fn tick_timers(&mut self)
        ensures
            final(self)@ == spec_tick(old(self)@),
    {
        if self.delay_timer > 0 {
            self.delay_timer = self.delay_timer - 1;
        }
        if self.sound_timer > 0 {
            self.sound_timer = self.sound_timer - 1;
        }
        proof {
            assert(self@ =~= spec_tick(old(self)@));
        }
    }

    /// Record one key as pressed or released; the host calls this between
    /// cycles as its input adapter observes the keyboard.
    pub fn set_key(&mut self, key: u8, pressed: bool)
        requires
            old(self)@.wf(),
            key < 16,
        ensures
            final(self)@.wf(),
            final(self)@ == (Chip8Model { keys: old(self)@.keys.update(key as int, pressed), ..old(self)@ }),
    {
        self.input.set(key as usize, pressed);
        proof {
            assert(self@ =~= (Chip8Model {
                keys: old(self)@.keys.update(key as int, pressed),
                ..old(self)@
            }));
        }
    }

    /// Read one display pixel; the host's renderer scans these once a frame.
    pub fn pixel(&self, x: usize, y: usize) -> (r: bool)
        requires
            self@.wf(),
            x < 64,
            y < 32,
        ensures
            r == self@.video[y as int * 64 + x as int],
    {
        self.video[y * 64 + x]
    }

    /// Whether a tone should be playing: the sound timer is still running.
    pub fn sound_active(&self) -> (r: bool)
        ensures
            r == (self@.sound > 0),
    {
        self.sound_timer > 0
    }

    /// Read the two bytes at the program counter as one big-endian
    /// instruction word, or report that the fetch would leave memory.
    pub fn fetch(&self) -> (r: Result<u16, Chip8Error>)
        requires
            self@.wf(),
        ensures
            self@.pc < 4095 ==> r == Ok::<u16, Chip8Error>(spec_fetch(self@)),
            self@.pc >= 4095 ==> r == Err::<u16, Chip8Error>(Chip8Error::OutOfBounds),
    {
        if self.pc >= 4095 {
            return Err(Chip8Error::OutOfBounds);
        }
        let hi = self.memory[self.pc as usize];
        let lo = self.memory[self.pc as usize + 1];
        Ok(((hi as u16) << 8) | (lo as u16))
    }

    /// Run one fetch-decode-execute cycle, or, while blocked on the
    /// wait-for-key opcode, consume the lowest pressed key (a no-op when
    /// none is). Every failure is returned and leaves the state unchanged.
    pub fn step(&mut self) -> (r: Result<(), Chip8Error>)
        requires
            old(self)@.wf(),
        ensures
            final(self)@.wf(),
            final(self)@ == spec_step(old(self)@).0,
            r == spec_step(old(self)@).1,
    {
        if self.waiting {
            let k = self.lowest_pressed();
            if k < 16 {
                self.registers.set(self.wait_reg as usize, k as u8);
                self.waiting = false;
                self.pc = self.pc + 2;
            }
            return Ok(());
        }
        let op = match self.fetch() {
            Ok(op) => op,
            Err(e) => {
                return Err(e);
            },
        };
        self.opcode = op;
        match decode(op) {
            Instruction::ClearScreen => {
                self.op_00E0();
                Ok(())
            },
            Instruction::Return => self.op_00EE(),
            Instruction::Jump(_) => {
                self.op_1NNN();
                Ok(())
            },
            Instruction::Call(_) => self.op_2NNN(),
            Instruction::SkipEqImm(_, _) => {
                self.op_3XNN();
                Ok(())
            },
            Instruction::SkipNeImm(_, _) => {
                self.op_4XNN();
                Ok(())
            },
            Instruction::SkipEqReg(_, _) => {
                self.op_5XY0();
                Ok(())
            },
            Instruction::LoadImm(_, _) => {
                self.op_6XNN();
                Ok(())
            },
            Instruction::AddImm(_, _) => {
                self.op_7XNN();
                Ok(())
            },
            Instruction::MoveReg(_, _) => {
                self.op_8XY0();
                Ok(())
            },
            Instruction::OrReg(_, _) => {
                self.op_8XY1();
                Ok(())
            },
            Instruction::AndReg(_, _) => {
                self.op_8XY2();
                Ok(())
            },
            Instruction::XorReg(_, _) => {
                self.op_8XY3();
                Ok(())
            },
            Instruction::AddReg(_, _) => {
                self.op_8XY4();
                Ok(())
            },
            Instruction::SubReg(_, _) => {
                self.op_8XY5();
                Ok(())
            },
            Instruction::ShiftRight(_) => {
                self.op_8XY6();
                Ok(())
            },
            Instruction::SubFrom(_, _) => {
                self.op_8XY7();
                Ok(())
            },
            Instruction::ShiftLeft(_) => {
                self.op_8XYE();
                Ok(())
            },
            Instruction::SkipNeReg(_, _) => {
                self.op_9XY0();
                Ok(())
            },
            Instruction::LoadIndex(_) => {
                self.op_ANNN();
                Ok(())
            },
            Instruction::JumpPlusV0(_) => {
                self.op_BNNN();
                Ok(())
            },
            Instruction::Random(_, _) => {
                self.op_CXNN();
                Ok(())
            },
            Instruction::Draw(_, _, _) => {
                self.op_DXYN();
                Ok(())
            },
            Instruction::SkipKeyPressed(_) => {
                self.op_EX9E();
                Ok(())
            },
            Instruction::SkipKeyNotPressed(_) => {
                self.op_EXA1();
                Ok(())
            },
            Instruction::LoadDelay(_) => {
                self.op_FX07();
                Ok(())
            },
            Instruction::WaitKey(_) => {
                self.op_FX0A();
                Ok(())
            },
            Instruction::SetDelay(_) => {
                self.op_FX15();
                Ok(())
            },
            Instruction::SetSound(_) => {
                self.op_FX18();
                Ok(())
            },
            Instruction::AddIndex(_) => {
                self.op_FX1E();
                Ok(())
            },
            Instruction::LoadFontAddr(_) => {
                self.op_FX29();
                Ok(())
            },
            Instruction::StoreBcd(_) => {
                self.op_FX33();
                Ok(())
            },
            Instruction::StoreRegisters(_) => {
                self.op_FX55();
                Ok(())
            },
            Instruction::LoadRegisters(_) => {
                self.op_FX65();
                Ok(())
            },
            Instruction::Unknown(_) => Err(Chip8Error::UnknownOpcode(op)),
        }
    }

    fn lowest_pressed(&self) -> (k: usize)
        requires
            self@.wf(),
        ensures
            k == first_key(self@.keys, 0),
            k <= 16,
    {
        let mut k: usize = 0;
        while k < 16 && !self.input[k]
            invariant
                k <= 16,
                self@.wf(),
                first_key(self@.keys, 0) == first_key(self@.keys, k as int),
            decreases 16 - k,
        {
            k += 1;
        }
        k
    }
}

} // verus!
