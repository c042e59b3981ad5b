//! Per-opcode behaviour: decoding, arithmetic and flag rules, register
//! moves, jumps, and the index-register instructions.

use chip8_core::{Chip8, Instruction};
use chip8_core::chip8::decode::decode;

fn machine(rom: &[u8]) -> Chip8 {
    Chip8::init_chip8([0u8; 80], rom.to_vec()).expect("program fits")
}

#[test]
fn decode_covers_every_family() {
    assert_eq!(decode(0x00E0), Instruction::ClearScreen);
    assert_eq!(decode(0x00EE), Instruction::Return);
    assert_eq!(decode(0x1ABC), Instruction::Jump(0xABC));
    assert_eq!(decode(0x2ABC), Instruction::Call(0xABC));
    assert_eq!(decode(0x3A7F), Instruction::SkipEqImm(0xA, 0x7F));
    assert_eq!(decode(0x4A7F), Instruction::SkipNeImm(0xA, 0x7F));
    assert_eq!(decode(0x5AB0), Instruction::SkipEqReg(0xA, 0xB));
    assert_eq!(decode(0x6A7F), Instruction::LoadImm(0xA, 0x7F));
    assert_eq!(decode(0x7A7F), Instruction::AddImm(0xA, 0x7F));
    assert_eq!(decode(0x8AB0), Instruction::MoveReg(0xA, 0xB));
    assert_eq!(decode(0x8AB1), Instruction::OrReg(0xA, 0xB));
    assert_eq!(decode(0x8AB2), Instruction::AndReg(0xA, 0xB));
    assert_eq!(decode(0x8AB3), Instruction::XorReg(0xA, 0xB));
    assert_eq!(decode(0x8AB4), Instruction::AddReg(0xA, 0xB));
    assert_eq!(decode(0x8AB5), Instruction::SubReg(0xA, 0xB));
    assert_eq!(decode(0x8AB6), Instruction::ShiftRight(0xA));
    assert_eq!(decode(0x8AB7), Instruction::SubFrom(0xA, 0xB));
    assert_eq!(decode(0x8ABE), Instruction::ShiftLeft(0xA));
    assert_eq!(decode(0x9AB0), Instruction::SkipNeReg(0xA, 0xB));
    assert_eq!(decode(0xAABC), Instruction::LoadIndex(0xABC));
    assert_eq!(decode(0xBABC), Instruction::JumpPlusV0(0xABC));
    assert_eq!(decode(0xCA7F), Instruction::Random(0xA, 0x7F));
    assert_eq!(decode(0xDAB7), Instruction::Draw(0xA, 0xB, 0x7));
    assert_eq!(decode(0xEA9E), Instruction::SkipKeyPressed(0xA));
    assert_eq!(decode(0xEAA1), Instruction::SkipKeyNotPressed(0xA));
    assert_eq!(decode(0xFA07), Instruction::LoadDelay(0xA));
    assert_eq!(decode(0xFA0A), Instruction::WaitKey(0xA));
    assert_eq!(decode(0xFA15), Instruction::SetDelay(0xA));
    assert_eq!(decode(0xFA18), Instruction::SetSound(0xA));
    assert_eq!(decode(0xFA1E), Instruction::AddIndex(0xA));
    assert_eq!(decode(0xFA29), Instruction::LoadFontAddr(0xA));
    assert_eq!(decode(0xFA33), Instruction::StoreBcd(0xA));
    assert_eq!(decode(0xFA55), Instruction::StoreRegisters(0xA));
    assert_eq!(decode(0xFA65), Instruction::LoadRegisters(0xA));
    assert_eq!(decode(0x5555), Instruction::Unknown(0x5555));
    assert_eq!(decode(0x8AB8), Instruction::Unknown(0x8AB8));
    assert_eq!(decode(0xE000), Instruction::Unknown(0xE000));
    assert_eq!(decode(0xFA99), Instruction::Unknown(0xFA99));
    assert_eq!(decode(0x0123), Instruction::Unknown(0x0123));
}

#[test]
fn add_with_carry_flag() {
    // 200 + 100 overflows 8 bits: the sum wraps and VF is 1.
    let mut c = machine(&[0x80, 0x14]);
    c.registers[0] = 200;
    c.registers[1] = 100;
    assert_eq!(c.step(), Ok(()));
    assert_eq!(c.registers[0], 44);
    assert_eq!(c.registers[0xF], 1);

    // 100 + 100 does not: VF is 0.
    let mut c = machine(&[0x80, 0x14]);
    c.registers[0] = 100;
    c.registers[1] = 100;
    assert_eq!(c.step(), Ok(()));
    assert_eq!(c.registers[0], 200);
    assert_eq!(c.registers[0xF], 0);

    // The boundary: 255 + 0 stays put with VF 0; 255 + 1 wraps with VF 1.
    let mut c = machine(&[0x80, 0x14]);
    c.registers[0] = 255;
    c.registers[1] = 1;
    assert_eq!(c.step(), Ok(()));
    assert_eq!(c.registers[0], 0);
    assert_eq!(c.registers[0xF], 1);
}

#[test]
fn sub_with_borrow_flag() {
    // 20 - 10: no borrow, VF is 1.
    let mut c = machine(&[0x80, 0x15]);
    c.registers[0] = 20;
    c.registers[1] = 10;
    assert_eq!(c.step(), Ok(()));
    assert_eq!(c.registers[0], 10);
    assert_eq!(c.registers[0xF], 1);

    // 10 - 20: borrow, the result wraps, VF is 0.
    let mut c = machine(&[0x80, 0x15]);
    c.registers[0] = 10;
    c.registers[1] = 20;
    assert_eq!(c.step(), Ok(()));
    assert_eq!(c.registers[0], 246);
    assert_eq!(c.registers[0xF], 0);

    // Equal values: VX >= VY, so VF is 1 and the result is 0.
    let mut c = machine(&[0x80, 0x15]);
    c.registers[0] = 7;
    c.registers[1] = 7;
    assert_eq!(c.step(), Ok(()));
    assert_eq!(c.registers[0], 0);
    assert_eq!(c.registers[0xF], 1);
}

#[test]
fn sub_from_reverses_operands() {
    let mut c = machine(&[0x80, 0x17]);
    c.registers[0] = 10;
    c.registers[1] = 30;
    assert_eq!(c.step(), Ok(()));
    assert_eq!(c.registers[0], 20);
    assert_eq!(c.registers[0xF], 1);

    let mut c = machine(&[0x80, 0x17]);
    c.registers[0] = 30;
    c.registers[1] = 10;
    assert_eq!(c.step(), Ok(()));
    assert_eq!(c.registers[0], 236);
    assert_eq!(c.registers[0xF], 0);
}

#[test]
fn carry_flag_written_after_destination() {
    // When VF is itself the destination, the flag overwrites the sum.
    let mut c = machine(&[0x8F, 0x14]);
    c.registers[0xF] = 200;
    c.registers[1] = 100;
    assert_eq!(c.step(), Ok(()));
    assert_eq!(c.registers[0xF], 1);
}

#[test]
fn shifts_record_the_outgoing_bit() {
    let mut c = machine(&[0x80, 0x16]);
    c.registers[0] = 0b1001_0011;
    assert_eq!(c.step(), Ok(()));
    assert_eq!(c.registers[0], 0b0100_1001);
    assert_eq!(c.registers[0xF], 1);

    let mut c = machine(&[0x80, 0x16]);
    c.registers[0] = 0b1001_0010;
    assert_eq!(c.step(), Ok(()));
    assert_eq!(c.registers[0], 0b0100_1001);
    assert_eq!(c.registers[0xF], 0);

    let mut c = machine(&[0x80, 0x1E]);
    c.registers[0] = 0b1001_0011;
    assert_eq!(c.step(), Ok(()));
    assert_eq!(c.registers[0], 0b0010_0110);
    assert_eq!(c.registers[0xF], 1);

    let mut c = machine(&[0x80, 0x1E]);
    c.registers[0] = 0b0001_0011;
    assert_eq!(c.step(), Ok(()));
    assert_eq!(c.registers[0], 0b0010_0110);
    assert_eq!(c.registers[0xF], 0);
}

#[test]
fn bitwise_ops_combine_registers() {
    let mut c = machine(&[0x80, 0x11]);
    c.registers[0] = 0b1100;
    c.registers[1] = 0b1010;
    assert_eq!(c.step(), Ok(()));
    assert_eq!(c.registers[0], 0b1110);

    let mut c = machine(&[0x80, 0x12]);
    c.registers[0] = 0b1100;
    c.registers[1] = 0b1010;
    assert_eq!(c.step(), Ok(()));
    assert_eq!(c.registers[0], 0b1000);

    let mut c = machine(&[0x80, 0x13]);
    c.registers[0] = 0b1100;
    c.registers[1] = 0b1010;
    assert_eq!(c.step(), Ok(()));
    assert_eq!(c.registers[0], 0b0110);
}

#[test]
fn move_and_add_immediate_wrap() {
    let mut c = machine(&[0x80, 0x10]);
    c.registers[1] = 99;
    assert_eq!(c.step(), Ok(()));
    assert_eq!(c.registers[0], 99);

    // 7XNN wraps and leaves VF alone.
    let mut c = machine(&[0x70, 0x05]);
    c.registers[0] = 253;
    c.registers[0xF] = 9;
    assert_eq!(c.step(), Ok(()));
    assert_eq!(c.registers[0], 2);
    assert_eq!(c.registers[0xF], 9);
}

#[test]
fn jumps_set_the_program_counter() {
    let mut c = machine(&[0x13, 0x45]);
    assert_eq!(c.step(), Ok(()));
    assert_eq!(c.pc, 0x345);

    let mut c = machine(&[0xB3, 0x45]);
    c.registers[0] = 7;
    assert_eq!(c.step(), Ok(()));
    assert_eq!(c.pc, 0x345 + 7);
}

#[test]
fn skip_on_register_compare() {
    let mut c = machine(&[0x50, 0x10]);
    c.registers[0] = 3;
    c.registers[1] = 3;
    assert_eq!(c.step(), Ok(()));
    assert_eq!(c.pc, 0x204);

    let mut c = machine(&[0x90, 0x10]);
    c.registers[0] = 3;
    c.registers[1] = 3;
    assert_eq!(c.step(), Ok(()));
    assert_eq!(c.pc, 0x202);

    let mut c = machine(&[0x40, 0x07]);
    c.registers[0] = 3;
    assert_eq!(c.step(), Ok(()));
    assert_eq!(c.pc, 0x204);
}

#[test]
fn index_register_instructions() {
    let mut c = machine(&[0xA1, 0x23]);
    assert_eq!(c.step(), Ok(()));
    assert_eq!(c.index, 0x123);

    // FX1E adds VX, masked to 12 bits.
    let mut c = machine(&[0xF0, 0x1E]);
    c.index = 0xFFE;
    c.registers[0] = 5;
    assert_eq!(c.step(), Ok(()));
    assert_eq!(c.index, 0x003);

    // FX29 points at the 5-byte glyph for the digit in VX.
    let mut c = machine(&[0xF7, 0x29]);
    c.registers[7] = 0xB;
    assert_eq!(c.step(), Ok(()));
    assert_eq!(c.index, 0x50 + 0xB * 5);
}

#[test]
fn timer_transfer_instructions() {
    let mut c = machine(&[0xF0, 0x07]);
    c.delay_timer = 42;
    assert_eq!(c.step(), Ok(()));
    assert_eq!(c.registers[0], 42);

    let mut c = machine(&[0xF0, 0x15]);
    c.registers[0] = 9;
    assert_eq!(c.step(), Ok(()));
    assert_eq!(c.delay_timer, 9);

    let mut c = machine(&[0xF0, 0x18]);
    c.registers[0] = 4;
    assert_eq!(c.step(), Ok(()));
    assert_eq!(c.sound_timer, 4);
    assert!(c.sound_active());
}

#[test]
fn draw_with_zero_height_changes_nothing() {
    let mut c = machine(&[0xD0, 0x00]);
    c.registers[0xF] = 1;
    assert_eq!(c.step(), Ok(()));
    assert!(c.video.iter().all(|&p| !p));
    assert_eq!(c.registers[0xF], 0);
    assert_eq!(c.pc, 0x202);
}

#[test]
fn store_single_register() {
    let mut c = machine(&[0xF0, 0x55]);
    c.registers[0] = 0xAB;
    c.registers[1] = 0xCD;
    c.index = 0x300;
    assert_eq!(c.step(), Ok(()));
    assert_eq!(c.memory[0x300], 0xAB);
    assert_eq!(c.memory[0x301], 0x00);
}

#[test]
fn random_bytes_differ_between_draws() {
    // The generator advances with each draw: two draws in a row give the
    // fixed first and second bytes of the stream.
    let mut c = machine(&[0xC0, 0xFF, 0xC1, 0xFF]);
    assert_eq!(c.step(), Ok(()));
    assert_eq!(c.step(), Ok(()));
    assert_eq!(c.registers[0], 0x35);
    assert_eq!(c.registers[1], 0xD7);
}

#[test]
fn bcd_digits_of_small_values() {
    let mut c = machine(&[0xF0, 0x33]);
    c.registers[0] = 7;
    c.index = 0x250;
    assert_eq!(c.step(), Ok(()));
    assert_eq!(&c.memory[0x250..0x253], &[0, 0, 7]);

    let mut c = machine(&[0xF0, 0x33]);
    c.registers[0] = 255;
    c.index = 0x250;
    assert_eq!(c.step(), Ok(()));
    assert_eq!(&c.memory[0x250..0x253], &[2, 5, 5]);
}
