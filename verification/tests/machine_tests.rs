//! Whole-machine scenarios: construction, the step cycle, the call stack,
//! waiting for keys, timers, and the error outcomes.

use chip8_core::{Chip8, Chip8Error};

fn font() -> [u8; 80] {
    [
        0xF0, 0x90, 0x90, 0x90, 0xF0, // 0
        0x20, 0x60, 0x20, 0x20, 0x70, // 1
        0xF0, 0x10, 0xF0, 0x80, 0xF0, // 2
        0xF0, 0x10, 0xF0, 0x10, 0xF0, // 3
        0x90, 0x90, 0xF0, 0x10, 0x10, // 4
        0xF0, 0x80, 0xF0, 0x10, 0xF0, // 5
        0xF0, 0x80, 0xF0, 0x90, 0xF0, // 6
        0xF0, 0x10, 0x20, 0x40, 0x40, // 7
        0xF0, 0x90, 0xF0, 0x90, 0xF0, // 8
        0xF0, 0x90, 0xF0, 0x10, 0xF0, // 9
        0xF0, 0x90, 0xF0, 0x90, 0x90, // A
        0xE0, 0x90, 0xE0, 0x90, 0xE0, // B
        0xF0, 0x80, 0x80, 0x80, 0xF0, // C
        0xE0, 0x90, 0x90, 0x90, 0xE0, // D
        0xF0, 0x80, 0xF0, 0x80, 0xF0, // E
        0xF0, 0x80, 0xF0, 0x80, 0x80, // F
    ]
}

fn machine(rom: &[u8]) -> Chip8 {
    Chip8::init_chip8(font(), rom.to_vec()).expect("program fits")
}

#[test]
fn init_loads_font_program_and_zeroes_state() {
    let c = machine(&[0x12, 0x34]);
    assert_eq!(c.memory.len(), 4096);
    assert_eq!(c.memory[0x50], 0xF0);
    assert_eq!(c.memory[0x9F], 0x80);
    assert_eq!(c.memory[0x200], 0x12);
    assert_eq!(c.memory[0x201], 0x34);
    assert_eq!(c.memory[0x202], 0x00);
    assert_eq!(c.pc, 0x200);
    assert_eq!(c.sp, 0);
    assert_eq!(c.index, 0);
    assert!(c.registers.iter().all(|&v| v == 0));
    assert!(c.video.iter().all(|&p| !p));
    assert!(c.input.iter().all(|&k| !k));
    assert_eq!(c.delay_timer, 0);
    assert_eq!(c.sound_timer, 0);
    assert!(!c.waiting);
}

#[test]
fn init_rejects_oversized_program() {
    let big = vec![0u8; 3585];
    assert!(matches!(
        Chip8::init_chip8(font(), big),
        Err(Chip8Error::OversizedProgram)
    ));
    let largest = vec![0u8; 3584];
    assert!(Chip8::init_chip8(font(), largest).is_ok());
}

#[test]
fn load_reinitializes_in_place() {
    let mut c = machine(&[0x60, 0x07]);
    assert_eq!(c.step(), Ok(()));
    assert_eq!(c.registers[0], 7);
    assert_eq!(c.load(font(), vec![0x61, 0x09]), Ok(()));
    assert_eq!(c.registers[0], 0);
    assert_eq!(c.pc, 0x200);
    assert_eq!(c.step(), Ok(()));
    assert_eq!(c.registers[1], 9);
}

#[test]
fn load_v0_scenario() {
    // memory[0x200..0x202] = 0x6005: one step loads 5 into V0 and moves on.
    let mut c = machine(&[0x60, 0x05]);
    assert_eq!(c.step(), Ok(()));
    assert_eq!(c.registers[0], 5);
    assert_eq!(c.pc, 0x202);
}

#[test]
fn clear_screen_scenario() {
    // memory[0x200..0x202] = 0x00E0 with a lit pixel: one step darkens all.
    let mut c = machine(&[0x00, 0xE0]);
    c.video[77] = true;
    c.video[2047] = true;
    assert_eq!(c.step(), Ok(()));
    assert!(c.video.iter().all(|&p| !p));
    assert_eq!(c.video.len(), 2048);
    assert_eq!(c.pc, 0x202);
}

#[test]
fn unknown_opcode_scenario() {
    // 0x5555 matches no shape: reported, program counter untouched.
    let mut c = machine(&[0x55, 0x55]);
    assert_eq!(c.step(), Err(Chip8Error::UnknownOpcode(0x5555)));
    assert_eq!(c.pc, 0x200);
}

#[test]
fn fetch_out_of_bounds() {
    let mut c = machine(&[0x60, 0x05]);
    c.pc = 4095;
    assert_eq!(c.step(), Err(Chip8Error::OutOfBounds));
    assert_eq!(c.pc, 4095);
}

#[test]
fn call_then_return_round_trip() {
    // 0x200: call 0x206; 0x206: return. Two steps land just after the call.
    let mut c = machine(&[0x22, 0x06, 0x00, 0x00, 0x00, 0x00, 0x00, 0xEE]);
    assert_eq!(c.step(), Ok(()));
    assert_eq!(c.pc, 0x206);
    assert_eq!(c.sp, 1);
    assert_eq!(c.step(), Ok(()));
    assert_eq!(c.pc, 0x202);
    assert_eq!(c.sp, 0);
}

#[test]
fn seventeenth_call_overflows_stack() {
    // 0x200: call 0x200, forever: sixteen calls fill the stack, the
    // seventeenth fails.
    let mut c = machine(&[0x22, 0x00]);
    for i in 0..16 {
        assert_eq!(c.step(), Ok(()), "call {} should fit", i + 1);
    }
    assert_eq!(c.sp, 16);
    assert_eq!(c.step(), Err(Chip8Error::StackOverflow));
    assert_eq!(c.sp, 16);
    assert_eq!(c.pc, 0x200);
}

#[test]
fn return_without_call_underflows_stack() {
    let mut c = machine(&[0x00, 0xEE]);
    assert_eq!(c.step(), Err(Chip8Error::StackUnderflow));
    assert_eq!(c.sp, 0);
    assert_eq!(c.pc, 0x200);
}

#[test]
fn wait_key_blocks_until_press() {
    let mut c = machine(&[0xF2, 0x0A, 0x60, 0x01]);
    assert_eq!(c.step(), Ok(()));
    assert!(c.waiting);
    assert_eq!(c.pc, 0x200);
    // No key pressed: stepping is a no-op.
    assert_eq!(c.step(), Ok(()));
    assert!(c.waiting);
    assert_eq!(c.pc, 0x200);
    assert_eq!(c.registers[2], 0);
    // A key press is consumed into V2 and execution resumes.
    c.set_key(7, true);
    assert_eq!(c.step(), Ok(()));
    assert!(!c.waiting);
    assert_eq!(c.registers[2], 7);
    assert_eq!(c.pc, 0x202);
    assert_eq!(c.step(), Ok(()));
    assert_eq!(c.registers[0], 1);
}

#[test]
fn wait_key_takes_lowest_pressed() {
    let mut c = machine(&[0xF0, 0x0A]);
    assert_eq!(c.step(), Ok(()));
    c.set_key(9, true);
    c.set_key(3, true);
    assert_eq!(c.step(), Ok(()));
    assert_eq!(c.registers[0], 3);
}

#[test]
fn timers_tick_down_to_zero() {
    let mut c = machine(&[0x00, 0xE0]);
    c.delay_timer = 2;
    c.sound_timer = 1;
    assert!(c.sound_active());
    c.tick_timers();
    assert_eq!(c.delay_timer, 1);
    assert_eq!(c.sound_timer, 0);
    assert!(!c.sound_active());
    c.tick_timers();
    assert_eq!(c.delay_timer, 0);
    assert_eq!(c.sound_timer, 0);
    c.tick_timers();
    assert_eq!(c.delay_timer, 0);
}

#[test]
fn pixel_reads_the_display_grid() {
    let mut c = machine(&[0x00, 0xE0]);
    c.video[3 * 64 + 10] = true;
    assert!(c.pixel(10, 3));
    assert!(!c.pixel(11, 3));
}

#[test]
fn skip_timing_taken_and_not_taken() {
    // With V0 == 5, 0x3005 skips (PC advances 4); 0x3006 does not (PC
    // advances 2).
    let mut c = machine(&[0x30, 0x05]);
    c.registers[0] = 5;
    assert_eq!(c.step(), Ok(()));
    assert_eq!(c.pc, 0x204);

    let mut c = machine(&[0x30, 0x06]);
    c.registers[0] = 5;
    assert_eq!(c.step(), Ok(()));
    assert_eq!(c.pc, 0x202);
}

#[test]
fn random_is_masked_and_reproducible() {
    // The generator is seeded at construction, so the first draw of a
    // random byte is a fixed value; NN masks it.
    let mut a = machine(&[0xC0, 0xFF]);
    assert_eq!(a.step(), Ok(()));
    assert_eq!(a.registers[0], 0x35);

    let mut b = machine(&[0xC0, 0x0F]);
    assert_eq!(b.step(), Ok(()));
    assert_eq!(b.registers[0], 0x35 & 0x0F);

    let mut z = machine(&[0xC0, 0x00]);
    assert_eq!(z.step(), Ok(()));
    assert_eq!(z.registers[0], 0);
}

#[test]
fn key_skip_instructions_follow_keypad() {
    // EX9E skips only when the key is pressed; EXA1 only when it is not.
    let mut c = machine(&[0xE0, 0x9E]);
    c.registers[0] = 4;
    c.set_key(4, true);
    assert_eq!(c.step(), Ok(()));
    assert_eq!(c.pc, 0x204);

    let mut c = machine(&[0xE0, 0x9E]);
    c.registers[0] = 4;
    assert_eq!(c.step(), Ok(()));
    assert_eq!(c.pc, 0x202);

    let mut c = machine(&[0xE0, 0xA1]);
    c.registers[0] = 4;
    assert_eq!(c.step(), Ok(()));
    assert_eq!(c.pc, 0x204);

    let mut c = machine(&[0xE0, 0xA1]);
    c.registers[0] = 4;
    c.set_key(4, true);
    assert_eq!(c.step(), Ok(()));
    assert_eq!(c.pc, 0x202);
}

#[test]
fn draw_font_sprite_and_collision() {
    // Point I at the font glyph for 0, draw it twice at (0, 0): the second
    // draw erases every pixel and reports the collision in VF.
    let mut c = machine(&[0xF0, 0x29, 0xD0, 0x05, 0xD0, 0x05]);
    assert_eq!(c.step(), Ok(()));
    assert_eq!(c.index, 0x50);
    assert_eq!(c.step(), Ok(()));
    // The glyph for 0 is 0xF0 0x90 0x90 0x90 0xF0: its top row lights
    // pixels (0..4, 0).
    assert!(c.pixel(0, 0) && c.pixel(1, 0) && c.pixel(2, 0) && c.pixel(3, 0));
    assert!(!c.pixel(4, 0));
    assert!(c.pixel(0, 1) && !c.pixel(1, 1) && c.pixel(3, 1));
    assert_eq!(c.registers[0xF], 0);
    assert_eq!(c.step(), Ok(()));
    assert!(c.video.iter().all(|&p| !p));
    assert_eq!(c.registers[0xF], 1);
}

#[test]
fn draw_wraps_coordinates() {
    // Drawing at (62, 30) wraps both across the right edge and the bottom.
    let mut c = machine(&[0xF0, 0x29, 0xD1, 0x22]);
    c.registers[1] = 62;
    c.registers[2] = 30;
    assert_eq!(c.step(), Ok(()));
    assert_eq!(c.step(), Ok(()));
    // Row 0 of the glyph (0xF0) lights columns 62, 63, 0, 1 of row 30.
    assert!(c.pixel(62, 30) && c.pixel(63, 30) && c.pixel(0, 30) && c.pixel(1, 30));
    // Row 1 (0x90) wraps to row 31: columns 62 and 1.
    assert!(c.pixel(62, 31) && !c.pixel(63, 31) && c.pixel(1, 31));
}

#[test]
fn store_bcd_writes_digits() {
    // FX33 on VX = 234 writes 2, 3, 4 at I, I+1, I+2.
    let mut c = machine(&[0xF3, 0x33]);
    c.registers[3] = 234;
    c.index = 0x300;
    assert_eq!(c.step(), Ok(()));
    assert_eq!(c.memory[0x300], 2);
    assert_eq!(c.memory[0x301], 3);
    assert_eq!(c.memory[0x302], 4);
}

#[test]
fn store_then_load_registers_round_trip() {
    // FX55 writes V0..V3 to memory; FX65 restores them into zeroed
    // registers.
    let mut c = machine(&[0xF3, 0x55, 0xF3, 0x65]);
    c.registers[0] = 11;
    c.registers[1] = 22;
    c.registers[2] = 33;
    c.registers[3] = 44;
    c.index = 0x400;
    assert_eq!(c.step(), Ok(()));
    assert_eq!(&c.memory[0x400..0x404], &[11, 22, 33, 44]);
    for i in 0..4 {
        c.registers[i] = 0;
    }
    assert_eq!(c.step(), Ok(()));
    assert_eq!(c.registers[0], 11);
    assert_eq!(c.registers[1], 22);
    assert_eq!(c.registers[2], 33);
    assert_eq!(c.registers[3], 44);
    assert_eq!(c.registers[4], 0);
}
