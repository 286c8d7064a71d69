use chip8::interpreter::{decode, Op, StepOutcome};
use chip8::machine::{Chip8, LoadError, FONT_START_ADDRESS, MAX_PROGRAM_SIZE};

fn machine_with(program: &[u8]) -> Chip8 {
    let mut m = Chip8::new();
    m.load_rom(program).unwrap();
    m
}

fn run(program: &[u8]) -> (Chip8, StepOutcome) {
    let mut m = machine_with(program);
    let out = m.execute_instruction_with_random(0);
    (m, out)
}

#[test]
fn new_machine_is_initialised() {
    let m = Chip8::new();
    assert_eq!(m.pc, 0x200);
    assert_eq!(m.i, 0);
    assert_eq!(m.memory.len(), 4096);
    assert_eq!(m.v, vec![0u8; 16]);
    assert_eq!(m.video_memory, vec![0u8; 256]);
    assert!(m.stack.is_empty());
    assert_eq!(&m.memory[0x50..0x55], &[0xF0, 0x90, 0x90, 0x90, 0xF0]);
    assert_eq!(&m.memory[0x9B..0xA0], &[0xF0, 0x80, 0xF0, 0x80, 0x80]);
    assert_eq!(m.memory[0x4F], 0);
    assert_eq!(m.memory[0xA0], 0);
}

#[test]
fn load_rom_copies_bytes_at_program_start() {
    let m = machine_with(&[0x12, 0x34, 0x56]);
    assert_eq!(&m.memory[0x1FF..0x204], &[0, 0x12, 0x34, 0x56, 0]);
}

#[test]
fn load_rom_accepts_largest_program() {
    let mut m = Chip8::new();
    let program = vec![0xAAu8; MAX_PROGRAM_SIZE];
    assert_eq!(m.load_rom(&program), Ok(()));
    assert_eq!(m.memory[4095], 0xAA);
}

#[test]
fn load_rom_rejects_oversized_program() {
    let mut m = Chip8::new();
    let program = vec![0xAAu8; 4096 - 0x200 + 1];
    assert_eq!(m.load_rom(&program), Err(LoadError::TooLarge));
    assert_eq!(m.memory[0x200], 0);
}

#[test]
fn read_instruction_is_big_endian_and_wraps() {
    let mut mem = vec![0u8; 4096];
    mem[0x200] = 0xAB;
    mem[0x201] = 0xCD;
    mem[0xFFF] = 0x12;
    mem[0] = 0x34;
    assert_eq!(Chip8::read_instruction(&mem, 0x200), 0xABCD);
    assert_eq!(Chip8::read_instruction(&mem, 0xFFF), 0x1234);
}

#[test]
fn decode_table() {
    assert_eq!(decode(0x00E0), Some(Op::ClearScreen));
    assert_eq!(decode(0x00EE), Some(Op::Return));
    assert_eq!(decode(0x1ABC), Some(Op::Jump { addr: 0xABC }));
    assert_eq!(decode(0x8AB4), Some(Op::AddRegisters { x: 0xA, y: 0xB }));
    assert_eq!(decode(0xD125), Some(Op::Draw { x: 1, y: 2, n: 5 }));
    assert_eq!(decode(0xF529), Some(Op::FontCharacter { x: 5 }));
    assert_eq!(decode(0x5121), None);
    assert_eq!(decode(0x8008), None);
    assert_eq!(decode(0xFFFF), None);
    assert_eq!(decode(0x0123), None);
}

#[test]
fn unknown_instruction_is_reported() {
    let (m, out) = run(&[0xFF, 0xFF]);
    assert_eq!(out, StepOutcome::UnknownInstruction { instruction: 0xFFFF, address: 0x200 });
    assert_eq!(m.pc, 0x202);
}

#[test]
fn add_immediate_wraps_without_flag() {
    let mut m = machine_with(&[0x73, 0x0A]);
    m.v[3] = 250;
    m.v[15] = 7;
    assert_eq!(m.execute_instruction_with_random(0), StepOutcome::Continue);
    assert_eq!(m.v[3], 4);
    assert_eq!(m.v[15], 7);
    assert_eq!(m.pc, 0x202);
}

#[test]
fn add_registers_sets_carry() {
    let mut m = machine_with(&[0x81, 0x24, 0x81, 0x24]);
    m.v[1] = 200;
    m.v[2] = 100;
    m.execute_instruction_with_random(0);
    assert_eq!(m.v[1], 44);
    assert_eq!(m.v[15], 1);
    m.v[1] = 100;
    m.execute_instruction_with_random(0);
    assert_eq!(m.v[1], 200);
    assert_eq!(m.v[15], 0);
}

#[test]
fn subtract_sets_no_borrow_flag() {
    let mut m = machine_with(&[0x81, 0x25, 0x81, 0x25]);
    m.v[1] = 10;
    m.v[2] = 3;
    m.execute_instruction_with_random(0);
    assert_eq!(m.v[1], 7);
    assert_eq!(m.v[15], 1);
    m.v[1] = 3;
    m.v[2] = 10;
    m.execute_instruction_with_random(0);
    assert_eq!(m.v[1], 249);
    assert_eq!(m.v[15], 0);
}

#[test]
fn subtract_from_reverses_operands() {
    let mut m = machine_with(&[0x81, 0x27]);
    m.v[1] = 10;
    m.v[2] = 3;
    m.execute_instruction_with_random(0);
    assert_eq!(m.v[1], 249);
    assert_eq!(m.v[15], 0);
}

#[test]
fn shifts_move_the_lost_bit_to_flag() {
    let mut m = machine_with(&[0x81, 0x06, 0x82, 0x0E]);
    m.v[1] = 0b0000_0101;
    m.v[2] = 0b1000_0001;
    m.execute_instruction_with_random(0);
    assert_eq!(m.v[1], 0b0000_0010);
    assert_eq!(m.v[15], 1);
    m.execute_instruction_with_random(0);
    assert_eq!(m.v[2], 0b0000_0010);
    assert_eq!(m.v[15], 1);
}

#[test]
fn bitwise_operations() {
    let mut m = machine_with(&[0x81, 0x21, 0x83, 0x22, 0x84, 0x23, 0x85, 0x20]);
    m.v[1] = 0b1100;
    m.v[2] = 0b1010;
    m.v[3] = 0b1100;
    m.v[4] = 0b1100;
    for _ in 0..4 {
        m.execute_instruction_with_random(0);
    }
    assert_eq!(m.v[1], 0b1110);
    assert_eq!(m.v[3], 0b1000);
    assert_eq!(m.v[4], 0b0110);
    assert_eq!(m.v[5], 0b1010);
    assert_eq!(m.v[2], 0b1010);
}

#[test]
fn skips_advance_past_next_instruction() {
    let mut m = machine_with(&[0x31, 0x05, 0x00, 0x00, 0x41, 0x05, 0x51, 0x20, 0x00, 0x00, 0x91, 0x20]);
    m.v[1] = 5;
    m.v[2] = 5;
    m.execute_instruction_with_random(0);
    assert_eq!(m.pc, 0x204);
    m.execute_instruction_with_random(0);
    assert_eq!(m.pc, 0x206);
    m.execute_instruction_with_random(0);
    assert_eq!(m.pc, 0x20A);
    m.execute_instruction_with_random(0);
    assert_eq!(m.pc, 0x20C);
}

#[test]
fn jump_call_and_offset_jump() {
    let mut m = machine_with(&[0x23, 0x00]);
    m.execute_instruction_with_random(0);
    assert_eq!(m.pc, 0x300);
    assert_eq!(m.stack, vec![0x202]);
    m.memory[0x300] = 0xB4;
    m.memory[0x301] = 0x00;
    m.v[0] = 0x10;
    m.execute_instruction_with_random(0);
    assert_eq!(m.pc, 0x410);
    m.memory[0x410] = 0x15;
    m.memory[0x411] = 0x00;
    m.execute_instruction_with_random(0);
    assert_eq!(m.pc, 0x500);
}

#[test]
fn jump_to_self_halts() {
    let (_, out) = run(&[0x12, 0x00]);
    assert_eq!(out, StepOutcome::Halted);
}

#[test]
fn placeholders_change_nothing_but_pc() {
    let mut m = machine_with(&[0x00, 0xE0, 0x00, 0xEE]);
    m.video_memory[0] = 0xFF;
    m.stack.push(0x400);
    m.execute_instruction_with_random(0);
    m.execute_instruction_with_random(0);
    assert_eq!(m.video_memory[0], 0xFF);
    assert_eq!(m.stack, vec![0x400]);
    assert_eq!(m.pc, 0x204);
}

#[test]
fn random_is_masked_by_immediate() {
    let mut m = machine_with(&[0xC3, 0x0F]);
    m.execute_instruction_with_random(0xAB);
    assert_eq!(m.v[3], 0x0B);
}

#[test]
fn random_from_generator_is_masked() {
    let mut m = machine_with(&[0xC3, 0x0F, 0xC4, 0x00]);
    m.v[4] = 0xFF;
    m.execute_instruction();
    m.execute_instruction();
    assert!(m.v[3] <= 0x0F);
    assert_eq!(m.v[4], 0);
}

#[test]
fn index_operations() {
    let mut m = machine_with(&[0xA1, 0x23, 0xF2, 0x1E, 0xF3, 0x1E]);
    m.v[2] = 0x10;
    m.v[3] = 0xFF;
    m.execute_instruction_with_random(0);
    assert_eq!(m.i, 0x123);
    m.execute_instruction_with_random(0);
    assert_eq!(m.i, 0x133);
    m.i = 0xFF0;
    m.execute_instruction_with_random(0);
    assert_eq!(m.i, 0x0EF);
}

#[test]
fn font_lookup() {
    let mut m = machine_with(&[0xF5, 0x29]);
    m.v[5] = 0xA;
    m.execute_instruction_with_random(0);
    assert_eq!(m.i, 0x082);
    assert_eq!(m.i, FONT_START_ADDRESS + 0xA * 5);
}

#[test]
fn binary_coded_decimal() {
    let mut m = machine_with(&[0xF4, 0x33]);
    m.v[4] = 234;
    m.i = 0x300;
    m.execute_instruction_with_random(0);
    assert_eq!(&m.memory[0x300..0x303], &[2, 3, 4]);
}

#[test]
fn register_dump_and_load_exclude_x() {
    let mut m = machine_with(&[0xF3, 0x55, 0xF3, 0x65]);
    m.v[0] = 1;
    m.v[1] = 2;
    m.v[2] = 3;
    m.v[3] = 4;
    m.i = 0x300;
    m.execute_instruction_with_random(0);
    assert_eq!(&m.memory[0x300..0x304], &[1, 2, 3, 0]);
    m.memory[0x300] = 9;
    m.memory[0x303] = 9;
    m.v[3] = 0;
    m.execute_instruction_with_random(0);
    assert_eq!(&m.v[0..4], &[9, 2, 3, 0]);
}

#[test]
fn timer_and_key_operations() {
    let mut m = machine_with(&[0xF1, 0x15, 0xF2, 0x07, 0xE1, 0x9E, 0xE1, 0xA1, 0x00, 0x00, 0xF3, 0x0A]);
    m.v[1] = 42;
    m.execute_instruction_with_random(0);
    assert_eq!(m.timer, 42);
    m.execute_instruction_with_random(0);
    assert_eq!(m.v[2], 42);
    m.execute_instruction_with_random(0);
    assert_eq!(m.pc, 0x206);
    m.execute_instruction_with_random(0);
    assert_eq!(m.pc, 0x20A);
    m.execute_instruction_with_random(0);
    assert_eq!(m.pc, 0x20A);
    assert!(!m.is_key_pressed(1));
    assert_eq!(m.get_pressed_key(), 0xFF);
}

#[test]
fn pixel_round_trip() {
    let mut m = Chip8::new();
    m.set_pixel(10, 5, 1);
    assert_eq!(m.get_pixel(10, 5), 1);
    assert_eq!(m.video_memory[5 * 8 + 1], 0b0010_0000);
    m.set_pixel(10, 5, 0);
    assert_eq!(m.get_pixel(10, 5), 0);
    assert_eq!(m.video_memory[5 * 8 + 1], 0);
}

#[test]
fn xor_pixel_composes_and_clips() {
    let mut m = Chip8::new();
    assert_eq!(m.xor_pixel(63, 31, 1), 1);
    assert_eq!(m.video_memory[255], 0b0000_0001);
    assert_eq!(m.xor_pixel(63, 31, 1), 0);
    assert_eq!(m.xor_pixel(64, 0, 1), 0);
    assert_eq!(m.xor_pixel(0, 32, 1), 0);
    assert_eq!(m.video_memory, vec![0u8; 256]);
}

#[test]
fn drawing_twice_collides() {
    let mut m = machine_with(&[0xD1, 0x21, 0xD1, 0x21]);
    m.v[1] = 3;
    m.v[2] = 4;
    m.i = 0x300;
    m.memory[0x300] = 0x80;
    assert_eq!(m.execute_instruction_with_random(0), StepOutcome::ScreenChanged);
    assert_eq!(m.get_pixel(3, 4), 1);
    assert_eq!(m.v[15], 0);
    m.execute_instruction_with_random(0);
    assert_eq!(m.get_pixel(3, 4), 0);
    assert_eq!(m.v[15], 1);
}

#[test]
fn sprite_draws_font_glyph_and_clips_at_edge() {
    let mut m = machine_with(&[0xD1, 0x25]);
    m.v[1] = 60 + 64;
    m.v[2] = 30;
    m.i = 0x50;
    m.execute_instruction_with_random(0);
    assert_eq!(m.video_memory[30 * 8 + 7], 0x0F);
    assert_eq!(m.video_memory[31 * 8 + 7], 0x09);
    assert_eq!(m.video_memory[0], 0);
    assert_eq!(m.v[15], 0);
}

#[test]
fn peripheral_state_carries_screen() {
    let mut m = Chip8::new();
    m.set_pixel(0, 0, 1);
    let p = m.peripheral_state();
    assert!(!p.sound);
    assert_eq!(p.keys, 0);
    assert_eq!(p.screen.len(), 256);
    assert_eq!(p.screen[0], 0x80);
    assert_eq!(p.screen_width, 64);
    assert_eq!(p.screen_height, 32);
}
