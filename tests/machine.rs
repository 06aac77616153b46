use chipper::{decode, Chip8, ChipError, Instruction};

fn machine_with(program: &[u8]) -> Chip8 {
    let mut m = Chip8::new();
    m.load_program(program, 0x200).unwrap();
    m
}

fn run(m: &mut Chip8, steps: usize) {
    for _ in 0..steps {
        m.step(0).unwrap();
    }
}

#[test]
fn new_machine_initial_state() {
    let m = Chip8::new();
    assert_eq!(m.program_counter(), 0x200);
    assert_eq!(m.stack_pointer(), 0);
    assert_eq!(m.index_register(), 0);
    assert_eq!(m.memory_at(0), 0xF0);
    assert_eq!(m.memory_at(5), 0x20);
    assert_eq!(m.memory_at(79), 0x80);
    assert_eq!(m.memory_at(80), 0);
    assert_eq!(m.memory_at(0x200), 0);
    assert!(m.framebuffer().iter().all(|&p| p == 0));
    assert!(!m.needs_redraw());
    assert_eq!(m.delay_timer(), 0);
    assert_eq!(m.sound_timer(), 0);
    for x in 0..16 {
        assert_eq!(m.register(x), 0);
    }
}

#[test]
fn set_then_add_immediate() {
    let mut m = machine_with(&[0x60, 0x05, 0x70, 0x03]);
    m.step(0).unwrap();
    m.step(0).unwrap();
    assert_eq!(m.register(0), 8);
    assert_eq!(m.program_counter(), 0x204);
}

#[test]
fn bcd_store_of_234() {
    let mut m = machine_with(&[0x60, 0xEA, 0xA3, 0x00, 0xF0, 0x33]);
    run(&mut m, 3);
    assert_eq!(m.memory_at(0x300), 2);
    assert_eq!(m.memory_at(0x301), 3);
    assert_eq!(m.memory_at(0x302), 4);
}

#[test]
fn seventeenth_call_overflows() {
    let mut m = machine_with(&[0x22, 0x00]);
    run(&mut m, 16);
    assert_eq!(m.stack_pointer(), 16);
    assert_eq!(m.step(0), Err(ChipError::StackOverflow));
    assert_eq!(m.stack_pointer(), 16);
    assert_eq!(m.program_counter(), 0x200);
}

#[test]
fn return_on_empty_stack_underflows() {
    let mut m = machine_with(&[0x00, 0xEE]);
    assert_eq!(m.step(0), Err(ChipError::StackUnderflow));
    assert_eq!(m.program_counter(), 0x200);
}

#[test]
fn add_registers_sets_carry() {
    let mut m = machine_with(&[0x60, 200, 0x61, 100, 0x80, 0x14]);
    run(&mut m, 3);
    assert_eq!(m.register(0), 44);
    assert_eq!(m.register(0xF), 1);
    let mut m = machine_with(&[0x60, 100, 0x61, 100, 0x80, 0x14]);
    run(&mut m, 3);
    assert_eq!(m.register(0), 200);
    assert_eq!(m.register(0xF), 0);
    let mut m = machine_with(&[0x60, 255, 0x61, 1, 0x80, 0x14]);
    run(&mut m, 3);
    assert_eq!(m.register(0), 0);
    assert_eq!(m.register(0xF), 1);
    let mut m = machine_with(&[0x60, 255, 0x80, 0x04]);
    run(&mut m, 2);
    assert_eq!(m.register(0), 254);
    assert_eq!(m.register(0xF), 1);
}

#[test]
fn subtract_registers_sets_borrow() {
    let mut m = machine_with(&[0x60, 5, 0x61, 10, 0x80, 0x15]);
    run(&mut m, 3);
    assert_eq!(m.register(0), 251);
    assert_eq!(m.register(0xF), 0);
    let mut m = machine_with(&[0x60, 10, 0x61, 5, 0x80, 0x15]);
    run(&mut m, 3);
    assert_eq!(m.register(0), 5);
    assert_eq!(m.register(0xF), 1);
    let mut m = machine_with(&[0x60, 7, 0x61, 7, 0x80, 0x15]);
    run(&mut m, 3);
    assert_eq!(m.register(0), 0);
    assert_eq!(m.register(0xF), 1);
}

#[test]
fn call_then_return_resumes_after_call() {
    let mut m = machine_with(&[0x23, 0x00]);
    m.load_program(&[0x00, 0xEE], 0x300).unwrap();
    m.step(0).unwrap();
    assert_eq!(m.program_counter(), 0x300);
    assert_eq!(m.stack_pointer(), 1);
    m.step(0).unwrap();
    assert_eq!(m.program_counter(), 0x202);
    assert_eq!(m.stack_pointer(), 0);
}

#[test]
fn skip_if_equal_and_not_equal() {
    let mut m = machine_with(&[0x60, 0x12, 0x30, 0x12]);
    run(&mut m, 2);
    assert_eq!(m.program_counter(), 0x206);
    let mut m = machine_with(&[0x60, 0x12, 0x30, 0x13]);
    run(&mut m, 2);
    assert_eq!(m.program_counter(), 0x204);
    let mut m = machine_with(&[0x60, 0x12, 0x40, 0x12]);
    run(&mut m, 2);
    assert_eq!(m.program_counter(), 0x204);
    let mut m = machine_with(&[0x60, 0x12, 0x40, 0x13]);
    run(&mut m, 2);
    assert_eq!(m.program_counter(), 0x206);
}

#[test]
fn drawing_twice_turns_pixel_off_with_collision() {
    let mut m = machine_with(&[0xA3, 0x00, 0x60, 0x05, 0x61, 0x03, 0xD0, 0x11, 0xD0, 0x11]);
    m.load_program(&[0x80], 0x300).unwrap();
    run(&mut m, 4);
    assert_eq!(m.framebuffer()[3 * 64 + 5], 1);
    assert_eq!(m.register(0xF), 0);
    assert!(m.take_redraw_flag());
    assert!(!m.needs_redraw());
    run(&mut m, 1);
    assert_eq!(m.framebuffer()[3 * 64 + 5], 0);
    assert_eq!(m.register(0xF), 1);
    assert!(m.needs_redraw());
    assert!(m.framebuffer().iter().all(|&p| p == 0));
}

#[test]
fn disjoint_sprites_do_not_collide() {
    let mut m = machine_with(&[0xA3, 0x00, 0x60, 0x00, 0x61, 0x00, 0xD0, 0x12, 0x60, 0x08, 0xD0, 0x12]);
    m.load_program(&[0xFF, 0x81], 0x300).unwrap();
    run(&mut m, 4);
    assert_eq!(m.register(0xF), 0);
    run(&mut m, 2);
    assert_eq!(m.register(0xF), 0);
    let lit = m.framebuffer().iter().filter(|&&p| p == 1).count();
    assert_eq!(lit, 20);
    assert_eq!(m.framebuffer()[64 + 7], 1);
    assert_eq!(m.framebuffer()[64 + 6], 0);
}

#[test]
fn draw_wraps_at_screen_edges() {
    let mut m = machine_with(&[0xA3, 0x00, 0x60, 62, 0x61, 31, 0xD0, 0x12]);
    m.load_program(&[0xFF, 0x80], 0x300).unwrap();
    run(&mut m, 4);
    let g = m.framebuffer();
    assert_eq!(g[31 * 64 + 62], 1);
    assert_eq!(g[31 * 64 + 63], 1);
    assert_eq!(g[31 * 64 + 0], 1);
    assert_eq!(g[31 * 64 + 5], 1);
    assert_eq!(g[31 * 64 + 6], 0);
    assert_eq!(g[62], 1);
    assert_eq!(g[63], 0);
    assert_eq!(m.register(0xF), 0);
}

#[test]
fn draw_coordinates_wrap_on_entry() {
    let mut m = machine_with(&[0xA3, 0x00, 0x60, 64 + 3, 0x61, 32 + 2, 0xD0, 0x11]);
    m.load_program(&[0x80], 0x300).unwrap();
    run(&mut m, 4);
    assert_eq!(m.framebuffer()[2 * 64 + 3], 1);
}

#[test]
fn unknown_opcodes_are_rejected() {
    let mut m = machine_with(&[0x00, 0x00]);
    assert_eq!(m.step(0), Err(ChipError::UnknownOpcode(0x0000)));
    let mut m = machine_with(&[0x01, 0x23]);
    assert_eq!(m.step(0), Err(ChipError::UnknownOpcode(0x0123)));
    let mut m = machine_with(&[0x80, 0x18]);
    assert_eq!(m.step(0), Err(ChipError::UnknownOpcode(0x8018)));
    let mut m = machine_with(&[0xE0, 0xA2]);
    assert_eq!(m.step(0), Err(ChipError::UnknownOpcode(0xE0A2)));
    let mut m = machine_with(&[0xF0, 0xFF]);
    assert_eq!(m.step(0), Err(ChipError::UnknownOpcode(0xF0FF)));
    let mut m = machine_with(&[0x90, 0x11]);
    assert_eq!(m.step(0), Err(ChipError::UnknownOpcode(0x9011)));
    let mut m = machine_with(&[0x50, 0x11]);
    assert_eq!(m.step(0), Err(ChipError::UnknownOpcode(0x5011)));
    assert_eq!(m.program_counter(), 0x200);
}

#[test]
fn fetch_past_memory_end_fails() {
    let mut m = machine_with(&[0x1F, 0xFF]);
    m.step(0).unwrap();
    assert_eq!(m.program_counter(), 0xFFF);
    assert_eq!(m.fetch(), Err(ChipError::AddressOutOfBounds));
    assert_eq!(m.step(0), Err(ChipError::AddressOutOfBounds));
    let mut m = machine_with(&[0x1F, 0xFE]);
    m.step(0).unwrap();
    assert_eq!(m.fetch(), Ok(0x0000));
}

#[test]
fn program_too_large_is_rejected() {
    let mut m = Chip8::new();
    let big = vec![0xAAu8; 4096 - 0x200 + 1];
    assert_eq!(m.load_program(&big, 0x200), Err(ChipError::ProgramTooLarge));
    assert_eq!(m.memory_at(0x200), 0);
    let fits = vec![0xAAu8; 4096 - 0x200];
    assert_eq!(m.load_program(&fits, 0x200), Ok(()));
    assert_eq!(m.memory_at(0xFFF), 0xAA);
    assert_eq!(m.load_program(&[1], 4096), Err(ChipError::ProgramTooLarge));
    assert_eq!(m.load_program(&[], 4096), Ok(()));
    assert_eq!(m.load_program(&[1], usize::MAX), Err(ChipError::ProgramTooLarge));
}

#[test]
fn load_game_truncates_to_program_area() {
    let mut m = Chip8::new();
    let game = vec![0x11u8; 4000];
    assert_eq!(m.load_game(&game), 4096 - 0x200);
    assert_eq!(m.memory_at(0x1FF), 0);
    assert_eq!(m.memory_at(0x200), 0x11);
    assert_eq!(m.memory_at(0xFFF), 0x11);
    let mut m = Chip8::new();
    assert_eq!(m.load_game(&[0x60, 0x01]), 2);
    assert_eq!(m.memory_at(0x201), 0x01);
    assert_eq!(m.memory_at(0x202), 0);
}

#[test]
fn timers_count_down_and_stop_at_zero() {
    let mut m = machine_with(&[0x60, 0x03, 0xF0, 0x15, 0xF1, 0x07, 0xF0, 0x18, 0x12, 0x08]);
    run(&mut m, 2);
    assert_eq!(m.delay_timer(), 2);
    run(&mut m, 1);
    assert_eq!(m.register(1), 2);
    assert_eq!(m.delay_timer(), 1);
    run(&mut m, 1);
    assert_eq!(m.delay_timer(), 0);
    assert_eq!(m.sound_timer(), 2);
    run(&mut m, 3);
    assert_eq!(m.delay_timer(), 0);
    assert_eq!(m.sound_timer(), 0);
}

#[test]
fn skip_when_key_not_pressed() {
    let mut m = machine_with(&[0x60, 0x07, 0xE0, 0xA1]);
    run(&mut m, 2);
    assert_eq!(m.program_counter(), 0x206);
    let mut m = machine_with(&[0x60, 0x07, 0xE0, 0xA1]);
    m.key[7] = 1;
    run(&mut m, 2);
    assert_eq!(m.program_counter(), 0x204);
    let mut m = machine_with(&[0x60, 0x17, 0xE0, 0xA1]);
    m.key[7] = 1;
    run(&mut m, 2);
    assert_eq!(m.program_counter(), 0x204);
}

#[test]
fn font_address_and_register_load() {
    let mut m = machine_with(&[0x60, 0x0A, 0xF0, 0x29]);
    run(&mut m, 2);
    assert_eq!(m.index_register(), 50);
    let mut m = machine_with(&[0xA3, 0x00, 0xF2, 0x65]);
    m.load_program(&[9, 8, 7, 6], 0x300).unwrap();
    run(&mut m, 2);
    assert_eq!(m.register(0), 9);
    assert_eq!(m.register(1), 8);
    assert_eq!(m.register(2), 7);
    assert_eq!(m.register(3), 0);
}

#[test]
fn random_byte_is_masked() {
    let mut m = machine_with(&[0xC0, 0x0F, 0xC1, 0x00, 0xC2, 0xF0]);
    m.step(0xAB).unwrap();
    assert_eq!(m.register(0), 0x0B);
    m.emulate_cycle().unwrap();
    assert_eq!(m.register(1), 0);
    m.emulate_cycle().unwrap();
    assert_eq!(m.register(2) & 0x0F, 0);
    assert_eq!(m.program_counter(), 0x206);
}

#[test]
fn copy_and_and_and_wrapping_add() {
    let mut m = machine_with(&[0x60, 0xFF, 0x61, 0x0C, 0x6F, 0x07, 0x70, 0x02, 0x82, 0x10, 0x81, 0x02]);
    run(&mut m, 6);
    assert_eq!(m.register(0), 1);
    assert_eq!(m.register(0xF), 7);
    assert_eq!(m.register(2), 0x0C);
    assert_eq!(m.register(1), 0x0C & 1);
}

#[test]
fn memory_operands_past_end_fail() {
    let mut m = machine_with(&[0xAF, 0xFF, 0xD0, 0x02]);
    m.step(0).unwrap();
    assert_eq!(m.step(0), Err(ChipError::AddressOutOfBounds));
    let mut m = machine_with(&[0xAF, 0xFE, 0xF0, 0x33]);
    m.step(0).unwrap();
    assert_eq!(m.step(0), Err(ChipError::AddressOutOfBounds));
    let mut m = machine_with(&[0xAF, 0xFE, 0xF2, 0x65]);
    m.step(0).unwrap();
    assert_eq!(m.step(0), Err(ChipError::AddressOutOfBounds));
    assert_eq!(m.program_counter(), 0x202);
    let mut m = machine_with(&[0xAF, 0xFF, 0xD0, 0x01]);
    run(&mut m, 2);
    assert_eq!(m.program_counter(), 0x204);
}

#[test]
fn reset_restores_initial_state() {
    let mut m = machine_with(&[0x60, 0x05, 0x22, 0x00]);
    run(&mut m, 2);
    m.key[3] = 1;
    m.reset();
    assert_eq!(m.register(0), 0);
    assert_eq!(m.stack_pointer(), 0);
    assert_eq!(m.program_counter(), 0x200);
    assert_eq!(m.memory_at(0x200), 0);
    assert_eq!(m.memory_at(0), 0xF0);
    assert_eq!(m.key[3], 0);
}

#[test]
fn decode_extracts_fields() {
    assert_eq!(decode(0x8AB4), Some(Instruction::AddReg { x: 0xA, y: 0xB }));
    assert_eq!(decode(0xD12F), Some(Instruction::Draw { x: 1, y: 2, n: 0xF }));
    assert_eq!(decode(0x2ABC), Some(Instruction::Call { addr: 0xABC }));
    assert_eq!(decode(0x00EE), Some(Instruction::Return));
    assert_eq!(decode(0x00E0), Some(Instruction::ClearScreen));
    assert_eq!(decode(0x8AB6), Some(Instruction::ShiftRight { x: 0xA, y: 0xB }));
    assert_eq!(decode(0x00E1), None);
    assert_eq!(decode(0xF533), Some(Instruction::StoreBcd { x: 5 }));
}

#[test]
fn clear_screen_turns_every_pixel_off() {
    let mut m = machine_with(&[0xA3, 0x00, 0xD0, 0x01, 0x00, 0xE0]);
    m.load_program(&[0xFF], 0x300).unwrap();
    run(&mut m, 2);
    assert_eq!(m.framebuffer()[0], 1);
    assert!(m.take_redraw_flag());
    run(&mut m, 1);
    assert!(m.framebuffer().iter().all(|&p| p == 0));
    assert!(m.needs_redraw());
    assert_eq!(m.program_counter(), 0x206);
}

#[test]
fn skip_on_register_comparison() {
    let mut m = machine_with(&[0x60, 4, 0x61, 4, 0x50, 0x10]);
    run(&mut m, 3);
    assert_eq!(m.program_counter(), 0x208);
    let mut m = machine_with(&[0x60, 4, 0x61, 5, 0x50, 0x10]);
    run(&mut m, 3);
    assert_eq!(m.program_counter(), 0x206);
    let mut m = machine_with(&[0x60, 4, 0x61, 5, 0x90, 0x10]);
    run(&mut m, 3);
    assert_eq!(m.program_counter(), 0x208);
    let mut m = machine_with(&[0x60, 4, 0x61, 4, 0x90, 0x10]);
    run(&mut m, 3);
    assert_eq!(m.program_counter(), 0x206);
}

#[test]
fn or_xor_and_reverse_subtract() {
    let mut m = machine_with(&[0x60, 0x0C, 0x61, 0x0A, 0x80, 0x11]);
    run(&mut m, 3);
    assert_eq!(m.register(0), 0x0E);
    let mut m = machine_with(&[0x60, 0x0C, 0x61, 0x0A, 0x80, 0x13]);
    run(&mut m, 3);
    assert_eq!(m.register(0), 0x06);
    let mut m = machine_with(&[0x60, 3, 0x61, 10, 0x80, 0x17]);
    run(&mut m, 3);
    assert_eq!(m.register(0), 7);
    assert_eq!(m.register(0xF), 1);
    let mut m = machine_with(&[0x60, 10, 0x61, 3, 0x80, 0x17]);
    run(&mut m, 3);
    assert_eq!(m.register(0), 249);
    assert_eq!(m.register(0xF), 0);
}

#[test]
fn shifts_report_the_bit_shifted_out() {
    let mut m = machine_with(&[0x60, 0x05, 0x80, 0x06]);
    run(&mut m, 2);
    assert_eq!(m.register(0), 0x02);
    assert_eq!(m.register(0xF), 1);
    let mut m = machine_with(&[0x60, 0x04, 0x80, 0x06]);
    run(&mut m, 2);
    assert_eq!(m.register(0), 0x02);
    assert_eq!(m.register(0xF), 0);
    let mut m = machine_with(&[0x60, 0x81, 0x80, 0x0E]);
    run(&mut m, 2);
    assert_eq!(m.register(0), 0x02);
    assert_eq!(m.register(0xF), 1);
    let mut m = machine_with(&[0x60, 0x41, 0x80, 0x0E]);
    run(&mut m, 2);
    assert_eq!(m.register(0), 0x82);
    assert_eq!(m.register(0xF), 0);
}

#[test]
fn jump_with_offset_adds_v0() {
    let mut m = machine_with(&[0x60, 0x10, 0xB3, 0x00]);
    run(&mut m, 2);
    assert_eq!(m.program_counter(), 0x310);
}

#[test]
fn skip_when_key_pressed() {
    let mut m = machine_with(&[0x60, 0x02, 0xE0, 0x9E]);
    m.key[2] = 1;
    run(&mut m, 2);
    assert_eq!(m.program_counter(), 0x206);
    let mut m = machine_with(&[0x60, 0x02, 0xE0, 0x9E]);
    run(&mut m, 2);
    assert_eq!(m.program_counter(), 0x204);
}

#[test]
fn wait_for_key_repeats_until_pressed() {
    let mut m = machine_with(&[0xF3, 0x0A]);
    run(&mut m, 3);
    assert_eq!(m.program_counter(), 0x200);
    m.key[9] = 1;
    m.key[0xC] = 1;
    run(&mut m, 1);
    assert_eq!(m.register(3), 9);
    assert_eq!(m.program_counter(), 0x202);
}

#[test]
fn add_to_index_wraps_at_address_space() {
    let mut m = machine_with(&[0xA1, 0x00, 0x60, 0x20, 0xF0, 0x1E]);
    run(&mut m, 3);
    assert_eq!(m.index_register(), 0x120);
    let mut m = machine_with(&[0xAF, 0xFF, 0x60, 0x02, 0xF0, 0x1E]);
    run(&mut m, 3);
    assert_eq!(m.index_register(), 0x001);
}

#[test]
fn store_registers_writes_memory() {
    let mut m = machine_with(&[0x60, 7, 0x61, 8, 0x62, 9, 0xA3, 0x00, 0xF1, 0x55]);
    run(&mut m, 5);
    assert_eq!(m.memory_at(0x300), 7);
    assert_eq!(m.memory_at(0x301), 8);
    assert_eq!(m.memory_at(0x302), 0);
    assert_eq!(m.index_register(), 0x300);
    let mut m = machine_with(&[0xAF, 0xFF, 0xF1, 0x55]);
    run(&mut m, 1);
    assert_eq!(m.step(0), Err(ChipError::AddressOutOfBounds));
}
