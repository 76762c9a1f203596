use chip8_core::{decode, Emulator, Instruction, FONTSET, MAX_ROM_SIZE, SCREEN_SIZE, START_ADDR};

fn boot(rom: &[u8]) -> Emulator {
    let mut e = Emulator::new();
    e.load_game(rom);
    e
}

fn run(rom: &[u8], steps: usize) -> Emulator {
    let mut e = boot(rom);
    for _ in 0..steps {
        assert!(e.can_tick());
        e.tick();
    }
    e
}

fn lit(e: &Emulator) -> Vec<usize> {
    let d = e.get_display();
    (0..d.len()).filter(|&i| d[i]).collect()
}

#[test]
fn new_machine_is_idle_with_font_loaded() {
    let e = Emulator::new();
    assert_eq!(e.get_pc(), START_ADDR);
    assert_eq!(e.get_pc(), 0x200);
    assert_eq!(e.get_index(), 0);
    assert_eq!(e.get_stack_depth(), 0);
    assert_eq!(e.get_delay_timer(), 0);
    assert_eq!(e.get_sound_timer(), 0);
    for x in 0..16 {
        assert_eq!(e.get_register(x), 0);
    }
    for i in 0..80 {
        assert_eq!(e.get_memory(i), FONTSET[i]);
    }
    assert_eq!(e.get_memory(0), 0xF0);
    assert_eq!(e.get_memory(79), 0x80);
    assert_eq!(e.get_memory(80), 0);
    assert_eq!(e.get_memory(4095), 0);
    assert_eq!(e.get_display().len(), 2048);
    assert!(lit(&e).is_empty());
}

#[test]
fn load_game_copies_at_program_start() {
    let e = boot(&[1, 2, 3]);
    assert_eq!(e.get_memory(0x1FF), 0);
    assert_eq!(e.get_memory(0x200), 1);
    assert_eq!(e.get_memory(0x201), 2);
    assert_eq!(e.get_memory(0x202), 3);
    assert_eq!(e.get_memory(0x203), 0);
    assert_eq!(e.get_memory(0), 0xF0);
}

#[test]
fn load_game_accepts_largest_rom() {
    let rom = vec![0x5Au8; MAX_ROM_SIZE];
    let e = boot(&rom);
    assert_eq!(e.get_memory(0x200), 0x5A);
    assert_eq!(e.get_memory(4095), 0x5A);
    assert_eq!(e.get_memory(0x1FF), 0);
}

#[test]
fn fetch_reads_big_endian_and_advances() {
    let mut e = boot(&[0xAB, 0xCD, 0x12, 0x34]);
    assert_eq!(e.fetch(), 0xABCD);
    assert_eq!(e.get_pc(), 0x202);
    assert_eq!(e.fetch(), 0x1234);
    assert_eq!(e.get_pc(), 0x204);
}

#[test]
fn stack_is_last_in_first_out() {
    let mut e = Emulator::new();
    e.push(0x111);
    e.push(0x222);
    assert_eq!(e.get_stack_depth(), 2);
    assert_eq!(e.pop(), 0x222);
    assert_eq!(e.pop(), 0x111);
    assert_eq!(e.get_stack_depth(), 0);
}

#[test]
fn stack_fills_after_sixteen_pushes() {
    let mut e = boot(&[0x22, 0x00]);
    for i in 0..16u16 {
        e.push(i);
    }
    assert_eq!(e.get_stack_depth(), 16);
    // a call on a full stack cannot run
    assert!(!e.can_tick());
    for i in (0..16u16).rev() {
        assert_eq!(e.pop(), i);
    }
}

#[test]
fn return_on_empty_stack_cannot_run() {
    let e = boot(&[0x00, 0xEE]);
    assert!(!e.can_tick());
}

#[test]
fn call_and_return() {
    // 0x200: call 0x206; 0x202: V0 = 7; 0x206: V1 = 3; 0x208: return
    let rom = [0x22, 0x06, 0x60, 0x07, 0x00, 0x00, 0x61, 0x03, 0x00, 0xEE];
    let mut e = run(&rom, 1);
    assert_eq!(e.get_pc(), 0x206);
    assert_eq!(e.get_stack_depth(), 1);
    e.tick();
    e.tick();
    assert_eq!(e.get_pc(), 0x202);
    assert_eq!(e.get_stack_depth(), 0);
    e.tick();
    assert_eq!(e.get_register(0), 7);
    assert_eq!(e.get_register(1), 3);
}

#[test]
fn add_with_carry_sets_flag() {
    let e = run(&[0x60, 0xFF, 0x61, 0x01, 0x80, 0x14], 3);
    assert_eq!(e.get_register(0), 0x00);
    assert_eq!(e.get_register(0xF), 1);
}

#[test]
fn add_without_carry_clears_flag() {
    let e = run(&[0x6F, 0x01, 0x60, 0x10, 0x61, 0x20, 0x80, 0x14], 4);
    assert_eq!(e.get_register(0), 0x30);
    assert_eq!(e.get_register(0xF), 0);
}

#[test]
fn sub_without_borrow_sets_flag() {
    let e = run(&[0x60, 0x05, 0x61, 0x01, 0x80, 0x15], 3);
    assert_eq!(e.get_register(0), 0x04);
    assert_eq!(e.get_register(0xF), 1);
}

#[test]
fn sub_with_borrow_clears_flag() {
    let e = run(&[0x60, 0x01, 0x61, 0x05, 0x80, 0x15], 3);
    assert_eq!(e.get_register(0), 0xFC);
    assert_eq!(e.get_register(0xF), 0);
}

#[test]
fn reverse_sub() {
    let e = run(&[0x60, 0x01, 0x61, 0x05, 0x80, 0x17], 3);
    assert_eq!(e.get_register(0), 0x04);
    assert_eq!(e.get_register(0xF), 1);
    let e = run(&[0x60, 0x05, 0x61, 0x01, 0x80, 0x17], 3);
    assert_eq!(e.get_register(0), 0xFC);
    assert_eq!(e.get_register(0xF), 0);
}

#[test]
fn shifts_report_dropped_bit() {
    let e = run(&[0x60, 0x81, 0x80, 0x06], 2);
    assert_eq!(e.get_register(0), 0x40);
    assert_eq!(e.get_register(0xF), 1);
    let e = run(&[0x60, 0x81, 0x80, 0x0E], 2);
    assert_eq!(e.get_register(0), 0x02);
    assert_eq!(e.get_register(0xF), 1);
    let e = run(&[0x60, 0x40, 0x80, 0x0E], 2);
    assert_eq!(e.get_register(0), 0x80);
    assert_eq!(e.get_register(0xF), 0);
}

#[test]
fn add_immediate_wraps_and_leaves_flag() {
    let e = run(&[0x6F, 0x07, 0x60, 0xFE, 0x70, 0x03], 3);
    assert_eq!(e.get_register(0), 0x01);
    assert_eq!(e.get_register(0xF), 0x07);
}

#[test]
fn move_and_or_group() {
    let e = run(&[0x60, 0x0C, 0x61, 0x05, 0x82, 0x10], 3);
    assert_eq!(e.get_register(2), 0x05);
    for last in [0x01u8, 0x02, 0x03] {
        let e = run(&[0x60, 0x0C, 0x61, 0x05, 0x80, 0x10 | last], 3);
        assert_eq!(e.get_register(0), 0x0D);
    }
}

#[test]
fn timers_stop_at_zero() {
    let mut e = run(&[0x60, 0x02, 0xF0, 0x15], 2);
    assert_eq!(e.get_delay_timer(), 2);
    e.tick_timers();
    assert_eq!(e.get_delay_timer(), 1);
    e.tick_timers();
    assert_eq!(e.get_delay_timer(), 0);
    e.tick_timers();
    assert_eq!(e.get_delay_timer(), 0);
}

#[test]
fn sound_timer_counts_down() {
    let mut e = run(&[0x60, 0x01, 0xF0, 0x18], 2);
    assert_eq!(e.get_sound_timer(), 1);
    e.tick_timers();
    assert_eq!(e.get_sound_timer(), 0);
    e.tick_timers();
    assert_eq!(e.get_sound_timer(), 0);
}

#[test]
fn delay_timer_is_readable() {
    let e = run(&[0x60, 0x09, 0xF0, 0x15, 0xF3, 0x07], 3);
    assert_eq!(e.get_register(3), 9);
}

#[test]
fn skip_when_equal() {
    let e = run(&[0x60, 0x05, 0x30, 0x05, 0x60, 0x09], 3);
    assert_eq!(e.get_register(0), 5);
}

#[test]
fn no_skip_when_different() {
    let e = run(&[0x60, 0x05, 0x30, 0x06, 0x60, 0x09], 3);
    assert_eq!(e.get_register(0), 9);
    let e = run(&[0x60, 0x05, 0x40, 0x06], 2);
    assert_eq!(e.get_pc(), 0x206);
    let e = run(&[0x60, 0x05, 0x61, 0x05, 0x50, 0x10], 3);
    assert_eq!(e.get_pc(), 0x208);
    let e = run(&[0x60, 0x05, 0x61, 0x05, 0x90, 0x10], 3);
    assert_eq!(e.get_pc(), 0x206);
}

#[test]
fn jumps() {
    let e = run(&[0x13, 0x45], 1);
    assert_eq!(e.get_pc(), 0x345);
    let e = run(&[0x60, 0x10, 0xB3, 0x00], 2);
    assert_eq!(e.get_pc(), 0x310);
}

#[test]
fn index_register_ops() {
    let e = run(&[0xA1, 0x23], 1);
    assert_eq!(e.get_index(), 0x123);
    let e = run(&[0xAF, 0xFF, 0x60, 0x02, 0xF0, 0x1E], 3);
    assert_eq!(e.get_index(), 0x1001);
    let e = run(&[0x60, 0x0A, 0xF0, 0x29], 2);
    assert_eq!(e.get_index(), 50);
}

#[test]
fn random_is_masked() {
    let mut e = boot(&[0xC4, 0x0F]);
    let op = e.fetch();
    e.execute_with_random(op, 0xAB);
    assert_eq!(e.get_register(4), 0x0B);
    let e = run(&[0xC4, 0x00], 1);
    assert_eq!(e.get_register(4), 0);
}

#[test]
fn key_skips() {
    let mut e = boot(&[0x60, 0x03, 0xE0, 0x9E, 0xE0, 0xA1]);
    e.keypress(3, true);
    e.tick();
    e.tick();
    assert_eq!(e.get_pc(), 0x206);
    let mut e = boot(&[0x60, 0x03, 0xE0, 0x9E, 0x00, 0x00, 0xE0, 0xA1]);
    e.tick();
    e.tick();
    assert_eq!(e.get_pc(), 0x204);
    e.tick();
    e.tick();
    assert_eq!(e.get_pc(), 0x20A);
}

#[test]
fn key_index_out_of_range_cannot_run() {
    let mut e = boot(&[0x60, 0x10, 0xE0, 0x9E]);
    e.tick();
    assert!(!e.can_tick());
}

#[test]
fn wait_key_takes_lowest_pressed() {
    let mut e = boot(&[0xF5, 0x0A]);
    e.keypress(9, true);
    e.keypress(4, true);
    e.tick();
    assert_eq!(e.get_register(5), 4);
    assert_eq!(e.get_pc(), 0x202);
}

#[test]
fn wait_key_skips_when_none_pressed() {
    let mut e = boot(&[0xF5, 0x0A]);
    e.keypress(2, true);
    e.keypress(2, false);
    e.tick();
    assert_eq!(e.get_register(5), 0);
    assert_eq!(e.get_pc(), 0x204);
}

#[test]
fn unknown_opcode_cannot_run() {
    assert!(!boot(&[0x51, 0x21]).can_tick());
    assert!(!boot(&[0x01, 0x23]).can_tick());
    assert!(!boot(&[0xF0, 0xFF]).can_tick());
    assert!(boot(&[0x00, 0x00]).can_tick());
}

#[test]
fn fetch_past_memory_cannot_run() {
    let mut e = boot(&[0x1F, 0xFF]);
    e.tick();
    assert_eq!(e.get_pc(), 0xFFF);
    assert!(!e.can_tick());
}

#[test]
fn decode_names_instructions() {
    assert_eq!(decode(0x0000), Instruction::Nop);
    assert_eq!(decode(0x00E0), Instruction::ClearScreen);
    assert_eq!(decode(0x00EE), Instruction::Return);
    assert_eq!(decode(0x1ABC), Instruction::Jump { addr: 0xABC });
    assert_eq!(decode(0x8123), Instruction::Or { x: 1, y: 2 });
    assert_eq!(decode(0x8AB4), Instruction::AddReg { x: 0xA, y: 0xB });
    assert_eq!(decode(0xD12F), Instruction::Draw { x: 1, y: 2, n: 15 });
    assert_eq!(decode(0xE39E), Instruction::SkipKey { x: 3 });
    assert_eq!(decode(0xC7F0), Instruction::Random { x: 7, nn: 0xF0 });
    assert_eq!(decode(0x5121), Instruction::Unknown { opcode: 0x5121 });
    assert_eq!(decode(0x8128), Instruction::Unknown { opcode: 0x8128 });
}

fn sprite_rom() -> Vec<u8> {
    // I = 0x300; draw V0, V1 one row; draw again; sprite byte at 0x300
    let mut rom = vec![0u8; 0x101];
    rom[..6].copy_from_slice(&[0xA3, 0x00, 0xD0, 0x11, 0xD0, 0x11]);
    rom[0x100] = 0xF0;
    rom
}

#[test]
fn sprite_draw_and_collision() {
    let mut e = run(&sprite_rom(), 2);
    assert_eq!(lit(&e), vec![0, 1, 2, 3]);
    assert_eq!(e.get_register(0xF), 0);
    e.tick();
    assert_eq!(lit(&e), vec![0, 1, 2, 3]);
    assert_eq!(e.get_register(0xF), 1);
}

#[test]
fn sprite_wraps_around_edges() {
    let mut rom = vec![0u8; 0x101];
    rom[..8].copy_from_slice(&[0x60, 62, 0x61, 33, 0xA3, 0x00, 0xD0, 0x12]);
    rom[0x100] = 0xF0;
    let e = run(&rom, 4);
    // row 0 lands on y = 1, row 1 (a zero byte) draws nothing
    assert_eq!(lit(&e), vec![64, 65, 126, 127]);
    assert_eq!(e.get_register(0xF), 0);
}

#[test]
fn font_glyph_draws() {
    // V0 = 0; I = glyph of 0; draw 5 rows at (V0, V0)
    let e = run(&[0x60, 0x00, 0xF0, 0x29, 0xD0, 0x05], 3);
    let d = e.get_display();
    assert!(d[0] && d[1] && d[2] && d[3] && !d[4]);
    assert!(d[64] && !d[65] && !d[66] && d[67]);
    assert_eq!(lit(&e).len(), 14);
}

#[test]
fn clear_turns_every_pixel_off() {
    let mut rom = sprite_rom();
    rom[4] = 0x00;
    rom[5] = 0xE0;
    let e = run(&rom, 3);
    let d = e.get_display();
    assert_eq!(d.len(), SCREEN_SIZE);
    assert!(d.iter().all(|&p| !p));
}
