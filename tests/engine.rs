use chip8_core::{Chip8, ExecuteError, Quirks};

fn machine_with(program: &[u8]) -> Chip8 {
    let mut chip8 = Chip8::new();
    chip8.load(program);
    chip8
}

fn machine_with_quirks(quirks: Quirks, program: &[u8]) -> Chip8 {
    let mut chip8 = Chip8::with_quirks(quirks);
    chip8.load(program);
    chip8
}

fn run(chip8: &mut Chip8, cycles: usize) {
    for _ in 0..cycles {
        chip8.emulate().unwrap();
    }
}

#[test]
fn load_add_scenario() {
    let mut chip8 = machine_with(&[0x60, 0x0A, 0x61, 0x05, 0x80, 0x14]);
    let start = chip8.pc();
    run(&mut chip8, 3);
    assert_eq!(chip8.register(0), 15);
    assert_eq!(chip8.register(0xF), 0);
    assert_eq!(chip8.pc(), start + 6);
}

#[test]
fn draw_font_glyph_two() {
    let mut program = vec![0u8; 0x30];
    program[..4].copy_from_slice(&[0xA2, 0x2A, 0xD0, 0x05]);
    program[0x2A..0x2F].copy_from_slice(&[0xF0, 0x10, 0xF0, 0x80, 0xF0]);
    let mut chip8 = machine_with(&program);
    run(&mut chip8, 2);
    let glyph = [0xF0u8, 0x10, 0xF0, 0x80, 0xF0];
    let fb = chip8.framebuffer();
    assert_eq!(fb.len(), 64 * 32);
    for y in 0..32 {
        for x in 0..64 {
            let expected = y < 5 && x < 8 && glyph[y] & (0x80 >> x) != 0;
            assert_eq!(fb[y * 64 + x], expected, "pixel ({x}, {y})");
        }
    }
    assert_eq!(chip8.register(0xF), 0);
}

#[test]
fn font_glyph_address_matches_drawing() {
    // LD V0, 2; LD F, V0; DRW V1, V1, 5
    let mut chip8 = machine_with(&[0x60, 0x02, 0xF0, 0x29, 0xD1, 0x15]);
    run(&mut chip8, 3);
    assert_eq!(chip8.index(), 10);
    let glyph = [0xF0u8, 0x10, 0xF0, 0x80, 0xF0];
    let fb = chip8.framebuffer();
    for (y, row) in glyph.iter().enumerate() {
        for x in 0..8 {
            assert_eq!(fb[y * 64 + x], row & (0x80 >> x) != 0);
        }
    }
}

#[test]
fn font_glyph_uses_low_nibble() {
    let mut chip8 = machine_with(&[0x60, 0x1A, 0xF0, 0x29]);
    run(&mut chip8, 2);
    assert_eq!(chip8.index(), 50);
}

#[test]
fn key_wait_needs_press_and_release() {
    let mut chip8 = machine_with(&[0xF3, 0x0A, 0x00, 0xE0]);
    chip8.emulate().unwrap();
    assert_eq!(chip8.pc(), 0x200);
    chip8.set_key(5, true);
    chip8.emulate().unwrap();
    assert_eq!(chip8.pc(), 0x200);
    assert_eq!(chip8.register(3), 5);
    chip8.emulate().unwrap();
    assert_eq!(chip8.pc(), 0x200);
    chip8.set_key(5, false);
    chip8.emulate().unwrap();
    assert_eq!(chip8.pc(), 0x202);
    assert_eq!(chip8.register(3), 5);
}

#[test]
fn key_wait_without_release_completes_on_press() {
    let mut quirks = Quirks::new();
    quirks.release = false;
    let mut chip8 = machine_with_quirks(quirks, &[0xF3, 0x0A]);
    chip8.emulate().unwrap();
    assert_eq!(chip8.pc(), 0x200);
    chip8.set_key(9, true);
    chip8.set_key(12, true);
    chip8.emulate().unwrap();
    assert_eq!(chip8.pc(), 0x202);
    assert_eq!(chip8.register(3), 9);
}

#[test]
fn skip_on_equal_byte() {
    let mut chip8 = machine_with(&[0x65, 0x33, 0x35, 0x33]);
    run(&mut chip8, 2);
    assert_eq!(chip8.pc(), 0x206);
    let mut chip8 = machine_with(&[0x65, 0x33, 0x35, 0x34]);
    run(&mut chip8, 2);
    assert_eq!(chip8.pc(), 0x204);
}

#[test]
fn skip_on_unequal_byte() {
    let mut chip8 = machine_with(&[0x65, 0x33, 0x45, 0x34]);
    run(&mut chip8, 2);
    assert_eq!(chip8.pc(), 0x206);
    let mut chip8 = machine_with(&[0x65, 0x33, 0x45, 0x33]);
    run(&mut chip8, 2);
    assert_eq!(chip8.pc(), 0x204);
}

#[test]
fn skip_on_register_compare() {
    let mut chip8 = machine_with(&[0x61, 0x07, 0x62, 0x07, 0x51, 0x20]);
    run(&mut chip8, 3);
    assert_eq!(chip8.pc(), 0x208);
    let mut chip8 = machine_with(&[0x61, 0x07, 0x62, 0x07, 0x91, 0x20]);
    run(&mut chip8, 3);
    assert_eq!(chip8.pc(), 0x206);
    let mut chip8 = machine_with(&[0x61, 0x07, 0x62, 0x08, 0x91, 0x20]);
    run(&mut chip8, 3);
    assert_eq!(chip8.pc(), 0x208);
    let mut chip8 = machine_with(&[0x61, 0x07, 0x62, 0x08, 0x51, 0x20]);
    run(&mut chip8, 3);
    assert_eq!(chip8.pc(), 0x206);
}

fn binary_op(a: u8, b: u8, n: u8) -> Chip8 {
    let mut chip8 = machine_with(&[0x61, a, 0x62, b, 0x81, 0x20 | n]);
    run(&mut chip8, 3);
    chip8
}

#[test]
fn add_registers_exhaustive() {
    for a in 0..=255u8 {
        for b in 0..=255u8 {
            let chip8 = binary_op(a, b, 4);
            assert_eq!(chip8.register(1), a.wrapping_add(b));
            assert_eq!(chip8.register(0xF), (a as u16 + b as u16 > 255) as u8);
        }
    }
}

#[test]
fn sub_registers_exhaustive() {
    for a in 0..=255u8 {
        for b in 0..=255u8 {
            let chip8 = binary_op(a, b, 5);
            assert_eq!(chip8.register(1), a.wrapping_sub(b));
            assert_eq!(chip8.register(0xF), (a >= b) as u8);
        }
    }
}

#[test]
fn subn_registers_exhaustive() {
    for a in 0..=255u8 {
        for b in 0..=255u8 {
            let chip8 = binary_op(a, b, 7);
            assert_eq!(chip8.register(1), b.wrapping_sub(a));
            assert_eq!(chip8.register(0xF), (b >= a) as u8);
        }
    }
}

#[test]
fn add_byte_exhaustive_keeps_flag() {
    for a in 0..=255u8 {
        for b in 0..=255u8 {
            let mut chip8 = machine_with(&[0x6F, 0x07, 0x61, a, 0x71, b]);
            run(&mut chip8, 3);
            assert_eq!(chip8.register(1), a.wrapping_add(b));
            assert_eq!(chip8.register(0xF), 7);
        }
    }
}

#[test]
fn flag_is_result_when_target_is_vf() {
    // LD VF, 200; LD V1, 100; ADD VF, V1: the carry wins over the sum
    let mut chip8 = machine_with(&[0x6F, 200, 0x61, 100, 0x8F, 0x14]);
    run(&mut chip8, 3);
    assert_eq!(chip8.register(0xF), 1);
}

#[test]
fn clear_blanks_display() {
    let mut chip8 = machine_with(&[0xA0, 0x00, 0xD0, 0x0F, 0x00, 0xE0]);
    run(&mut chip8, 2);
    assert!(chip8.framebuffer().iter().any(|&p| p));
    run(&mut chip8, 1);
    assert!(chip8.framebuffer().iter().all(|&p| !p));
}

#[test]
fn store_then_load_round_trip() {
    for x in 0..16u8 {
        let mut program = Vec::new();
        for r in 0..16u8 {
            program.extend_from_slice(&[0x60 | r, 17 * r + 3]);
        }
        // LD I, 0x300; LD [I], Vx; clobber v0..vF; LD I, 0x300; LD Vx, [I]
        program.extend_from_slice(&[0xA3, 0x00, 0xF0 | x, 0x55]);
        for r in 0..16u8 {
            program.extend_from_slice(&[0x60 | r, 0xEE]);
        }
        program.extend_from_slice(&[0xA3, 0x00, 0xF0 | x, 0x65]);
        let mut chip8 = machine_with(&program);
        run(&mut chip8, program.len() / 2);
        for r in 0..16u8 {
            let expected = if r <= x { 17 * r + 3 } else { 0xEE };
            assert_eq!(chip8.register(r as usize), expected);
        }
        assert_eq!(chip8.index(), 0x300 + x as u16 + 1);
    }
}

#[test]
fn store_leaves_index_without_memory_quirk() {
    let mut quirks = Quirks::new();
    quirks.memory = false;
    let mut chip8 = machine_with_quirks(quirks, &[0xA3, 0x00, 0xF4, 0x55, 0xF4, 0x65]);
    run(&mut chip8, 3);
    assert_eq!(chip8.index(), 0x300);
}

#[test]
fn store_never_overwrites_font() {
    // LD V0, 0; LD I, 0; LD [I], V0; LD I, 0; LD V1, [I]
    let mut chip8 = machine_with(&[0x60, 0x00, 0xA0, 0x00, 0xF0, 0x55, 0xA0, 0x00, 0xF1, 0x65]);
    run(&mut chip8, 5);
    assert_eq!(chip8.register(0), 0xF0);
    assert_eq!(chip8.register(1), 0x90);
}

fn shift_with(shifting: bool, vy: u8, n: u8) -> Chip8 {
    let mut quirks = Quirks::new();
    quirks.shifting = shifting;
    let mut chip8 = machine_with_quirks(quirks, &[0x61, 0x0C, 0x62, vy, 0x81, 0x20 | n]);
    run(&mut chip8, 3);
    chip8
}

#[test]
fn shift_right_quirk_toggles_source() {
    let a = shift_with(true, 0x21, 6);
    let b = shift_with(true, 0x80, 6);
    assert_eq!(a.register(1), 0x06);
    assert_eq!(b.register(1), 0x06);
    assert_eq!(a.register(0xF), 0);
    let a = shift_with(false, 0x21, 6);
    let b = shift_with(false, 0x80, 6);
    assert_eq!(a.register(1), 0x10);
    assert_eq!(a.register(0xF), 1);
    assert_eq!(b.register(1), 0x40);
    assert_eq!(b.register(0xF), 0);
}

#[test]
fn shift_left_quirk_toggles_source() {
    let a = shift_with(true, 0x81, 0xE);
    assert_eq!(a.register(1), 0x18);
    assert_eq!(a.register(0xF), 0);
    let b = shift_with(false, 0x81, 0xE);
    assert_eq!(b.register(1), 0x02);
    assert_eq!(b.register(0xF), 1);
}

#[test]
fn draw_twice_clears_and_collides() {
    // sprite byte 0xFF at 0x210; LD V0, 5; LD V1, 3; LD I, 0x210; DRW V0, V1, 1 twice
    let mut program = vec![0x60, 0x05, 0x61, 0x03, 0xA2, 0x10, 0xD0, 0x11, 0xD0, 0x11];
    program.resize(0x10, 0);
    program.push(0xFF);
    let mut chip8 = machine_with(&program);
    run(&mut chip8, 4);
    assert_eq!(chip8.register(0xF), 0);
    for x in 5..13 {
        assert!(chip8.framebuffer()[3 * 64 + x]);
    }
    assert_eq!(chip8.framebuffer().iter().filter(|&&p| p).count(), 8);
    run(&mut chip8, 1);
    assert_eq!(chip8.register(0xF), 1);
    assert!(chip8.framebuffer().iter().all(|&p| !p));
}

#[test]
fn draw_clips_at_edges() {
    // V0 = 60, V1 = 31: a 2-row sprite of 0xFF at the bottom-right corner
    let mut program = vec![0x60, 60, 0x61, 31, 0xA2, 0x10, 0xD0, 0x12];
    program.resize(0x10, 0);
    program.extend_from_slice(&[0xFF, 0xFF]);
    let mut chip8 = machine_with(&program);
    run(&mut chip8, 4);
    let lit: Vec<usize> = (0..2048).filter(|&i| chip8.framebuffer()[i]).collect();
    assert_eq!(lit, vec![31 * 64 + 60, 31 * 64 + 61, 31 * 64 + 62, 31 * 64 + 63]);
}

#[test]
fn draw_wraps_without_clipping() {
    let mut quirks = Quirks::new();
    quirks.clipping = false;
    let mut program = vec![0x60, 60, 0x61, 31, 0xA2, 0x10, 0xD0, 0x12];
    program.resize(0x10, 0);
    program.extend_from_slice(&[0xFF, 0xFF]);
    let mut chip8 = machine_with_quirks(quirks, &program);
    run(&mut chip8, 4);
    assert_eq!(chip8.framebuffer().iter().filter(|&&p| p).count(), 16);
    assert!(chip8.framebuffer()[0]);
    assert!(chip8.framebuffer()[31 * 64 + 3]);
    assert!(chip8.framebuffer()[63]);
}

#[test]
fn draw_start_position_wraps() {
    // V0 = 64 + 2, V1 = 32 + 1 start at (2, 1)
    let mut program = vec![0x60, 66, 0x61, 33, 0xA2, 0x10, 0xD0, 0x11];
    program.resize(0x10, 0);
    program.push(0x80);
    let mut chip8 = machine_with(&program);
    run(&mut chip8, 4);
    let lit: Vec<usize> = (0..2048).filter(|&i| chip8.framebuffer()[i]).collect();
    assert_eq!(lit, vec![64 + 2]);
}

#[test]
fn undefined_instruction_is_reported() {
    for opcode in [0x0000u16, 0x5121, 0x8128, 0x9121, 0xE1FF, 0xF1FF] {
        let bytes = opcode.to_be_bytes();
        let mut chip8 = machine_with(&bytes);
        assert_eq!(chip8.emulate(), Err(ExecuteError::UndefinedInstruction(opcode)));
        assert_eq!(chip8.pc(), 0x202);
    }
}

#[test]
fn return_with_empty_stack_is_reported() {
    let mut chip8 = machine_with(&[0x00, 0xEE]);
    assert_eq!(chip8.emulate(), Err(ExecuteError::StackUnderflow(0x00EE)));
}

#[test]
fn call_with_full_stack_is_reported() {
    let mut chip8 = machine_with(&[0x22, 0x00]);
    run(&mut chip8, 16);
    assert_eq!(chip8.emulate(), Err(ExecuteError::StackOverflow(0x2200)));
}

#[test]
fn call_and_return() {
    // CALL 0x206; (0x202) LD V2, 9; (0x204) JP 0x204; (0x206) LD V1, 1; RET
    let mut chip8 = machine_with(&[0x22, 0x06, 0x62, 0x09, 0x12, 0x04, 0x61, 0x01, 0x00, 0xEE]);
    run(&mut chip8, 1);
    assert_eq!(chip8.pc(), 0x206);
    run(&mut chip8, 2);
    assert_eq!(chip8.pc(), 0x202);
    run(&mut chip8, 2);
    assert_eq!(chip8.pc(), 0x204);
    assert_eq!(chip8.register(1), 1);
    assert_eq!(chip8.register(2), 9);
}

#[test]
fn jump_with_offset() {
    let mut chip8 = machine_with(&[0x60, 0x04, 0x63, 0x10, 0xB3, 0x00]);
    run(&mut chip8, 3);
    assert_eq!(chip8.pc(), 0x304);
    let mut quirks = Quirks::new();
    quirks.jumping = true;
    let mut chip8 = machine_with_quirks(quirks, &[0x60, 0x04, 0x63, 0x10, 0xB3, 0x00]);
    run(&mut chip8, 3);
    assert_eq!(chip8.pc(), 0x310);
}

#[test]
fn random_is_masked() {
    let mut chip8 = machine_with(&[0xC4, 0x0F, 0xC5, 0x00]);
    chip8.emulate_with_random(0xAB).unwrap();
    assert_eq!(chip8.register(4), 0x0B);
    chip8.emulate().unwrap();
    assert_eq!(chip8.register(5), 0);
}

#[test]
fn logic_ops_reset_flag() {
    let mut chip8 = machine_with(&[0x6F, 0x05, 0x61, 0x0C, 0x62, 0x0A, 0x81, 0x21]);
    run(&mut chip8, 4);
    assert_eq!(chip8.register(1), 0x0E);
    assert_eq!(chip8.register(0xF), 0);
    let mut quirks = Quirks::new();
    quirks.vf_reset = false;
    let mut chip8 = machine_with_quirks(quirks, &[0x6F, 0x05, 0x61, 0x0C, 0x62, 0x0A, 0x81, 0x22]);
    run(&mut chip8, 4);
    assert_eq!(chip8.register(1), 0x08);
    assert_eq!(chip8.register(0xF), 5);
    let mut chip8 = machine_with(&[0x61, 0x0C, 0x62, 0x0A, 0x81, 0x23]);
    run(&mut chip8, 3);
    assert_eq!(chip8.register(1), 0x06);
}

#[test]
fn key_skips() {
    let mut chip8 = machine_with(&[0x61, 0x07, 0xE1, 0x9E]);
    chip8.set_key(7, true);
    run(&mut chip8, 2);
    assert_eq!(chip8.pc(), 0x206);
    let mut chip8 = machine_with(&[0x61, 0x07, 0xE1, 0xA1]);
    chip8.set_key(7, true);
    run(&mut chip8, 2);
    assert_eq!(chip8.pc(), 0x204);
    // a value beyond the pad names no key: never down
    let mut chip8 = machine_with(&[0x61, 0x17, 0xE1, 0xA1]);
    chip8.set_key(7, true);
    run(&mut chip8, 2);
    assert_eq!(chip8.pc(), 0x206);
}

#[test]
fn timers_count_down_to_zero() {
    // LD V0, 2; LD DT, V0; LD ST, V0
    let mut chip8 = machine_with(&[0x60, 0x02, 0xF0, 0x15, 0x60, 0x01, 0xF0, 0x18, 0xF2, 0x07]);
    run(&mut chip8, 4);
    assert_eq!(chip8.delay_timer(), 2);
    assert_eq!(chip8.sound_timer(), 1);
    chip8.tick_timers();
    assert_eq!(chip8.delay_timer(), 1);
    assert_eq!(chip8.sound_timer(), 0);
    run(&mut chip8, 1);
    assert_eq!(chip8.register(2), 1);
    chip8.tick_timers();
    chip8.tick_timers();
    assert_eq!(chip8.delay_timer(), 0);
    assert_eq!(chip8.sound_timer(), 0);
}

#[test]
fn binary_coded_decimal() {
    // LD V0, 254; LD I, 0x300; LD B, V0; LD V2, [I]
    let mut chip8 = machine_with(&[0x60, 254, 0xA3, 0x00, 0xF0, 0x33, 0xF2, 0x65]);
    run(&mut chip8, 4);
    assert_eq!(chip8.register(0), 2);
    assert_eq!(chip8.register(1), 5);
    assert_eq!(chip8.register(2), 4);
}

#[test]
fn add_to_index_wraps_at_memory_end() {
    let mut chip8 = machine_with(&[0xAF, 0xFE, 0x60, 0x05, 0xF0, 0x1E]);
    run(&mut chip8, 3);
    assert_eq!(chip8.index(), 3);
}

#[test]
fn reset_restores_built_state() {
    let mut chip8 = machine_with(&[0x60, 0x09, 0xA3, 0x00, 0xD0, 0x05, 0xF0, 0x15]);
    run(&mut chip8, 4);
    chip8.set_key(3, true);
    chip8.reset();
    let fresh = Chip8::new();
    assert_eq!(chip8.pc(), fresh.pc());
    assert_eq!(chip8.index(), 0);
    assert_eq!(chip8.register(0), 0);
    assert_eq!(chip8.delay_timer(), 0);
    assert!(chip8.framebuffer().iter().all(|&p| !p));
    // the program is gone: memory at the start is zero again
    assert_eq!(chip8.emulate(), Err(ExecuteError::UndefinedInstruction(0)));
}

#[test]
fn load_rom_fills_program_area() {
    let mut rom = vec![0u8; 4096 - 0x200];
    rom[0] = 0x1F;
    rom[1] = 0xFE;
    rom[4096 - 0x200 - 2] = 0x6A;
    rom[4096 - 0x200 - 1] = 0x42;
    let mut chip8 = Chip8::new();
    chip8.load_rom(&rom);
    run(&mut chip8, 2);
    assert_eq!(chip8.register(0xA), 0x42);
    assert_eq!(chip8.pc(), 0);
}

#[test]
fn default_quirks() {
    let q = Quirks::new();
    assert!(q.vf_reset && q.memory && q.clipping && q.release);
    assert!(!q.shifting && !q.jumping);
}
