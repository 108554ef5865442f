use chip8::machine::{Chip8, LoadError};
use chip8::sem::{CycleEvent, Fault};
use chip8::{MEMORY_SIZE, START_ADDRESS, VIDEO_HEIGHT, VIDEO_WIDTH};

fn load(program: &[u8]) -> Chip8 {
    let mut m = Chip8::new();
    m.load_image(&program.to_vec()).unwrap();
    m
}

fn run(m: &mut Chip8, cycles: usize) {
    for _ in 0..cycles {
        m.cycle().unwrap();
    }
}

#[test]
fn initial_state() {
    let m = Chip8::new();
    assert_eq!(m.pc(), 0x200);
    assert_eq!(m.stack_pointer(), 0);
    assert_eq!(m.index_register(), 0);
    assert_eq!(m.delay_timer(), 0);
    assert_eq!(m.sound_timer(), 0);
    for x in 0..16 {
        assert_eq!(m.register(x), 0);
        assert!(!m.key(x));
    }
    for y in 0..VIDEO_HEIGHT {
        for x in 0..VIDEO_WIDTH {
            assert!(!m.pixel(x, y));
        }
    }
    for a in 0..MEMORY_SIZE {
        assert_eq!(m.read_byte(a), 0);
    }
}

#[test]
fn load_then_add_immediate_wraps() {
    // Vx = kk; Vx += kk leaves Vx == (2 * kk) % 256 and no flag touched.
    let mut m = load(&[0x63, 0xAB, 0x73, 0xAB]);
    run(&mut m, 2);
    assert_eq!(m.register(3), ((2 * 0xABusize) % 256) as u8);
    assert_eq!(m.register(0xF), 0);
    assert_eq!(m.pc(), 0x204);
}

#[test]
fn add_immediate_does_not_touch_flags() {
    // VF stays as the ALU add left it even when the immediate add wraps.
    let mut m = load(&[
        0x6F, 0x07, // VF = 7
        0x63, 0xFF, // V3 = 0xFF
        0x73, 0x02, // V3 += 2 (wraps to 1)
    ]);
    run(&mut m, 3);
    assert_eq!(m.register(3), 1);
    assert_eq!(m.register(0xF), 7);
}

#[test]
fn add_registers_overflow_sets_flag() {
    // Vx=0xFF; Vy=0x01; ADD Vx,Vy yields Vx=0x00 and VF=1.
    let mut m = load(&[0x61, 0xFF, 0x62, 0x01, 0x81, 0x24]);
    run(&mut m, 3);
    assert_eq!(m.register(1), 0x00);
    assert_eq!(m.register(0xF), 1);
}

#[test]
fn add_registers_no_overflow_clears_flag() {
    let mut m = load(&[0x6F, 0x05, 0x61, 0x02, 0x62, 0x03, 0x81, 0x24]);
    run(&mut m, 4);
    assert_eq!(m.register(1), 5);
    assert_eq!(m.register(0xF), 0);
}

#[test]
fn sub_registers_borrow_clears_flag() {
    // Vx=0x05; Vy=0x0A; SUB Vx,Vy yields Vx=0xFB and VF=0.
    let mut m = load(&[0x61, 0x05, 0x62, 0x0A, 0x81, 0x25]);
    run(&mut m, 3);
    assert_eq!(m.register(1), 0xFB);
    assert_eq!(m.register(0xF), 0);
}

#[test]
fn sub_registers_no_borrow_sets_flag() {
    let mut m = load(&[0x61, 0x0A, 0x62, 0x05, 0x81, 0x25]);
    run(&mut m, 3);
    assert_eq!(m.register(1), 0x05);
    assert_eq!(m.register(0xF), 1);
}

#[test]
fn subn_registers_reversed_operands() {
    // V1 = V2 - V1, flag set when V2 >= V1.
    let mut m = load(&[0x61, 0x05, 0x62, 0x0A, 0x81, 0x27]);
    run(&mut m, 3);
    assert_eq!(m.register(1), 0x05);
    assert_eq!(m.register(0xF), 1);
}

#[test]
fn bitwise_register_ops() {
    let mut m = load(&[
        0x61, 0b1100, 0x62, 0b1010, 0x81, 0x21, // OR
        0x63, 0b1100, 0x64, 0b1010, 0x83, 0x42, // AND
        0x65, 0b1100, 0x66, 0b1010, 0x85, 0x63, // XOR
        0x67, 0x0A, 0x68, 0x0A, 0x87, 0x80, // LD V7, V8
    ]);
    run(&mut m, 12);
    assert_eq!(m.register(1), 0b1110);
    assert_eq!(m.register(3), 0b1000);
    assert_eq!(m.register(5), 0b0110);
    assert_eq!(m.register(7), 0x0A);
}

#[test]
fn shift_right_keeps_low_bit_in_flag() {
    let mut m = load(&[0x61, 0x05, 0x81, 0x06]);
    run(&mut m, 2);
    assert_eq!(m.register(1), 0x02);
    assert_eq!(m.register(0xF), 1);
}

#[test]
fn shift_left_flag_comes_from_bit_three() {
    // The flag source is (Vx & 0x08) >> 7, which is always zero; the
    // shift itself still happens. A conventional top-bit flag would be 1
    // here.
    let mut m = load(&[0x61, 0xFF, 0x81, 0x0E]);
    run(&mut m, 2);
    assert_eq!(m.register(1), 0xFE);
    assert_eq!(m.register(0xF), 0);
}

#[test]
fn skip_if_equal_immediate() {
    // Vx == kk advances the program counter by 4; Vx != kk by 2.
    let mut m = load(&[0x65, 0x07, 0x35, 0x07]);
    run(&mut m, 2);
    assert_eq!(m.pc(), 0x202 + 4);

    let mut m2 = load(&[0x65, 0x07, 0x35, 0x08]);
    run(&mut m2, 2);
    assert_eq!(m2.pc(), 0x202 + 2);
}

#[test]
fn skip_if_not_equal_immediate() {
    let mut m = load(&[0x65, 0x07, 0x45, 0x08]);
    run(&mut m, 2);
    assert_eq!(m.pc(), 0x202 + 4);

    let mut m2 = load(&[0x65, 0x07, 0x45, 0x07]);
    run(&mut m2, 2);
    assert_eq!(m2.pc(), 0x202 + 2);
}

#[test]
fn skip_on_register_comparison() {
    let mut m = load(&[0x61, 0x03, 0x62, 0x03, 0x51, 0x20]);
    run(&mut m, 3);
    assert_eq!(m.pc(), 0x204 + 4);

    let mut m2 = load(&[0x61, 0x03, 0x62, 0x04, 0x91, 0x20]);
    run(&mut m2, 3);
    assert_eq!(m2.pc(), 0x204 + 4);
}

#[test]
fn jump_sets_program_counter_exactly() {
    let mut m = load(&[0x13, 0x45]);
    run(&mut m, 1);
    assert_eq!(m.pc(), 0x345);
}

#[test]
fn clear_screen_then_jump_to_self_is_steady() {
    // Program: clear screen, then jump to the jump's own address.
    let mut m = load(&[0x00, 0xE0, 0x12, 0x02]);
    m.cycle().unwrap();
    for y in 0..VIDEO_HEIGHT {
        for x in 0..VIDEO_WIDTH {
            assert!(!m.pixel(x, y));
        }
    }
    assert_eq!(m.pc(), 0x202);
    m.cycle().unwrap();
    assert_eq!(m.pc(), 0x202);
    for y in 0..VIDEO_HEIGHT {
        for x in 0..VIDEO_WIDTH {
            assert!(!m.pixel(x, y));
        }
    }
}

#[test]
fn call_then_return_resumes_after_call() {
    // Call at 0x200 jumps to 0x300; the return lands at 0x202.
    let mut m = load(&[0x23, 0x00]);
    m.write_byte(0x300, 0x00);
    m.write_byte(0x301, 0xEE);
    assert_eq!(m.cycle().unwrap(), CycleEvent::Normal);
    assert_eq!(m.pc(), 0x300);
    assert_eq!(m.stack_pointer(), 1);
    assert_eq!(m.cycle().unwrap(), CycleEvent::Normal);
    assert_eq!(m.pc(), 0x202);
    assert_eq!(m.stack_pointer(), 0);
}

#[test]
fn seventeenth_nested_call_overflows() {
    // Sixteen nested calls fill the stack; the seventeenth is reported
    // and only the normal advance happens.
    let mut program = Vec::new();
    for k in 0..17u16 {
        let target = 0x202 + 2 * k;
        program.push(0x20 | (target >> 8) as u8);
        program.push((target & 0xFF) as u8);
    }
    let mut m = load(&program);
    for _ in 0..16 {
        assert_eq!(m.cycle().unwrap(), CycleEvent::Normal);
    }
    assert_eq!(m.stack_pointer(), 16);
    let pc_before = m.pc();
    assert_eq!(m.cycle().unwrap(), CycleEvent::StackOverflow);
    assert_eq!(m.stack_pointer(), 16);
    assert_eq!(m.pc(), pc_before + 2);
}

#[test]
fn return_with_empty_stack_is_reported() {
    let mut m = load(&[0x00, 0xEE]);
    assert_eq!(m.cycle().unwrap(), CycleEvent::StackUnderflow);
    assert_eq!(m.pc(), 0x200);
}

#[test]
fn unknown_opcodes_advance_normally() {
    let mut m = load(&[0x00, 0x00, 0x51, 0x21, 0x81, 0x2F, 0xE1, 0x00, 0xF1, 0xFF]);
    for _ in 0..5 {
        assert_eq!(m.cycle().unwrap(), CycleEvent::UnknownOpcode);
    }
    assert_eq!(m.pc(), 0x20A);
}

#[test]
fn fetch_outside_memory_is_fatal() {
    // Memory holds 4092 bytes; a fetch needing byte 4092 must fail and
    // leave the machine untouched.
    let mut m = load(&[0x1F, 0xFB]);
    run(&mut m, 1);
    assert_eq!(m.pc(), 0xFFB);
    assert_eq!(m.cycle(), Err(Fault::MemoryOutOfBounds));
    assert_eq!(m.pc(), 0xFFB);
}

#[test]
fn set_and_add_index() {
    let mut m = load(&[0xA1, 0x00, 0x60, 0x05, 0xF0, 0x1E]);
    run(&mut m, 3);
    assert_eq!(m.index_register(), 0x105);
}

#[test]
fn add_index_wraps_at_sixteen_bits() {
    // 0xFFF plus 256 additions of 0xFF passes 0x10000 and wraps.
    let mut program = vec![0xAF, 0xFF, 0x60, 0xFF];
    for _ in 0..256 {
        program.push(0xF0);
        program.push(0x1E);
    }
    let mut m = load(&program);
    run(&mut m, 258);
    let expected = (0xFFFu32 + 256 * 0xFF) % 0x10000;
    assert_eq!(m.index_register(), expected as u16);
}

#[test]
fn font_index_is_five_bytes_per_glyph() {
    let mut m = load(&[0x62, 0x03, 0xF2, 0x29]);
    run(&mut m, 2);
    assert_eq!(m.index_register(), 15);
}

#[test]
fn bcd_writes_three_digits() {
    let mut m = load(&[0x64, 0xEA, 0xA4, 0x00, 0xF4, 0x33]);
    run(&mut m, 3);
    // 0xEA is 234.
    assert_eq!(m.read_byte(0x400), 2);
    assert_eq!(m.read_byte(0x401), 3);
    assert_eq!(m.read_byte(0x402), 4);
    assert_eq!(m.index_register(), 0x400);
}

#[test]
fn bcd_near_memory_top_is_fatal() {
    let mut m = load(&[0xAF, 0xFA, 0xF0, 0x33]);
    run(&mut m, 1);
    assert_eq!(m.cycle(), Err(Fault::MemoryOutOfBounds));
    assert_eq!(m.pc(), 0x202);
}

#[test]
fn register_dump_and_load_roundtrip() {
    let mut m = load(&[
        0x60, 0x11, 0x61, 0x22, 0x62, 0x33, // V0..V2
        0xA4, 0x00, // I = 0x400
        0xF2, 0x55, // dump V0..V2
        0x60, 0x00, 0x61, 0x00, 0x62, 0x00, // clobber
        0xF2, 0x65, // load V0..V2 back
    ]);
    run(&mut m, 5);
    assert_eq!(m.read_byte(0x400), 0x11);
    assert_eq!(m.read_byte(0x401), 0x22);
    assert_eq!(m.read_byte(0x402), 0x33);
    assert_eq!(m.index_register(), 0x400);
    run(&mut m, 4);
    assert_eq!(m.register(0), 0x11);
    assert_eq!(m.register(1), 0x22);
    assert_eq!(m.register(2), 0x33);
    assert_eq!(m.register(3), 0);
    assert_eq!(m.index_register(), 0x400);
}

#[test]
fn register_dump_near_memory_top_is_fatal() {
    let mut m = load(&[0xAF, 0xFB, 0xF1, 0x55]);
    run(&mut m, 1);
    assert_eq!(m.cycle(), Err(Fault::MemoryOutOfBounds));
}

#[test]
fn random_masked_with_zero_is_zero() {
    let mut m = load(&[0x63, 0x55, 0xC3, 0x00]);
    run(&mut m, 2);
    assert_eq!(m.register(3), 0);
    assert_eq!(m.pc(), 0x204);
}

#[test]
fn random_respects_mask() {
    let mut m = load(&[0xC3, 0x0F]);
    run(&mut m, 1);
    assert!(m.register(3) <= 0x0F);
}

#[test]
fn delay_timer_roundtrip_through_registers() {
    let mut m = load(&[0x60, 0x30, 0xF0, 0x15, 0xF1, 0x07]);
    run(&mut m, 3);
    assert_eq!(m.delay_timer(), 0x30);
    assert_eq!(m.register(1), 0x30);
}

#[test]
fn timers_tick_down_and_stop_at_zero() {
    // delay_timer = 1: one tick reaches 0, a further tick stays at 0.
    let mut m = load(&[0x60, 0x01, 0xF0, 0x15]);
    run(&mut m, 2);
    assert_eq!(m.delay_timer(), 1);
    m.tick_timers();
    assert_eq!(m.delay_timer(), 0);
    m.tick_timers();
    assert_eq!(m.delay_timer(), 0);
}

#[test]
fn sound_timer_signals_while_nonzero() {
    let mut m = load(&[0x60, 0x02, 0xF0, 0x18]);
    run(&mut m, 2);
    assert_eq!(m.sound_timer(), 2);
    assert!(m.tick_timers());
    assert!(m.tick_timers());
    assert!(!m.tick_timers());
    assert_eq!(m.sound_timer(), 0);
}

#[test]
fn wait_for_key_spins_until_pressed() {
    let mut m = load(&[0xF3, 0x0A]);
    m.cycle().unwrap();
    assert_eq!(m.pc(), 0x200);
    m.cycle().unwrap();
    assert_eq!(m.pc(), 0x200);
    m.set_key(7, true);
    m.set_key(2, true);
    m.cycle().unwrap();
    assert_eq!(m.register(3), 2);
    assert_eq!(m.pc(), 0x202);
}

#[test]
fn skip_on_key_state() {
    let mut m = load(&[0x63, 0x05, 0xE3, 0x9E]);
    m.set_key(5, true);
    run(&mut m, 2);
    assert_eq!(m.pc(), 0x202 + 4);

    let mut m2 = load(&[0x63, 0x05, 0xE3, 0x9E]);
    run(&mut m2, 2);
    assert_eq!(m2.pc(), 0x202 + 2);

    let mut m3 = load(&[0x63, 0x05, 0xE3, 0xA1]);
    run(&mut m3, 2);
    assert_eq!(m3.pc(), 0x202 + 4);
}

#[test]
fn key_index_out_of_range_is_fatal() {
    let mut m = load(&[0x63, 0x14, 0xE3, 0x9E]);
    run(&mut m, 1);
    assert_eq!(m.cycle(), Err(Fault::KeyOutOfRange));
    assert_eq!(m.pc(), 0x202);
}

#[test]
fn clear_keys_releases_everything() {
    let mut m = Chip8::new();
    m.set_key(0, true);
    m.set_key(15, true);
    assert!(m.key(0) && m.key(15));
    m.clear_keys();
    for k in 0..16 {
        assert!(!m.key(k));
    }
}

#[test]
fn image_loads_verbatim_at_start_address() {
    let mut m = Chip8::new();
    assert_eq!(m.load_image(&vec![1, 2, 3]), Ok(()));
    assert_eq!(m.read_byte(START_ADDRESS), 1);
    assert_eq!(m.read_byte(START_ADDRESS + 1), 2);
    assert_eq!(m.read_byte(START_ADDRESS + 2), 3);
    assert_eq!(m.read_byte(START_ADDRESS + 3), 0);
    assert_eq!(m.read_byte(START_ADDRESS - 1), 0);
    assert_eq!(m.pc(), 0x200);
}

#[test]
fn oversized_image_is_rejected_without_change() {
    let mut m = Chip8::new();
    let too_big = vec![0xAAu8; MEMORY_SIZE - START_ADDRESS + 1];
    assert_eq!(m.load_image(&too_big), Err(LoadError::ImageTooLarge));
    for a in 0..MEMORY_SIZE {
        assert_eq!(m.read_byte(a), 0);
    }
    let just_fits = vec![0xBBu8; MEMORY_SIZE - START_ADDRESS];
    assert_eq!(m.load_image(&just_fits), Ok(()));
    assert_eq!(m.read_byte(MEMORY_SIZE - 1), 0xBB);
}

#[test]
fn write_byte_then_read_byte() {
    let mut m = Chip8::new();
    m.write_byte(0x123, 0x77);
    assert_eq!(m.read_byte(0x123), 0x77);
    assert_eq!(m.read_byte(0x124), 0);
}

#[test]
fn built_in_demonstration_program_bytes() {
    let mut m = Chip8::new();
    m.load_test_instructions();
    let head = [0x00, 0xE0, 0xF0, 0x0A, 0x60, 0x00, 0x61, 0x00, 0xA3, 0x00];
    for (k, &b) in head.iter().enumerate() {
        assert_eq!(m.read_byte(0x200 + k), b);
    }
    // The two bytes after the copied prefix stay empty.
    assert_eq!(m.read_byte(0x20A), 0);
    assert_eq!(m.read_byte(0x20B), 0);
    let glyph = [0xF0, 0x90, 0x90, 0x90, 0xF0];
    for (k, &b) in glyph.iter().enumerate() {
        assert_eq!(m.read_byte(0x300 + k), b);
    }
}
