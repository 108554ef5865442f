use chip8::machine::Chip8;
use chip8::scale::scale_buffer;
use chip8::sem::Fault;
use chip8::{VIDEO_HEIGHT, VIDEO_WIDTH};

fn load(program: &[u8]) -> Chip8 {
    let mut m = Chip8::new();
    m.load_image(&program.to_vec()).unwrap();
    m
}

fn run(m: &mut Chip8, cycles: usize) {
    for _ in 0..cycles {
        m.cycle().unwrap();
    }
}

#[test]
fn draw_lights_sprite_pixels() {
    // A 2-row sprite at (3, 5): 0xF0 lights four pixels, 0x90 the two
    // outer ones of the next row.
    let mut m = load(&[
        0x60, 0x03, // V0 = 3
        0x61, 0x05, // V1 = 5
        0xA3, 0x00, // I = 0x300
        0xD0, 0x12, // draw 2 rows at (V0, V1)
    ]);
    m.write_byte(0x300, 0xF0);
    m.write_byte(0x301, 0x90);
    run(&mut m, 4);
    for bit in 0..8 {
        assert_eq!(m.pixel(3 + bit, 5), bit < 4);
        assert_eq!(m.pixel(3 + bit, 6), bit == 0 || bit == 3);
    }
    assert_eq!(m.register(0xF), 0);
}

#[test]
fn draw_wraps_both_coordinates() {
    let mut m = load(&[
        0x60, 0x3E, // V0 = 62
        0x61, 0x1F, // V1 = 31
        0xA3, 0x00, // I = 0x300
        0xD0, 0x12, // draw 2 rows at (62, 31)
    ]);
    m.write_byte(0x300, 0xFF);
    m.write_byte(0x301, 0x80);
    run(&mut m, 4);
    // Row 31 holds all eight bits of 0xFF, wrapping from x=62 to x=5.
    for x in 0..VIDEO_WIDTH {
        let lit = x >= 62 || x < 6;
        assert_eq!(m.pixel(x, 31), lit);
    }
    // The second row wraps to y=0; only its leftmost bit is set.
    assert!(m.pixel(62, 0));
    for x in 0..VIDEO_WIDTH {
        if x != 62 {
            assert!(!m.pixel(x, 0));
        }
    }
    assert_eq!(m.register(0xF), 0);
}

#[test]
fn draw_twice_restores_and_reports_collision() {
    // The same draw twice: every touched pixel returns to unset, the
    // first draw reports no collision, the second reports one because
    // the first lit those pixels.
    let mut m = load(&[
        0x60, 0x0A, // V0 = 10
        0x61, 0x02, // V1 = 2
        0xA3, 0x00, // I = 0x300
        0xD0, 0x13, // draw 3 rows
        0xD0, 0x13, // draw the same 3 rows again
    ]);
    m.write_byte(0x300, 0xF0);
    m.write_byte(0x301, 0x90);
    m.write_byte(0x302, 0xF0);
    run(&mut m, 4);
    assert_eq!(m.register(0xF), 0);
    assert!(m.pixel(10, 2));
    run(&mut m, 1);
    assert_eq!(m.register(0xF), 1);
    for y in 0..VIDEO_HEIGHT {
        for x in 0..VIDEO_WIDTH {
            assert!(!m.pixel(x, y));
        }
    }
}

#[test]
fn draw_collision_only_for_overlap() {
    // Two sprites sharing one pixel: the overlapping draw sets the flag
    // and unsets exactly the shared pixel.
    let mut m = load(&[
        0x60, 0x00, // V0 = 0
        0x61, 0x00, // V1 = 0
        0xA3, 0x00, // I = 0x300
        0xD0, 0x11, // draw 0b11110000 at (0, 0)
        0x60, 0x03, // V0 = 3
        0xD0, 0x11, // draw again at (3, 0): overlaps at x=3 only
    ]);
    m.write_byte(0x300, 0xF0);
    run(&mut m, 6);
    assert_eq!(m.register(0xF), 1);
    for x in 0..8 {
        assert_eq!(m.pixel(x, 0), x < 3 || (x > 3 && x < 7));
    }
}

#[test]
fn draw_with_zero_height_only_clears_flag() {
    let mut m = load(&[
        0x6F, 0x01, // VF = 1
        0xD0, 0x00, // draw zero rows
    ]);
    run(&mut m, 2);
    assert_eq!(m.register(0xF), 0);
    for y in 0..VIDEO_HEIGHT {
        for x in 0..VIDEO_WIDTH {
            assert!(!m.pixel(x, y));
        }
    }
}

#[test]
fn draw_reading_past_memory_is_fatal() {
    let mut m = load(&[0xAF, 0xFC, 0xD0, 0x01]);
    run(&mut m, 1);
    assert_eq!(m.cycle(), Err(Fault::MemoryOutOfBounds));
    assert_eq!(m.pc(), 0x202);
}

#[test]
fn scale_buffer_expands_each_pixel() {
    let buffer = vec![1u32, 2, 3, 4, 5, 6];
    let scaled = scale_buffer(&buffer, 3, 2, 2);
    let expected: Vec<u32> = vec![
        1, 1, 2, 2, 3, 3, //
        1, 1, 2, 2, 3, 3, //
        4, 4, 5, 5, 6, 6, //
        4, 4, 5, 5, 6, 6, //
    ];
    assert_eq!(scaled, expected);
}

#[test]
fn scale_buffer_with_factor_one_is_identity() {
    let buffer = vec![7u32, 8, 9, 10];
    assert_eq!(scale_buffer(&buffer, 2, 2, 1), buffer);
}
