use rusty_chip_8::chip8::Chip8;
use rusty_chip_8::display::{clear, draw_sprite, DisplayBuffer, HEIGHT, PIXEL_OFF, PIXEL_ON, WIDTH};

fn dark() -> DisplayBuffer {
    [PIXEL_OFF; WIDTH * HEIGHT]
}

fn lit(display: &DisplayBuffer) -> Vec<(usize, usize)> {
    let mut pixels = Vec::new();
    for position in 0..WIDTH * HEIGHT {
        if display[position] != PIXEL_OFF {
            assert_eq!(display[position], PIXEL_ON);
            pixels.push((position % WIDTH, position / WIDTH));
        }
    }
    pixels
}

#[test]
fn clear_turns_every_pixel_dark() {
    let mut display: DisplayBuffer = [0x123456; WIDTH * HEIGHT];
    clear(&mut display);
    assert_eq!(display, dark());
}

#[test]
fn draw_toggles_the_set_bits_row_by_row() {
    let mut display = dark();
    let collision = draw_sprite(&mut display, &[0b1000_0001, 0b0100_0000, 0xFF], 3, 4);
    assert!(!collision);
    let mut expected = vec![(3, 4), (10, 4), (4, 5)];
    expected.extend((3..11).map(|x| (x, 6)));
    assert_eq!(lit(&display), expected);
}

#[test]
fn drawing_twice_restores_the_display_and_collides() {
    let mut display = dark();
    let sprite = [0xF0, 0x90, 0x90, 0x90, 0xF0];
    assert!(!draw_sprite(&mut display, &sprite, 20, 10));
    assert!(draw_sprite(&mut display, &sprite, 20, 10));
    assert_eq!(display, dark());
}

#[test]
fn collision_needs_a_lit_pixel_under_a_set_bit() {
    let mut display = dark();
    display[5 * WIDTH + 8] = PIXEL_ON;
    // the lit pixel lies under a clear bit
    assert!(!draw_sprite(&mut display, &[0b0111_1111], 8, 5));
    // now under a set bit
    assert!(draw_sprite(&mut display, &[0b1000_0000], 8, 5));
    assert_eq!(lit(&display), (9..16).map(|x| (x, 5)).collect::<Vec<_>>());
    // a collision in the first row is remembered through later rows
    let mut display = dark();
    display[0] = PIXEL_ON;
    assert!(draw_sprite(&mut display, &[0x80, 0x80, 0x80], 0, 0));
    assert_eq!(lit(&display), vec![(0, 1), (0, 2)]);
}

#[test]
fn a_pixel_that_is_neither_on_nor_off_is_toggled_without_collision() {
    let mut display = dark();
    display[0] = 0xFFFFFFFF;
    assert!(!draw_sprite(&mut display, &[0x80], 0, 0));
    assert_eq!(display[0], 0xFF000000);
}

#[test]
fn sprites_are_clipped_at_the_right_edge() {
    let mut display = dark();
    assert!(!draw_sprite(&mut display, &[0xFF, 0xFF], 60, 0));
    assert_eq!(
        lit(&display),
        vec![(60, 0), (61, 0), (62, 0), (63, 0), (60, 1), (61, 1), (62, 1), (63, 1)]
    );
}

#[test]
fn sprites_are_clipped_at_the_bottom_edge() {
    let mut display = dark();
    assert!(!draw_sprite(&mut display, &[0x80, 0x80, 0x80, 0x80], 7, 30));
    assert_eq!(lit(&display), vec![(7, 30), (7, 31)]);
}

#[test]
fn a_sprite_outside_the_display_draws_nothing() {
    let mut display = dark();
    display[100] = PIXEL_ON;
    let before = display;
    for (x, y) in [(64u8, 0u8), (255, 0), (0, 32), (0, 255), (64, 32), (200, 200)] {
        assert!(!draw_sprite(&mut display, &[0xFF; 15], x, y));
        assert_eq!(display, before);
    }
    assert!(!draw_sprite(&mut display, &[], 0, 0));
    assert_eq!(display, before);
}

#[test]
fn draw_instruction_wraps_the_corner_and_clips_the_rest() {
    let mut chip = Chip8::init(&[]);
    let mut display = dark();
    chip.index_register = 0x300;
    chip.memory[0x300] = 0xFF;
    chip.memory[0x301] = 0xFF;
    // the corner (64 + 62, 32 + 31) wraps to (62, 31); what is right of and below it is cut
    chip.registers[0xA] = 126;
    chip.registers[0xB] = 63;
    chip.registers[0xF] = 9;
    chip.op_dxyn(0xA, 0xB, 2, &mut display);
    assert_eq!(lit(&display), vec![(62, 31), (63, 31)]);
    assert_eq!(chip.registers[0xF], 0);
    chip.op_dxyn(0xA, 0xB, 2, &mut display);
    assert_eq!(display, dark());
    assert_eq!(chip.registers[0xF], 1);
    assert_eq!(chip.index_register, 0x300);
}

#[test]
fn draw_instruction_reads_its_corner_before_it_resets_the_flag() {
    let mut chip = Chip8::init(&[]);
    let mut display = dark();
    chip.index_register = 0x300;
    chip.memory[0x300] = 0x80;
    chip.registers[0xF] = 5;
    chip.op_dxyn(0xF, 0xF, 1, &mut display);
    assert_eq!(lit(&display), vec![(5, 5)]);
    assert_eq!(chip.registers[0xF], 0);
}

#[test]
fn draw_instruction_with_no_rows() {
    let mut chip = Chip8::init(&[]);
    let mut display = dark();
    display[0] = PIXEL_ON;
    chip.registers[0xF] = 1;
    chip.index_register = 0xFFFF;
    chip.op_dxyn(0, 0, 0, &mut display);
    assert_eq!(lit(&display), vec![(0, 0)]);
    assert_eq!(chip.registers[0xF], 0);
}
