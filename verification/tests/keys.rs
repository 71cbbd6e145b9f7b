use rusty_chip_8::audio::{tone_for, Tone};
use rusty_chip_8::chip8::Chip8;
use rusty_chip_8::keypad::{create_bindings, highest_key_down, is_key_down, key_mask, Key};
use rusty_chip_8::timer::{Timer, TIMER_RATE};

#[test]
fn default_bindings_follow_the_keyboard_layout() {
    let bindings = create_bindings();
    assert_eq!(
        bindings,
        vec![
            (Key::Key1, 0x0002),
            (Key::Key2, 0x0004),
            (Key::Key3, 0x0008),
            (Key::Key4, 0x1000),
            (Key::Q, 0x0010),
            (Key::W, 0x0020),
            (Key::E, 0x0040),
            (Key::R, 0x2000),
            (Key::A, 0x0080),
            (Key::S, 0x0100),
            (Key::D, 0x0200),
            (Key::F, 0x4000),
            (Key::Z, 0x0400),
            (Key::X, 0x0001),
            (Key::C, 0x0800),
            (Key::V, 0x8000),
        ]
    );
    let mut all = 0u16;
    for (_, mask) in &bindings {
        assert_eq!(mask.count_ones(), 1);
        assert_eq!(all & mask, 0);
        all |= mask;
    }
    assert_eq!(all, 0xFFFF);
}

#[test]
fn key_mask_collects_the_pressed_keys() {
    let bindings = create_bindings();
    assert_eq!(key_mask(&bindings, &[]), 0);
    assert_eq!(key_mask(&bindings, &[Key::X]), 0x0001);
    assert_eq!(key_mask(&bindings, &[Key::V, Key::Key1, Key::C]), 0x8802);
    // a key that is reported twice is still held
    assert_eq!(key_mask(&bindings, &[Key::Q, Key::Q]), 0x0010);
}

#[test]
fn key_mask_with_other_bindings() {
    assert_eq!(key_mask(&[], &[Key::Q, Key::W]), 0);
    let bindings = [(Key::Q, 0x0003), (Key::W, 0x0100), (Key::Q, 0x0040)];
    assert_eq!(key_mask(&bindings, &[Key::Q]), 0x0043);
    assert_eq!(key_mask(&bindings, &[Key::W, Key::E]), 0x0100);
    assert_eq!(key_mask(&bindings, &[Key::E]), 0);
}

#[test]
fn keys_down() {
    assert!(is_key_down(0x8000, 15));
    assert!(!is_key_down(0x8000, 14));
    assert!(is_key_down(0x0001, 0));
    assert!(!is_key_down(0xFFFF, 16));
    assert!(!is_key_down(0xFFFF, 255));
    assert!(!is_key_down(0, 0));
}

#[test]
fn highest_key() {
    assert_eq!(highest_key_down(0), None);
    assert_eq!(highest_key_down(1), Some(0));
    assert_eq!(highest_key_down(0x0010), Some(4));
    assert_eq!(highest_key_down(0x8001), Some(15));
    assert_eq!(highest_key_down(0x7FFF), Some(14));
    for key in 0..16u8 {
        assert_eq!(highest_key_down(1 << key), Some(key));
        assert_eq!(highest_key_down((1 << key) | 1), Some(key));
    }
}

#[test]
fn skip_if_key_reads_the_bit_named_by_vx() {
    for key in 0..16u8 {
        let mut chip = Chip8::init(&[]);
        chip.registers[2] = key;
        chip.op_ex9e(2, 1 << key);
        assert_eq!(chip.pc, 0x202);
        chip.op_ex9e(2, !(1 << key));
        assert_eq!(chip.pc, 0x202);
        chip.op_exa1(2, 1 << key);
        assert_eq!(chip.pc, 0x202);
        chip.op_exa1(2, !(1 << key));
        assert_eq!(chip.pc, 0x204);
    }
}

#[test]
fn a_timer_set_to_n_reaches_zero_after_n_ticks() {
    for start in [0u8, 1, 2, 60, 255] {
        let mut timer = Timer::init();
        assert_eq!(timer.get(), 0);
        timer.set(start);
        for elapsed in 0..start {
            assert_eq!(timer.get(), start - elapsed);
            timer.tick();
        }
        assert_eq!(timer.get(), 0);
        timer.tick();
        assert_eq!(timer.get(), 0);
    }
}

#[test]
fn setting_a_running_timer_restarts_it() {
    let mut timer = Timer::init();
    timer.set(10);
    timer.tick();
    timer.tick();
    timer.set(3);
    assert_eq!(timer.get(), 3);
    timer.tick();
    assert_eq!(timer.get(), 2);
    timer.set(0);
    assert_eq!(timer.get(), 0);
}

#[test]
fn timers_run_at_sixty_hertz() {
    assert_eq!(TIMER_RATE, 60);
}

#[test]
fn the_tone_follows_the_sound_timer() {
    assert_eq!(tone_for(0), Tone::Pause);
    assert_eq!(tone_for(1), Tone::Play);
    assert_eq!(tone_for(255), Tone::Play);
}
