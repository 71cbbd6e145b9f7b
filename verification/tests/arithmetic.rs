use rusty_chip_8::chip8::Chip8;

fn with_registers(vx: u8, vy: u8, flag: u8) -> Chip8 {
    let mut chip = Chip8::init(&[]);
    chip.registers[3] = vx;
    chip.registers[4] = vy;
    chip.registers[0xF] = flag;
    chip
}

#[test]
fn add_sets_the_flag_exactly_on_overflow() {
    for (vx, vy, sum, flag) in [
        (0u8, 0u8, 0u8, 0u8),
        (0xFF, 0x00, 0xFF, 0),
        (0x80, 0x7F, 0xFF, 0),
        (0x80, 0x80, 0x00, 1),
        (0xFF, 0xFF, 0xFE, 1),
        (0x01, 0xFF, 0x00, 1),
    ] {
        for prior in [0u8, 1, 0xAA] {
            let mut chip = with_registers(vx, vy, prior);
            chip.op_8xy4(3, 4);
            assert_eq!(chip.registers[3], sum);
            assert_eq!(chip.registers[4], vy);
            assert_eq!(chip.registers[0xF], flag);
        }
    }
}

#[test]
fn sub_sets_the_flag_exactly_without_borrow() {
    for (vx, vy, difference, flag) in [
        (5u8, 5u8, 0u8, 1u8),
        (0, 0, 0, 1),
        (0, 1, 0xFF, 0),
        (0x10, 0x20, 0xF0, 0),
        (0xFF, 0x01, 0xFE, 1),
        (0x00, 0xFF, 0x01, 0),
    ] {
        for prior in [0u8, 1, 0xAA] {
            let mut chip = with_registers(vx, vy, prior);
            chip.op_8xy5(3, 4);
            assert_eq!(chip.registers[3], difference);
            assert_eq!(chip.registers[0xF], flag);
            // SUBN with the operands exchanged computes the same difference
            let mut chip = with_registers(vy, vx, prior);
            chip.op_8xy7(3, 4);
            assert_eq!(chip.registers[3], difference);
            assert_eq!(chip.registers[0xF], flag);
        }
    }
}

#[test]
fn bitwise_operations_reset_the_flag() {
    for prior in [0u8, 1, 0xFF] {
        let mut chip = with_registers(0b1010, 0b1100, prior);
        chip.op_8xy1(3, 4);
        assert_eq!((chip.registers[3], chip.registers[0xF]), (0b1110, 0));
        let mut chip = with_registers(0b1010, 0b1100, prior);
        chip.op_8xy2(3, 4);
        assert_eq!((chip.registers[3], chip.registers[0xF]), (0b1000, 0));
        let mut chip = with_registers(0b1010, 0b1100, prior);
        chip.op_8xy3(3, 4);
        assert_eq!((chip.registers[3], chip.registers[0xF]), (0b0110, 0));
    }
}

#[test]
fn the_flag_wins_when_it_is_the_destination() {
    let mut chip = Chip8::init(&[]);
    chip.registers[0xF] = 0xF0;
    chip.registers[1] = 0x20;
    chip.op_8xy4(0xF, 1);
    assert_eq!(chip.registers[0xF], 1);
    chip.registers[0xF] = 0x0F;
    chip.op_8xy1(0xF, 1);
    assert_eq!(chip.registers[0xF], 0);
    chip.registers[0xF] = 0x30;
    chip.op_8xy5(0xF, 1);
    assert_eq!(chip.registers[0xF], 1);
    chip.registers[1] = 0x03;
    chip.op_8xy6(0xF, 1);
    assert_eq!(chip.registers[0xF], 1);
    chip.registers[1] = 0x7F;
    chip.op_8xye(0xF, 1);
    assert_eq!(chip.registers[0xF], 0);
}

#[test]
fn the_flag_as_an_operand_is_read_before_it_is_written() {
    let mut chip = Chip8::init(&[]);
    chip.registers[0xF] = 0xFF;
    chip.registers[2] = 0x02;
    chip.op_8xy4(2, 0xF);
    assert_eq!(chip.registers[2], 0x01);
    assert_eq!(chip.registers[0xF], 1);
    chip.registers[0xF] = 0x81;
    chip.op_8xy6(2, 0xF);
    assert_eq!(chip.registers[2], 0x40);
    assert_eq!(chip.registers[0xF], 1);
}

#[test]
fn shifts_read_vy() {
    let mut chip = with_registers(0xAA, 0b1000_0101, 0);
    chip.op_8xy6(3, 4);
    assert_eq!(chip.registers[3], 0b0100_0010);
    assert_eq!(chip.registers[4], 0b1000_0101);
    assert_eq!(chip.registers[0xF], 1);
    let mut chip = with_registers(0xAA, 0b1000_0101, 0);
    chip.op_8xye(3, 4);
    assert_eq!(chip.registers[3], 0b0000_1010);
    assert_eq!(chip.registers[4], 0b1000_0101);
    assert_eq!(chip.registers[0xF], 1);
    let mut chip = with_registers(0xAA, 0, 1);
    chip.op_8xy6(3, 4);
    assert_eq!((chip.registers[3], chip.registers[0xF]), (0, 0));
    let mut chip = with_registers(0xAA, 0xFF, 0);
    chip.op_8xye(3, 4);
    assert_eq!((chip.registers[3], chip.registers[0xF]), (0xFE, 1));
}

#[test]
fn add_byte_leaves_the_flag_alone() {
    let mut chip = with_registers(0xFF, 0, 0x55);
    chip.op_7xnn(3, 0x02);
    assert_eq!(chip.registers[3], 0x01);
    assert_eq!(chip.registers[0xF], 0x55);
    chip.op_7xnn(0xF, 0xAB);
    assert_eq!(chip.registers[0xF], 0x00);
}

#[test]
fn add_to_index_sets_the_flag_only_on_overflow() {
    let mut chip = Chip8::init(&[]);
    chip.index_register = 0xFF00;
    chip.registers[1] = 0xFF;
    chip.registers[0xF] = 0x77;
    chip.op_fx1e(1);
    assert_eq!(chip.index_register, 0xFFFF);
    assert_eq!(chip.registers[0xF], 0x77);
    chip.op_fx1e(1);
    assert_eq!(chip.index_register, 0x00FE);
    assert_eq!(chip.registers[0xF], 1);
    // adding the flag register itself: its old value is added, then it is set
    chip.index_register = 0xFFFF;
    chip.registers[0xF] = 0x02;
    chip.op_fx1e(0xF);
    assert_eq!(chip.index_register, 0x0001);
    assert_eq!(chip.registers[0xF], 1);
}

#[test]
fn font_addresses() {
    let mut chip = Chip8::init(&[]);
    for digit in 0..16u8 {
        chip.registers[2] = digit;
        chip.op_fx29(2);
        assert_eq!(chip.index_register, 0x50 + 5 * digit as u16);
    }
    chip.registers[2] = 0xFF;
    chip.op_fx29(2);
    assert_eq!(chip.index_register, 0x50 + 5 * 255);
    // the glyph for 1
    chip.registers[2] = 1;
    chip.op_fx29(2);
    let at = chip.index_register as usize;
    assert_eq!(&chip.memory[at..at + 5], &[0x20, 0x60, 0x20, 0x20, 0x70]);
}

#[test]
fn decimal_digits() {
    for (value, digits) in [(0u8, [0u8, 0, 0]), (7, [0, 0, 7]), (90, [0, 9, 0]), (255, [2, 5, 5]),
        (100, [1, 0, 0]), (234, [2, 3, 4])] {
        let mut chip = Chip8::init(&[]);
        chip.index_register = 0x300;
        chip.registers[6] = value;
        chip.memory[0x2FF] = 0xEE;
        chip.memory[0x303] = 0xEE;
        chip.op_fx33(6);
        assert_eq!(&chip.memory[0x2FF..0x304], &[0xEE, digits[0], digits[1], digits[2], 0xEE]);
        assert_eq!(chip.index_register, 0x300);
        assert_eq!(chip.registers[6], value);
    }
}

#[test]
fn store_copies_registers_zero_to_x() {
    let mut chip = Chip8::init(&[]);
    for register in 0..16 {
        chip.registers[register] = 0x10 + register as u8;
    }
    chip.index_register = 0x400;
    chip.memory[0x3FF] = 0xEE;
    chip.memory[0x404] = 0xEE;
    let registers = chip.registers;
    chip.op_fx55(3);
    assert_eq!(&chip.memory[0x3FF..0x405], &[0xEE, 0x10, 0x11, 0x12, 0x13, 0xEE]);
    assert_eq!(chip.registers, registers);
    assert_eq!(chip.index_register, 0x404);
    chip.op_fx55(0);
    assert_eq!(chip.memory[0x404], 0x10);
    assert_eq!(chip.memory[0x405], 0);
    assert_eq!(chip.index_register, 0x405);
    chip.index_register = 0xFF0;
    chip.op_fx55(0xF);
    assert_eq!(&chip.memory[0xFF0..], &registers);
    assert_eq!(chip.index_register, 0x1000);
}

#[test]
fn load_copies_memory_to_registers_zero_to_x() {
    let mut chip = Chip8::init(&[]);
    for offset in 0..16 {
        chip.memory[0x500 + offset] = 0xA0 + offset as u8;
    }
    chip.registers = [0x11; 16];
    chip.index_register = 0x500;
    let memory = chip.memory;
    chip.op_fx65(2);
    let mut expected = [0x11; 16];
    expected[0] = 0xA0;
    expected[1] = 0xA1;
    expected[2] = 0xA2;
    assert_eq!(chip.registers, expected);
    assert_eq!(chip.memory, memory);
    assert_eq!(chip.index_register, 0x503);
    chip.index_register = 0x500;
    chip.op_fx65(0xF);
    assert_eq!(chip.registers, &memory[0x500..0x510]);
    assert_eq!(chip.index_register, 0x510);
}

#[test]
fn load_register_and_copy() {
    let mut chip = with_registers(1, 2, 3);
    chip.op_6xnn(0xF, 0x99);
    assert_eq!(chip.registers[0xF], 0x99);
    chip.op_8xy0(4, 0xF);
    assert_eq!(chip.registers[4], 0x99);
    assert_eq!(chip.registers[3], 1);
    chip.op_annn(0xFFF);
    assert_eq!(chip.index_register, 0xFFF);
}
