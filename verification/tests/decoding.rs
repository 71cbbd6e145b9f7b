use rusty_chip_8::instruction::{decode, Instruction};

#[test]
fn every_instruction_decodes() {
    let cases = [
        (0x00E0, Instruction::Cls),
        (0x00EE, Instruction::Ret),
        (0x1ABC, Instruction::Jp(0xABC)),
        (0x2FFF, Instruction::Call(0xFFF)),
        (0x3A12, Instruction::SeByte(0xA, 0x12)),
        (0x4B34, Instruction::SneByte(0xB, 0x34)),
        (0x5CD0, Instruction::SeReg(0xC, 0xD)),
        (0x6E56, Instruction::LdByte(0xE, 0x56)),
        (0x7F78, Instruction::AddByte(0xF, 0x78)),
        (0x8120, Instruction::LdReg(1, 2)),
        (0x8121, Instruction::Or(1, 2)),
        (0x8122, Instruction::And(1, 2)),
        (0x8123, Instruction::Xor(1, 2)),
        (0x8124, Instruction::AddReg(1, 2)),
        (0x8125, Instruction::Sub(1, 2)),
        (0x8126, Instruction::Shr(1, 2)),
        (0x8127, Instruction::Subn(1, 2)),
        (0x812E, Instruction::Shl(1, 2)),
        (0x9340, Instruction::SneReg(3, 4)),
        (0xA123, Instruction::LdI(0x123)),
        (0xB456, Instruction::JpV0(4, 0x456)),
        (0xC5FF, Instruction::Rnd(5, 0xFF)),
        (0xD67F, Instruction::Drw(6, 7, 0xF)),
        (0xE89E, Instruction::Skp(8)),
        (0xE9A1, Instruction::Sknp(9)),
        (0xFA07, Instruction::LdVxDt(0xA)),
        (0xFB0A, Instruction::LdVxK(0xB)),
        (0xFC15, Instruction::LdDtVx(0xC)),
        (0xFD18, Instruction::LdStVx(0xD)),
        (0xFE1E, Instruction::AddI(0xE)),
        (0xFF29, Instruction::LdF(0xF)),
        (0xF033, Instruction::LdB(0)),
        (0xF155, Instruction::LdIVx(1)),
        (0xF265, Instruction::LdVxI(2)),
    ];
    for (word, instruction) in cases {
        assert_eq!(decode(word), instruction, "{:04X}", word);
    }
}

#[test]
fn group_zero_is_selected_by_its_low_byte() {
    assert_eq!(decode(0x0FE0), Instruction::Cls);
    assert_eq!(decode(0x01EE), Instruction::Ret);
    assert_eq!(decode(0x0123), Instruction::Unmatched(0x0123));
}

#[test]
fn words_without_an_instruction() {
    for word in [0x0000, 0x00E1, 0x8128, 0x812D, 0x812F, 0xE19F, 0xE100, 0xF100, 0xF1FF, 0xF134] {
        assert_eq!(decode(word), Instruction::Unmatched(word));
    }
}

#[test]
fn every_word_decodes_to_operands_that_fit() {
    for word in 0..=u16::MAX {
        let x = ((word >> 8) & 0xF) as usize;
        let y = ((word >> 4) & 0xF) as usize;
        match decode(word) {
            Instruction::Jp(address) | Instruction::Call(address) | Instruction::LdI(address) => {
                assert_eq!(address, word & 0xFFF)
            }
            Instruction::JpV0(register, address) => {
                assert_eq!((register, address), (x, word & 0xFFF))
            }
            Instruction::SeByte(register, byte)
            | Instruction::SneByte(register, byte)
            | Instruction::LdByte(register, byte)
            | Instruction::AddByte(register, byte)
            | Instruction::Rnd(register, byte) => assert_eq!((register, byte), (x, word as u8)),
            Instruction::Drw(first, second, rows) => {
                assert_eq!((first, second, rows), (x, y, (word & 0xF) as u8))
            }
            Instruction::SeReg(first, second)
            | Instruction::LdReg(first, second)
            | Instruction::Or(first, second)
            | Instruction::And(first, second)
            | Instruction::Xor(first, second)
            | Instruction::AddReg(first, second)
            | Instruction::Sub(first, second)
            | Instruction::Shr(first, second)
            | Instruction::Subn(first, second)
            | Instruction::Shl(first, second)
            | Instruction::SneReg(first, second) => assert_eq!((first, second), (x, y)),
            Instruction::Skp(register)
            | Instruction::Sknp(register)
            | Instruction::LdVxDt(register)
            | Instruction::LdVxK(register)
            | Instruction::LdDtVx(register)
            | Instruction::LdStVx(register)
            | Instruction::AddI(register)
            | Instruction::LdF(register)
            | Instruction::LdB(register)
            | Instruction::LdIVx(register)
            | Instruction::LdVxI(register) => assert_eq!(register, x),
            Instruction::Cls | Instruction::Ret => assert_eq!(word >> 12, 0),
            Instruction::Unmatched(raw) => assert_eq!(raw, word),
        }
    }
}
