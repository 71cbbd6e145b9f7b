//! The mathematical model of the processor state and of what each instruction does to it.

use vstd::prelude::*;
use crate::chip8::{MEMORY_SIZE, REGISTERS};
use crate::display::{HEIGHT, WIDTH};
use crate::fonts;
use crate::keypad::{highest_key, key_down};
use crate::timer::after_ticks;

verus! {

/// Index of the flag register, written by arithmetic, shift and draw instructions.
pub const FLAG: usize = 0xF;

/// Number of bytes in one instruction.
pub const INSTRUCTION_LENGTH: u16 = 2;

/// The state of the processor as plain mathematical values.
pub struct Machine {
    /// The addressable bytes.
    pub memory: Seq<u8>,
    /// The sixteen general registers `V0` to `VF`.
    pub registers: Seq<u8>,
    /// Address of the next instruction.
    pub pc: u16,
    /// The index register `I`.
    pub index: u16,
    /// Return addresses, the most recent call last.
    pub stack: Seq<u16>,
    /// The delay timer.
    pub delay: u8,
    /// The sound timer.
    pub sound: u8,
}

/// The low eight bits of `value`.
pub open spec fn low_byte(value: int) -> u8 {
    (value % 0x100) as u8
}

/// The low sixteen bits of `value`.
pub open spec fn low_word(value: int) -> u16 {
    (value % 0x1_0000) as u16
}

/// One when `condition` holds, zero otherwise.
pub open spec fn flag_of(condition: bool) -> u8 {
    if condition {
        1
    } else {
        0
    }
}

/// The number of sprite rows that fit on the display when the first row is drawn at row `y`.
pub open spec fn visible_rows(y: int, rows: int) -> int {
    if y + rows <= HEIGHT {
        rows
    } else {
        HEIGHT - y
    }
}

impl Machine {
    /// Whether the machine has the memory and the register file of a CHIP-8.
    pub open spec fn valid(self) -> bool {
        self.memory.len() == MEMORY_SIZE && self.registers.len() == REGISTERS
    }

    /// The value of register `x`.
    pub open spec fn v(self, x: int) -> u8 {
        self.registers[x]
    }

    /// The machine with register `x` holding `value`.
    pub open spec fn with_register(self, x: int, value: u8) -> Machine {
        Machine { registers: self.registers.update(x, value), ..self }
    }

    /// The machine with register `x` holding `value` and the flag register then set to `flag`.
    /// When `x` is the flag register itself, the flag wins.
    pub open spec fn with_result(self, x: int, value: u8, flag: u8) -> Machine {
        self.with_register(x, value).with_register(FLAG as int, flag)
    }

    /// The machine with the program counter at `address`.
    pub open spec fn with_pc(self, address: u16) -> Machine {
        Machine { pc: address, ..self }
    }

    /// Whether both bytes of the instruction at the program counter lie within memory.
    pub open spec fn can_fetch(self) -> bool {
        self.pc + 1 < self.memory.len()
    }

    /// Whether the `count` bytes at the index register lie within memory. No bytes always do.
    pub open spec fn can_access(self, count: int) -> bool {
        count <= 0 || self.index + count <= self.memory.len()
    }

    /// The 16-bit word stored at `address`, most significant byte first.
    pub open spec fn word_at(self, address: int) -> u16 {
        (self.memory[address] * 0x100 + self.memory[address + 1]) as u16
    }

    /// The state after the instruction at the program counter has been read.
    pub open spec fn fetched(self) -> Machine {
        self.with_pc((self.pc + INSTRUCTION_LENGTH) as u16)
    }

    /// `RET`: resume after the most recent call.
    pub open spec fn ret(self) -> Machine {
        Machine { pc: self.stack.last(), stack: self.stack.drop_last(), ..self }
    }

    /// `JP addr`.
    pub open spec fn jump(self, address: u16) -> Machine {
        self.with_pc(address)
    }

    /// `CALL addr`: remember where to resume, then jump.
    pub open spec fn call(self, address: u16) -> Machine {
        Machine { pc: address, stack: self.stack.push(self.pc), ..self }
    }

    /// Steps over the next instruction when `condition` holds.
    pub open spec fn skip_if(self, condition: bool) -> Machine {
        if condition {
            self.with_pc((self.pc + INSTRUCTION_LENGTH) as u16)
        } else {
            self
        }
    }

    /// `ADD Vx, byte`: the sum modulo 256; the flag register is left alone.
    pub open spec fn add_byte(self, x: int, byte: u8) -> Machine {
        self.with_register(x, low_byte(self.v(x) + byte))
    }

    /// `OR Vx, Vy`, which also clears the flag register.
    pub open spec fn or(self, x: int, y: int) -> Machine {
        self.with_result(x, self.v(x) | self.v(y), 0)
    }

    /// `AND Vx, Vy`, which also clears the flag register.
    pub open spec fn and(self, x: int, y: int) -> Machine {
        self.with_result(x, self.v(x) & self.v(y), 0)
    }

    /// `XOR Vx, Vy`, which also clears the flag register.
    pub open spec fn xor(self, x: int, y: int) -> Machine {
        self.with_result(x, self.v(x) ^ self.v(y), 0)
    }

    /// `ADD Vx, Vy`: the sum modulo 256, with the flag set exactly when the sum exceeds 255.
    pub open spec fn add_registers(self, x: int, y: int) -> Machine {
        let sum = self.v(x) + self.v(y);
        self.with_result(x, low_byte(sum), flag_of(sum > 0xFF))
    }

    /// `SUB Vx, Vy` and `SUBN Vx, Vy`: `minuend - subtrahend` modulo 256 goes to `Vx`, with the
    /// flag set exactly when nothing had to be borrowed.
    pub open spec fn subtract(self, x: int, minuend: int, subtrahend: int) -> Machine {
        let difference = self.v(minuend) - self.v(subtrahend);
        self.with_result(x, low_byte(difference), flag_of(difference >= 0))
    }

    /// `SHR Vx, Vy`: `Vx` receives `Vy` shifted right by one, the flag the bit shifted out.
    pub open spec fn shift_right(self, x: int, y: int) -> Machine {
        self.with_result(x, self.v(y) / 2, self.v(y) % 2)
    }

    /// `SHL Vx, Vy`: `Vx` receives `Vy` shifted left by one, the flag the bit shifted out.
    pub open spec fn shift_left(self, x: int, y: int) -> Machine {
        self.with_result(x, low_byte(self.v(y) * 2), self.v(y) / 0x80)
    }

    /// `LD I, addr`.
    pub open spec fn with_index(self, address: u16) -> Machine {
        Machine { index: address, ..self }
    }

    /// `JP V0, addr`: jump to `addr` plus the value of register zero.
    pub open spec fn jump_offset(self, address: u16) -> Machine {
        self.with_pc((address + self.v(0)) as u16)
    }

    /// `RND Vx, byte` for a given random byte.
    pub open spec fn random(self, x: int, byte: u8, random: u8) -> Machine {
        self.with_register(x, random & byte)
    }

    /// Where `DRW Vx, Vy, n` puts the left edge of the sprite.
    pub open spec fn sprite_x(self, x: int) -> int {
        (self.v(x) as int) % (WIDTH as int)
    }

    /// Where `DRW Vx, Vy, n` puts the top edge of the sprite.
    pub open spec fn sprite_y(self, y: int) -> int {
        (self.v(y) as int) % (HEIGHT as int)
    }

    /// The rows that `DRW Vx, Vy, n` reads from memory: those of the `rows` at the index
    /// register that are not cut off by the bottom edge of the display.
    pub open spec fn sprite(self, y: int, rows: int) -> Seq<u8> {
        Seq::new(
            visible_rows(self.sprite_y(y), rows) as nat,
            |row: int| self.memory[self.index + row],
        )
    }

    /// Whether the rows that `DRW Vx, Vy, n` reads lie within memory.
    pub open spec fn sprite_in_bounds(self, y: int, rows: int) -> bool {
        self.can_access(visible_rows(self.sprite_y(y), rows))
    }

    /// `SKP Vx` and `SKNP Vx`: skip when whether the key named by `Vx` is held equals `held`.
    pub open spec fn skip_if_key(self, x: int, keys: u16, held: bool) -> Machine {
        self.skip_if(key_down(keys, self.v(x) as int) == held)
    }

    /// `LD Vx, K`: with no key held, go back to this instruction; otherwise `Vx` receives the
    /// highest key held.
    pub open spec fn wait_key(self, x: int, keys: u16) -> Machine {
        if keys == 0 {
            self.with_pc((self.pc - INSTRUCTION_LENGTH) as u16)
        } else {
            self.with_register(x, highest_key(keys) as u8)
        }
    }

    /// `LD DT, Vx`.
    pub open spec fn with_delay(self, value: u8) -> Machine {
        Machine { delay: value, ..self }
    }

    /// `LD ST, Vx`.
    pub open spec fn with_sound(self, value: u8) -> Machine {
        Machine { sound: value, ..self }
    }

    /// `ADD I, Vx`: the sum modulo 65536; the flag register is set to one when the sum does
    /// not fit in sixteen bits and left alone when it does.
    pub open spec fn add_index(self, x: int) -> Machine {
        let sum = self.index + self.v(x);
        let moved = self.with_index(low_word(sum));
        if sum > 0xFFFF {
            moved.with_register(FLAG as int, 1)
        } else {
            moved
        }
    }

    /// `LD F, Vx`: point the index register at the glyph for `Vx`.
    pub open spec fn font(self, x: int) -> Machine {
        self.with_index(fonts::glyph_address(self.v(x) as int) as u16)
    }

    /// `LD B, Vx`: the hundreds, tens and ones of `Vx` go to the three bytes at the index
    /// register.
    pub open spec fn decimal(self, x: int) -> Machine {
        let value = self.v(x);
        let at = self.index as int;
        Machine {
            memory: self.memory.update(at, value / 100).update(at + 1, (value / 10) % 10).update(
                at + 2,
                value % 10,
            ),
            ..self
        }
    }

    /// `LD [I], Vx`: registers zero to `x` go to memory at the index register, which then
    /// moves past them.
    pub open spec fn store(self, x: int) -> Machine {
        let at = self.index as int;
        Machine {
            memory: Seq::new(
                self.memory.len(),
                |address: int|
                    if at <= address <= at + x {
                        self.registers[address - at]
                    } else {
                        self.memory[address]
                    },
            ),
            index: (at + x + 1) as u16,
            ..self
        }
    }

    /// `LD Vx, [I]`: registers zero to `x` are read from memory at the index register, which
    /// then moves past them.
    pub open spec fn load(self, x: int) -> Machine {
        let at = self.index as int;
        Machine {
            registers: Seq::new(
                self.registers.len(),
                |register: int|
                    if 0 <= register <= x {
                        self.memory[at + register]
                    } else {
                        self.registers[register]
                    },
            ),
            index: (at + x + 1) as u16,
            ..self
        }
    }

    /// Both timers after `ticks` decrements.
    pub open spec fn after_ticks(self, ticks: nat) -> Machine {
        Machine {
            delay: after_ticks(self.delay, ticks),
            sound: after_ticks(self.sound, ticks),
            ..self
        }
    }
}

/// The three bytes that `LD B, Vx` writes are decimal digits, and read as hundreds, tens and
/// ones they give back the value of `Vx`. Nothing else in memory changes.
pub proof fn lemma_decimal(machine: Machine, x: int)
    requires
        machine.valid(),
        0 <= x < REGISTERS,
        machine.can_access(3),
    ensures
        ({
            let after = machine.decimal(x);
            let at = machine.index as int;
            &&& after.memory[at] < 10 && after.memory[at + 1] < 10 && after.memory[at + 2] < 10
            &&& after.memory[at] * 100 + after.memory[at + 1] * 10 + after.memory[at + 2]
                == machine.v(x)
            &&& forall|address: int|
                0 <= address < at || at + 3 <= address < MEMORY_SIZE ==> after.memory[address]
                    == machine.memory[address]
        }),
{
}

/// `LD [I], Vx` copies registers zero to `x` to the `x + 1` bytes at the index register,
/// leaves every other byte and every register as it was, and moves the index register on by
/// `x + 1`.
pub proof fn lemma_store(machine: Machine, x: int)
    requires
        machine.valid(),
        0 <= x < REGISTERS,
        machine.can_access(x + 1),
    ensures
        ({
            let after = machine.store(x);
            let at = machine.index as int;
            &&& forall|register: int|
                0 <= register <= x ==> after.memory[at + register] == machine.v(register)
            &&& forall|address: int|
                0 <= address < at || at + x < address < MEMORY_SIZE ==> after.memory[address]
                    == machine.memory[address]
            &&& after.registers == machine.registers
            &&& after.index == at + x + 1
        }),
{
}

/// `LD Vx, [I]` copies the `x + 1` bytes at the index register to registers zero to `x`,
/// leaves every other register and all of memory as it was, and moves the index register on
/// by `x + 1`.
pub proof fn lemma_load(machine: Machine, x: int)
    requires
        machine.valid(),
        0 <= x < REGISTERS,
        machine.can_access(x + 1),
    ensures
        ({
            let after = machine.load(x);
            let at = machine.index as int;
            &&& forall|register: int|
                0 <= register <= x ==> after.v(register) == machine.memory[at + register]
            &&& forall|register: int|
                x < register < REGISTERS ==> after.v(register) == machine.v(register)
            &&& after.memory == machine.memory
            &&& after.index == at + x + 1
        }),
{
}

} // verus!
