//! The CHIP-8 processor: memory, registers, call stack and timers, and one method per
//! instruction.
//!
//! Every method that touches memory or the register file states as a precondition that the
//! registers it names exist and that the addresses it uses lie within memory.
//! [`Chip8::step`](crate::chip8::Chip8::step) has no precondition: it checks these conditions
//! itself and reports a fault instead of executing an instruction that would break one.

use vstd::prelude::*;
use crate::display;
use crate::display::{blank, blit, collides, DisplayBuffer, HEIGHT, WIDTH};
use crate::fonts;
use crate::keypad;
use crate::machine::{flag_of, low_byte, Machine, FLAG, INSTRUCTION_LENGTH};
use crate::timer::Timer;

verus! {

/// Number of addressable bytes.
pub const MEMORY_SIZE: usize = 4096;

/// Number of general registers.
pub const REGISTERS: usize = 16;

/// Address at which a program is loaded and at which execution starts.
pub const PROGRAM_START: usize = 0x200;

/// The addressable bytes.
pub type Memory = [u8; 4096];

/// The processor.
pub struct Chip8 {
    pub memory: Memory,
    pub pc: u16,
    pub index_register: u16,
    pub stack: Vec<u16>,
    pub delay_timer: Timer,
    pub sound_timer: Timer,
    pub registers: [u8; 0x10],
}

impl View for Chip8 {
    type V = Machine;

    open spec fn view(&self) -> Machine {
        Machine {
            memory: self.memory@,
            registers: self.registers@,
            pc: self.pc,
            index: self.index_register,
            stack: self.stack@,
            delay: self.delay_timer@,
            sound: self.sound_timer@,
        }
    }
}

/// Memory with the font in place: the glyph bytes from `fonts::START` on, every other byte
/// as in `memory`.
pub open spec fn with_fonts(memory: Seq<u8>) -> Seq<u8> {
    Seq::new(
        memory.len(),
        |address: int|
            if fonts::START <= address < fonts::START + fonts::FONT_SET@.len() {
                fonts::FONT_SET@[address - fonts::START]
            } else {
                memory[address]
            },
    )
}

/// Memory with a program in place: the bytes of `rom` from `PROGRAM_START` on, as many as fit,
/// every other byte as in `memory`.
pub open spec fn with_program(memory: Seq<u8>, rom: Seq<u8>) -> Seq<u8> {
    Seq::new(
        memory.len(),
        |address: int|
            if PROGRAM_START <= address < PROGRAM_START + rom.len() {
                rom[address - PROGRAM_START]
            } else {
                memory[address]
            },
    )
}

/// The state in which a machine starts to run `rom`.
pub open spec fn initial(rom: Seq<u8>) -> Machine {
    Machine {
        memory: with_program(with_fonts(Seq::new(MEMORY_SIZE as nat, |address: int| 0u8)), rom),
        registers: Seq::new(REGISTERS as nat, |register: int| 0u8),
        pc: PROGRAM_START as u16,
        index: 0,
        stack: Seq::empty(),
        delay: 0,
        sound: 0,
    }
}

/// Copies the font into memory.
pub fn load_fonts(memory: &mut Memory)
    ensures
        final(memory)@ == with_fonts(old(memory)@),
{
    let ghost before = memory@;
    let mut offset: usize = 0;
    while offset < fonts::FONT_SET.len()
        invariant
            offset <= fonts::FONT_SET@.len() == 80,
            memory@.len() == before.len(),
            forall|address: int|
                0 <= address < before.len() ==> #[trigger] memory@[address] == if fonts::START
                    <= address < fonts::START + offset {
                    fonts::FONT_SET@[address - fonts::START]
                } else {
                    before[address]
                },
        decreases fonts::FONT_SET@.len() - offset,
    {
        memory[fonts::START + offset] = fonts::FONT_SET[offset];
        offset += 1;
    }
}

/// Copies a program into memory. Bytes that do not fit below the end of memory are dropped.
pub fn load_program(memory: &mut Memory, rom: &[u8])
    ensures
        final(memory)@ == with_program(old(memory)@, rom@),
{
    let ghost before = memory@;
    let mut offset: usize = 0;
    while offset < rom.len() && offset < MEMORY_SIZE - PROGRAM_START
        invariant
            offset <= rom@.len(),
            offset <= MEMORY_SIZE - PROGRAM_START,
            memory@.len() == before.len(),
            forall|address: int|
                0 <= address < before.len() ==> #[trigger] memory@[address] == if PROGRAM_START
                    <= address < PROGRAM_START + offset {
                    rom@[address - PROGRAM_START]
                } else {
                    before[address]
                },
        decreases rom@.len() - offset,
    {
        memory[PROGRAM_START + offset] = rom[offset];
        offset += 1;
    }
}

/// Draws one byte from the thread-local generator of the `rand` crate, by `rand::random`.
/// Nothing is claimed of the byte: any value may come back, and two calls may differ.
#[verifier::external_body]
pub(crate) fn random_byte() -> u8 {
    rand::random::<u8>()
}

impl Chip8 {
    /// The model of every processor has the memory and the register file of a CHIP-8.
    pub proof fn lemma_view_valid(&self)
        ensures
            self@.valid(),
    {
    }

    /// A machine ready to run `rom`: the font and the program in memory, the program counter
    /// at the start of the program, everything else zero.
    pub fn init(rom: &[u8]) -> (chip: Chip8)
        ensures
            chip@ == initial(rom@),
    {
        let mut memory = [0u8; 4096];
        load_fonts(&mut memory);
        load_program(&mut memory, rom);
        let chip = Chip8 {
            memory,
            pc: PROGRAM_START as u16,
            index_register: 0x0,
            stack: Vec::new(),
            delay_timer: Timer::init(),
            sound_timer: Timer::init(),
            registers: [0x0u8; 0x10],
        };
        assert(chip@.memory =~= initial(rom@).memory);
        assert(chip@.registers =~= initial(rom@).registers);
        chip
    }

    /// Reads the instruction at the program counter and moves the counter past it.
    pub fn fetch(&mut self) -> (instruction: u16)
        requires
            old(self).pc + 1 < MEMORY_SIZE,
        ensures
            instruction == old(self)@.word_at(old(self).pc as int),
            final(self)@ == old(self)@.fetched(),
    {
        let high = self.memory[self.pc as usize];
        let low = self.memory[self.pc as usize + 1];
        self.pc += INSTRUCTION_LENGTH;
        high as u16 * 0x100 + low as u16
    }

    /// `CLS`: clear the screen.
    pub fn op_00e0(&mut self, display_buffer: &mut DisplayBuffer)
        ensures
            final(display_buffer)@ == blank(),
            final(self)@ == old(self)@,
    {
        display::clear(display_buffer);
    }

    /// `RET`: return from a subroutine.
    pub fn op_00ee(&mut self)
        requires
            old(self)@.stack.len() > 0,
        ensures
            final(self)@ == old(self)@.ret(),
    {
        self.pc = self.stack.pop().expect("Can't return from top level");
    }

    /// `JP addr`: jump to `address`.
    pub fn op_1nnn(&mut self, address: u16)
        ensures
            final(self)@ == old(self)@.jump(address),
    {
        self.pc = address;
    }

    /// `CALL addr`: call the subroutine at `address`.
    pub fn op_2nnn(&mut self, address: u16)
        ensures
            final(self)@ == old(self)@.call(address),
    {
        self.stack.push(self.pc);
        self.pc = address;
    }

    /// `SE Vx, byte`: skip the next instruction if `Vx` equals `value`.
    pub fn op_3xnn(&mut self, vx: usize, value: u8)
        requires
            vx < REGISTERS,
            old(self).pc + INSTRUCTION_LENGTH <= u16::MAX,
        ensures
            final(self)@ == old(self)@.skip_if(old(self)@.v(vx as int) == value),
    {
        if self.registers[vx] == value {
            self.pc += INSTRUCTION_LENGTH;
        }
    }

    /// `SNE Vx, byte`: skip the next instruction if `Vx` differs from `value`.
    pub fn op_4xnn(&mut self, vx: usize, value: u8)
        requires
            vx < REGISTERS,
            old(self).pc + INSTRUCTION_LENGTH <= u16::MAX,
        ensures
            final(self)@ == old(self)@.skip_if(old(self)@.v(vx as int) != value),
    {
        if self.registers[vx] != value {
            self.pc += INSTRUCTION_LENGTH;
        }
    }

    /// `SE Vx, Vy`: skip the next instruction if `Vx` equals `Vy`.
    pub fn op_5xy0(&mut self, vx: usize, vy: usize)
        requires
            vx < REGISTERS,
            vy < REGISTERS,
            old(self).pc + INSTRUCTION_LENGTH <= u16::MAX,
        ensures
            final(self)@ == old(self)@.skip_if(old(self)@.v(vx as int) == old(self)@.v(vy as int)),
    {
        if self.registers[vx] == self.registers[vy] {
            self.pc += INSTRUCTION_LENGTH;
        }
    }

    /// `LD Vx, byte`: set `Vx` to `value`.
    pub fn op_6xnn(&mut self, vx: usize, value: u8)
        requires
            vx < REGISTERS,
        ensures
            final(self)@ == old(self)@.with_register(vx as int, value),
    {
        self.registers[vx] = value
    }

    /// `ADD Vx, byte`: add `value` to `Vx`, wrapping around; the flag register is untouched.
    pub fn op_7xnn(&mut self, vx: usize, value: u8)
        requires
            vx < REGISTERS,
        ensures
            final(self)@ == old(self)@.add_byte(vx as int, value),
    {
        let sum = self.registers[vx] as u16 + value as u16;
        self.registers[vx] = (sum % 0x100) as u8;
    }

    /// `LD Vx, Vy`: set `Vx` to `Vy`.
    pub fn op_8xy0(&mut self, vx: usize, vy: usize)
        requires
            vx < REGISTERS,
            vy < REGISTERS,
        ensures
            final(self)@ == old(self)@.with_register(vx as int, old(self)@.v(vy as int)),
    {
        self.registers[vx] = self.registers[vy]
    }

    /// `OR Vx, Vy`: bitwise or into `Vx`; the flag register is reset.
    pub fn op_8xy1(&mut self, vx: usize, vy: usize)
        requires
            vx < REGISTERS,
            vy < REGISTERS,
        ensures
            final(self)@ == old(self)@.or(vx as int, vy as int),
            final(self)@.v(FLAG as int) == 0,
    {
        self.registers[vx] = self.registers[vx] | self.registers[vy];
        self.registers[FLAG] = 0x0;
    }

    /// `AND Vx, Vy`: bitwise and into `Vx`; the flag register is reset.
    pub fn op_8xy2(&mut self, vx: usize, vy: usize)
        requires
            vx < REGISTERS,
            vy < REGISTERS,
        ensures
            final(self)@ == old(self)@.and(vx as int, vy as int),
            final(self)@.v(FLAG as int) == 0,
    {
        self.registers[vx] = self.registers[vx] & self.registers[vy];
        self.registers[FLAG] = 0x0;
    }

    /// `XOR Vx, Vy`: bitwise exclusive or into `Vx`; the flag register is reset.
    pub fn op_8xy3(&mut self, vx: usize, vy: usize)
        requires
            vx < REGISTERS,
            vy < REGISTERS,
        ensures
            final(self)@ == old(self)@.xor(vx as int, vy as int),
            final(self)@.v(FLAG as int) == 0,
    {
        self.registers[vx] = self.registers[vx] ^ self.registers[vy];
        self.registers[FLAG] = 0x0;
    }

    /// `ADD Vx, Vy`: add `Vy` to `Vx`, wrapping around; the flag register is one if the sum
    /// exceeds 255 and zero if it does not.
    pub fn op_8xy4(&mut self, vx: usize, vy: usize)
        requires
            vx < REGISTERS,
            vy < REGISTERS,
        ensures
            final(self)@ == old(self)@.add_registers(vx as int, vy as int),
            final(self)@.v(FLAG as int) == flag_of(
                old(self)@.v(vx as int) + old(self)@.v(vy as int) > 0xFF,
            ),
    {
        let sum = self.registers[vx] as u16 + self.registers[vy] as u16;
        self.registers[vx] = (sum % 0x100) as u8;
        if sum > 0xFF {
            self.registers[FLAG] = 0x1;
        } else {
            self.registers[FLAG] = 0x0;
        }
    }

    /// `SUB Vx, Vy`: `Vx = Vx - Vy`, wrapping around; the flag register is one if nothing was
    /// borrowed and zero if the subtraction underflowed.
    pub fn op_8xy5(&mut self, vx: usize, vy: usize)
        requires
            vx < REGISTERS,
            vy < REGISTERS,
        ensures
            final(self)@ == old(self)@.subtract(vx as int, vx as int, vy as int),
            final(self)@.v(FLAG as int) == flag_of(
                old(self)@.v(vx as int) >= old(self)@.v(vy as int),
            ),
    {
        let minuend = self.registers[vx];
        let subtrahend = self.registers[vy];
        self.subtract_into(vx, minuend, subtrahend);
    }

    /// `SHR Vx, Vy`: `Vx = Vy >> 1`; the flag register receives the bit shifted out.
    pub fn op_8xy6(&mut self, vx: usize, vy: usize)
        requires
            vx < REGISTERS,
            vy < REGISTERS,
        ensures
            final(self)@ == old(self)@.shift_right(vx as int, vy as int),
    {
        let value = self.registers[vy];
        let right_bit = value & 0b1;
        assert(value >> 1 == value / 2 && value & 0b1 == value % 2) by (bit_vector);
        self.registers[vx] = value >> 1;
        self.registers[FLAG] = right_bit;
    }

    /// `SUBN Vx, Vy`: `Vx = Vy - Vx`, wrapping around; the flag register is one if nothing was
    /// borrowed and zero if the subtraction underflowed.
    pub fn op_8xy7(&mut self, vx: usize, vy: usize)
        requires
            vx < REGISTERS,
            vy < REGISTERS,
        ensures
            final(self)@ == old(self)@.subtract(vx as int, vy as int, vx as int),
            final(self)@.v(FLAG as int) == flag_of(
                old(self)@.v(vy as int) >= old(self)@.v(vx as int),
            ),
    {
        let minuend = self.registers[vy];
        let subtrahend = self.registers[vx];
        self.subtract_into(vx, minuend, subtrahend);
    }

    /// `SHL Vx, Vy`: `Vx = Vy << 1`; the flag register receives the bit shifted out.
    pub fn op_8xye(&mut self, vx: usize, vy: usize)
        requires
            vx < REGISTERS,
            vy < REGISTERS,
        ensures
            final(self)@ == old(self)@.shift_left(vx as int, vy as int),
    {
        let value = self.registers[vy];
        let left_bit = (value >> 7) & 0b1;
        assert((value >> 7) & 0b1 == value / 0x80) by (bit_vector);
        assert(value << 1 == (value * 2) % 0x100) by (bit_vector);
        self.registers[vx] = value << 1;
        self.registers[FLAG] = left_bit;
    }

    /// `SNE Vx, Vy`: skip the next instruction if `Vx` differs from `Vy`.
    pub fn op_9xy0(&mut self, vx: usize, vy: usize)
        requires
            vx < REGISTERS,
            vy < REGISTERS,
            old(self).pc + INSTRUCTION_LENGTH <= u16::MAX,
        ensures
            final(self)@ == old(self)@.skip_if(old(self)@.v(vx as int) != old(self)@.v(vy as int)),
    {
        if self.registers[vx] != self.registers[vy] {
            self.pc += INSTRUCTION_LENGTH;
        }
    }

    /// `LD I, addr`: set the index register.
    pub fn op_annn(&mut self, address: u16)
        ensures
            final(self)@ == old(self)@.with_index(address),
    {
        self.index_register = address;
    }

    /// `JP V0, addr`: jump to `address` plus the value of register zero, whatever register
    /// the instruction names.
    pub fn op_bnnn(&mut self, _vx: usize, address: u16)
        requires
            address + old(self)@.v(0) <= u16::MAX,
        ensures
            final(self)@ == old(self)@.jump_offset(address),
    {
        let offset = self.registers[0x0];
        self.pc = address + offset as u16;
    }

    /// `RND Vx, byte`: set `Vx` to a random byte masked by `value`.
    pub fn op_cxnn(&mut self, vx: usize, value: u8)
        requires
            vx < REGISTERS,
        ensures
            exists|random: u8| final(self)@ == old(self)@.random(vx as int, value, random),
    {
        let random = random_byte();
        self.op_cxnn_with(vx, value, random);
    }

    /// `RND Vx, byte` with the random byte supplied: set `Vx` to `random` masked by `value`.
    pub fn op_cxnn_with(&mut self, vx: usize, value: u8, random: u8)
        requires
            vx < REGISTERS,
        ensures
            final(self)@ == old(self)@.random(vx as int, value, random),
    {
        self.registers[vx] = random & value
    }

    /// `DRW Vx, Vy, n`: draw the `num_of_rows` sprite rows at the index register with the
    /// top-left corner at (`Vx` mod 64, `Vy` mod 32). Sprite pixels toggle display pixels;
    /// what would fall beyond the right or bottom edge is not drawn. The flag register is one
    /// if a lit pixel was toggled and zero if none was.
    pub fn op_dxyn(
        &mut self,
        vx: usize,
        vy: usize,
        num_of_rows: u8,
        display_buffer: &mut DisplayBuffer,
    )
        requires
            vx < REGISTERS,
            vy < REGISTERS,
            old(self)@.sprite_in_bounds(vy as int, num_of_rows as int),
        ensures
            final(display_buffer)@ == blit(
                old(display_buffer)@,
                old(self)@.sprite(vy as int, num_of_rows as int),
                old(self)@.sprite_x(vx as int),
                old(self)@.sprite_y(vy as int),
            ),
            final(self)@ == old(self)@.with_register(
                FLAG as int,
                flag_of(
                    collides(
                        old(display_buffer)@,
                        old(self)@.sprite(vy as int, num_of_rows as int),
                        old(self)@.sprite_x(vx as int),
                        old(self)@.sprite_y(vy as int),
                    ),
                ),
            ),
    {
        let x = self.registers[vx] % (WIDTH as u8);
        let y = self.registers[vy] % (HEIGHT as u8);
        let visible = if y as usize + num_of_rows as usize <= HEIGHT {
            num_of_rows as usize
        } else {
            HEIGHT - y as usize
        };
        let start = if visible == 0 {
            0
        } else {
            self.index_register as usize
        };
        let sprite = vstd::slice::slice_subrange(&self.memory, start, start + visible);
        assert(sprite@ =~= self@.sprite(vy as int, num_of_rows as int));
        let collision = display::draw_sprite(display_buffer, sprite, x, y);
        self.registers[FLAG] = if collision {
            0x1
        } else {
            0x0
        };
    }

    /// `SKP Vx`: skip the next instruction if the key named by `Vx` is held.
    pub fn op_ex9e(&mut self, vx: usize, key_map: u16)
        requires
            vx < REGISTERS,
            old(self).pc + INSTRUCTION_LENGTH <= u16::MAX,
        ensures
            final(self)@ == old(self)@.skip_if_key(vx as int, key_map, true),
    {
        if keypad::is_key_down(key_map, self.registers[vx]) {
            self.pc += INSTRUCTION_LENGTH;
        }
    }

    /// `SKNP Vx`: skip the next instruction if the key named by `Vx` is not held.
    pub fn op_exa1(&mut self, vx: usize, key_map: u16)
        requires
            vx < REGISTERS,
            old(self).pc + INSTRUCTION_LENGTH <= u16::MAX,
        ensures
            final(self)@ == old(self)@.skip_if_key(vx as int, key_map, false),
    {
        if !keypad::is_key_down(key_map, self.registers[vx]) {
            self.pc += INSTRUCTION_LENGTH;
        }
    }

    /// `LD Vx, DT`: set `Vx` to the delay timer.
    pub fn op_fx07(&mut self, vx: usize)
        requires
            vx < REGISTERS,
        ensures
            final(self)@ == old(self)@.with_register(vx as int, old(self)@.delay),
    {
        self.registers[vx] = self.delay_timer.get();
    }

    /// `LD Vx, K`: wait for a key. While no key is held the program counter is moved back so
    /// that this instruction runs again; once one is, `Vx` receives the highest key held.
    pub fn op_fx0a(&mut self, vx: usize, key_map: u16)
        requires
            vx < REGISTERS,
            key_map == 0 ==> old(self).pc >= INSTRUCTION_LENGTH,
        ensures
            final(self)@ == old(self)@.wait_key(vx as int, key_map),
    {
        match keypad::highest_key_down(key_map) {
            None => {
                self.pc -= INSTRUCTION_LENGTH;
            },
            Some(key) => {
                self.registers[vx] = key;
            },
        }
    }

    /// `LD DT, Vx`: set the delay timer to `Vx`.
    pub fn op_fx15(&mut self, vx: usize)
        requires
            vx < REGISTERS,
        ensures
            final(self)@ == old(self)@.with_delay(old(self)@.v(vx as int)),
    {
        self.delay_timer.set(self.registers[vx]);
    }

    /// `LD ST, Vx`: set the sound timer to `Vx`.
    pub fn op_fx18(&mut self, vx: usize)
        requires
            vx < REGISTERS,
        ensures
            final(self)@ == old(self)@.with_sound(old(self)@.v(vx as int)),
    {
        self.sound_timer.set(self.registers[vx]);
    }

    /// `ADD I, Vx`: add `Vx` to the index register, wrapping around; the flag register is set
    /// to one if the sum does not fit in sixteen bits.
    pub fn op_fx1e(&mut self, vx: usize)
        requires
            vx < REGISTERS,
        ensures
            final(self)@ == old(self)@.add_index(vx as int),
    {
        let sum = self.index_register as u32 + self.registers[vx] as u32;
        if sum > 0xFFFF {
            self.registers[FLAG] = 0x1;
        }
        self.index_register = (sum % 0x1_0000) as u16;
    }

    /// `LD F, Vx`: point the index register at the glyph for `Vx`.
    pub fn op_fx29(&mut self, vx: usize)
        requires
            vx < REGISTERS,
        ensures
            final(self)@ == old(self)@.font(vx as int),
    {
        self.index_register = (fonts::START + self.registers[vx] as usize * fonts::LENGTH) as u16;
    }

    /// `LD B, Vx`: write the hundreds, tens and ones of `Vx` to the three bytes at the index
    /// register.
    pub fn op_fx33(&mut self, vx: usize)
        requires
            vx < REGISTERS,
            old(self).index_register + 2 < MEMORY_SIZE,
        ensures
            final(self)@ == old(self)@.decimal(vx as int),
    {
        let value = self.registers[vx];
        let at = self.index_register as usize;
        self.memory[at] = value / 100;
        self.memory[at + 1] = (value / 10) % 10;
        self.memory[at + 2] = value % 10;
    }

    /// `LD [I], Vx`: copy registers zero to `vx` to memory at the index register, then move
    /// the index register past them.
    pub fn op_fx55(&mut self, vx: usize)
        requires
            vx < REGISTERS,
            old(self).index_register + vx < MEMORY_SIZE,
        ensures
            final(self)@ == old(self)@.store(vx as int),
    {
        let ghost before = self@;
        let at = self.index_register as usize;
        let mut current_reg: usize = 0;
        while current_reg <= vx
            invariant
                vx < REGISTERS,
                at + vx < MEMORY_SIZE,
                current_reg <= vx + 1,
                before.memory.len() == MEMORY_SIZE,
                before.registers.len() == REGISTERS,
                self@ == (Machine { memory: self@.memory, ..before }),
                self@.memory.len() == MEMORY_SIZE,
                forall|address: int|
                    0 <= address < MEMORY_SIZE ==> #[trigger] self@.memory[address] == if at
                        <= address < at + current_reg {
                        before.registers[address - at]
                    } else {
                        before.memory[address]
                    },
            decreases vx + 1 - current_reg,
        {
            self.memory[at + current_reg] = self.registers[current_reg];
            current_reg += 1;
        }
        self.index_register += vx as u16 + 1;
        assert(self@.memory =~= before.store(vx as int).memory);
    }

    /// `LD Vx, [I]`: read registers zero to `vx` from memory at the index register, then move
    /// the index register past them.
    pub fn op_fx65(&mut self, vx: usize)
        requires
            vx < REGISTERS,
            old(self).index_register + vx < MEMORY_SIZE,
        ensures
            final(self)@ == old(self)@.load(vx as int),
    {
        let ghost before = self@;
        let at = self.index_register as usize;
        let mut current_reg: usize = 0;
        while current_reg <= vx
            invariant
                vx < REGISTERS,
                at + vx < MEMORY_SIZE,
                current_reg <= vx + 1,
                before.memory.len() == MEMORY_SIZE,
                before.registers.len() == REGISTERS,
                self@ == (Machine { registers: self@.registers, ..before }),
                self@.registers.len() == REGISTERS,
                forall|register: int|
                    0 <= register < REGISTERS ==> #[trigger] self@.registers[register]
                        == if register < current_reg {
                        before.memory[at + register]
                    } else {
                        before.registers[register]
                    },
            decreases vx + 1 - current_reg,
        {
            self.registers[current_reg] = self.memory[at + current_reg];
            current_reg += 1;
        }
        self.index_register += vx as u16 + 1;
        assert(self@.registers =~= before.load(vx as int).registers);
    }

    /// Lets one sixtieth of a second pass: both timers lose one unless already at zero.
    pub fn tick_timers(&mut self)
        ensures
            final(self)@ == old(self)@.after_ticks(1),
    {
        self.delay_timer.tick();
        self.sound_timer.tick();
    }

    /// Sets `Vx` to `minuend - subtrahend`, wrapping around, and then the flag register to
    /// one if `minuend >= subtrahend` and to zero otherwise.
    fn subtract_into(&mut self, vx: usize, minuend: u8, subtrahend: u8)
        requires
            vx < REGISTERS,
        ensures
            final(self)@ == old(self)@.with_result(
                vx as int,
                low_byte(minuend - subtrahend),
                flag_of(minuend >= subtrahend),
            ),
    {
        if minuend >= subtrahend {
            self.registers[vx] = minuend - subtrahend;
            self.registers[FLAG] = 0x1;
        } else {
            self.registers[vx] = (0x100 - (subtrahend - minuend) as u16) as u8;
            self.registers[FLAG] = 0x0;
        }
    }
}

} // verus!
