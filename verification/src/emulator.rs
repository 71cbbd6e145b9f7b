//! The fetch, decode and execute cycle.
//!
//! An instruction that would read or write beyond memory, or return with nothing on the call
//! stack, is not executed: the cycle reports a fault and leaves the machine and the display
//! exactly as they were before it, so that the program counter still points at the offending
//! instruction.

use vstd::prelude::*;
use crate::chip8::{random_byte, Chip8, MEMORY_SIZE, REGISTERS};
use crate::display::{blank, blit, collides, DisplayBuffer, HEIGHT};
use crate::instruction::{decode, decode_spec, Instruction};
use crate::keypad::key_down;
use crate::machine::{flag_of, Machine, FLAG, INSTRUCTION_LENGTH};

verus! {

/// How a cycle that executed ended.
#[derive(Clone, Copy, Debug, PartialEq, Eq, Structural)]
pub enum Outcome {
    /// The instruction was executed; the program counter names the next one.
    Continue,
    /// The instruction waits for a key and none is held; it will run again.
    WaitingForKey,
    /// The word encodes no instruction and was stepped over.
    Unmatched(u16),
}

/// Why a cycle could not execute.
#[derive(Clone, Copy, Debug, PartialEq, Eq, Structural)]
pub enum Fault {
    /// The instruction, or bytes that it reads or writes, lie beyond the end of memory.
    AddressOutOfBounds,
    /// A return with no call to return from.
    StackUnderflow,
}

/// What a cycle leaves behind.
pub struct Effect {
    pub machine: Machine,
    pub display: Seq<u32>,
    pub result: Result<Outcome, Fault>,
}

/// An instruction executed: the new state, and on to the next instruction.
pub open spec fn done(machine: Machine, display: Seq<u32>) -> Effect {
    Effect { machine, display, result: Ok(Outcome::Continue) }
}

/// An instruction refused: nothing changes.
pub open spec fn refused(machine: Machine, display: Seq<u32>, fault: Fault) -> Effect {
    Effect { machine, display, result: Err(fault) }
}

/// Whether a skip instruction, met in state `machine` with the keys in `keys` held, skips the
/// instruction after it.
pub open spec fn skips(instruction: Instruction, machine: Machine, keys: u16) -> bool {
    match instruction {
        Instruction::SeByte(x, byte) => machine.v(x as int) == byte,
        Instruction::SneByte(x, byte) => machine.v(x as int) != byte,
        Instruction::SeReg(x, y) => machine.v(x as int) == machine.v(y as int),
        Instruction::SneReg(x, y) => machine.v(x as int) != machine.v(y as int),
        Instruction::Skp(x) => key_down(keys, machine.v(x as int) as int),
        Instruction::Sknp(x) => !key_down(keys, machine.v(x as int) as int),
        _ => false,
    }
}

/// What executing `instruction` does to a machine whose program counter already names the
/// following instruction, with the keys in `keys` held and `random` as the random byte.
pub open spec fn execute_spec(
    machine: Machine,
    display: Seq<u32>,
    instruction: Instruction,
    keys: u16,
    random: u8,
) -> Effect {
    match instruction {
        Instruction::Cls => done(machine, blank()),
        Instruction::Ret => if machine.stack.len() == 0 {
            refused(machine, display, Fault::StackUnderflow)
        } else {
            done(machine.ret(), display)
        },
        Instruction::Jp(address) => done(machine.jump(address), display),
        Instruction::Call(address) => done(machine.call(address), display),
        Instruction::SeByte(_, _)
        | Instruction::SneByte(_, _)
        | Instruction::SeReg(_, _)
        | Instruction::SneReg(_, _)
        | Instruction::Skp(_)
        | Instruction::Sknp(_) => done(
            machine.skip_if(skips(instruction, machine, keys)),
            display,
        ),
        Instruction::LdByte(x, byte) => done(machine.with_register(x as int, byte), display),
        Instruction::AddByte(x, byte) => done(machine.add_byte(x as int, byte), display),
        Instruction::LdReg(x, y) => done(
            machine.with_register(x as int, machine.v(y as int)),
            display,
        ),
        Instruction::Or(x, y) => done(machine.or(x as int, y as int), display),
        Instruction::And(x, y) => done(machine.and(x as int, y as int), display),
        Instruction::Xor(x, y) => done(machine.xor(x as int, y as int), display),
        Instruction::AddReg(x, y) => done(machine.add_registers(x as int, y as int), display),
        Instruction::Sub(x, y) => done(machine.subtract(x as int, x as int, y as int), display),
        Instruction::Shr(x, y) => done(machine.shift_right(x as int, y as int), display),
        Instruction::Subn(x, y) => done(machine.subtract(x as int, y as int, x as int), display),
        Instruction::Shl(x, y) => done(machine.shift_left(x as int, y as int), display),
        Instruction::LdI(address) => done(machine.with_index(address), display),
        Instruction::JpV0(_, address) => done(machine.jump_offset(address), display),
        Instruction::Rnd(x, byte) => done(machine.random(x as int, byte, random), display),
        Instruction::Drw(x, y, rows) => if !machine.sprite_in_bounds(y as int, rows as int) {
            refused(machine, display, Fault::AddressOutOfBounds)
        } else {
            let sprite = machine.sprite(y as int, rows as int);
            let left = machine.sprite_x(x as int);
            let top = machine.sprite_y(y as int);
            done(
                machine.with_register(FLAG as int, flag_of(collides(display, sprite, left, top))),
                blit(display, sprite, left, top),
            )
        },
        Instruction::LdVxDt(x) => done(machine.with_register(x as int, machine.delay), display),
        Instruction::LdVxK(x) => Effect {
            machine: machine.wait_key(x as int, keys),
            display,
            result: Ok(
                if keys == 0 {
                    Outcome::WaitingForKey
                } else {
                    Outcome::Continue
                },
            ),
        },
        Instruction::LdDtVx(x) => done(machine.with_delay(machine.v(x as int)), display),
        Instruction::LdStVx(x) => done(machine.with_sound(machine.v(x as int)), display),
        Instruction::AddI(x) => done(machine.add_index(x as int), display),
        Instruction::LdF(x) => done(machine.font(x as int), display),
        Instruction::LdB(x) => if !machine.can_access(3) {
            refused(machine, display, Fault::AddressOutOfBounds)
        } else {
            done(machine.decimal(x as int), display)
        },
        Instruction::LdIVx(x) => if !machine.can_access(x + 1) {
            refused(machine, display, Fault::AddressOutOfBounds)
        } else {
            done(machine.store(x as int), display)
        },
        Instruction::LdVxI(x) => if !machine.can_access(x + 1) {
            refused(machine, display, Fault::AddressOutOfBounds)
        } else {
            done(machine.load(x as int), display)
        },
        Instruction::Unmatched(word) => Effect {
            machine,
            display,
            result: Ok(Outcome::Unmatched(word)),
        },
    }
}

/// What one cycle does: read the instruction at the program counter, move the counter past
/// it, and execute the instruction. A cycle that cannot read its instruction, or whose
/// instruction is refused, changes nothing.
pub open spec fn step_spec(machine: Machine, display: Seq<u32>, keys: u16, random: u8) -> Effect {
    if !machine.can_fetch() {
        refused(machine, display, Fault::AddressOutOfBounds)
    } else {
        let instruction = decode_spec(machine.word_at(machine.pc as int));
        let effect = execute_spec(machine.fetched(), display, instruction, keys, random);
        if effect.result is Err {
            Effect { machine, ..effect }
        } else {
            effect
        }
    }
}

/// A cycle on a skip instruction moves the program counter by four when the condition of
/// the instruction holds and by two when it does not, and changes nothing else.
pub proof fn lemma_skip_advance(machine: Machine, display: Seq<u32>, keys: u16, random: u8)
    requires
        machine.valid(),
        machine.can_fetch(),
        decode_spec(machine.word_at(machine.pc as int)).is_skip(),
    ensures
        ({
            let instruction = decode_spec(machine.word_at(machine.pc as int));
            let advance: int = if skips(instruction, machine, keys) {
                2 * INSTRUCTION_LENGTH
            } else {
                INSTRUCTION_LENGTH as int
            };
            step_spec(machine, display, keys, random) == done(
                machine.with_pc((machine.pc + advance) as u16),
                display,
            ) && machine.pc + advance <= u16::MAX
        }),
{
}

/// A cycle on a return instruction with nothing on the call stack is a fault, and changes
/// nothing.
pub proof fn lemma_return_from_top_level(
    machine: Machine,
    display: Seq<u32>,
    keys: u16,
    random: u8,
)
    requires
        machine.can_fetch(),
        decode_spec(machine.word_at(machine.pc as int)) == Instruction::Ret,
        machine.stack.len() == 0,
    ensures
        step_spec(machine, display, keys, random) == refused(
            machine,
            display,
            Fault::StackUnderflow,
        ),
{
}

/// A cycle that ends in a fault leaves the machine and the display as they were.
pub proof fn lemma_fault_changes_nothing(
    machine: Machine,
    display: Seq<u32>,
    keys: u16,
    random: u8,
)
    ensures
        step_spec(machine, display, keys, random).result is Err ==> step_spec(
            machine,
            display,
            keys,
            random,
        ).machine == machine && step_spec(machine, display, keys, random).display == display,
{
}

/// The random byte plays a part only in a cycle on a random instruction.
pub proof fn lemma_random_only_for_rnd(
    machine: Machine,
    display: Seq<u32>,
    keys: u16,
    random: u8,
    other: u8,
)
    requires
        !(machine.can_fetch() && decode_spec(machine.word_at(machine.pc as int)) is Rnd),
    ensures
        step_spec(machine, display, keys, random) == step_spec(machine, display, keys, other),
{
}

/// A cycle is refused for an address out of bounds exactly when the instruction itself, or
/// the bytes that a draw, a decimal conversion, a store or a load names, do not lie within
/// memory; it is refused for stack underflow exactly on a return with an empty call stack.
pub proof fn lemma_faults(machine: Machine, display: Seq<u32>, keys: u16, random: u8)
    ensures
        ({
            let instruction = decode_spec(machine.word_at(machine.pc as int));
            let result = step_spec(machine, display, keys, random).result;
            let fetched = machine.fetched();
            &&& result == Err::<Outcome, Fault>(Fault::StackUnderflow) <==> machine.can_fetch()
                && instruction == Instruction::Ret && machine.stack.len() == 0
            &&& result == Err::<Outcome, Fault>(Fault::AddressOutOfBounds) <==> !machine.can_fetch()
                || match instruction {
                Instruction::Drw(_, y, rows) => !fetched.sprite_in_bounds(y as int, rows as int),
                Instruction::LdB(_) => !fetched.can_access(3),
                Instruction::LdIVx(x) | Instruction::LdVxI(x) => !fetched.can_access(x + 1),
                _ => false,
            }
        }),
{
}

impl Chip8 {
    /// Whether the sprite rows that `DRW Vx, Vy, n` would read lie within memory.
    fn sprite_in_bounds(&self, vy: usize, num_of_rows: u8) -> (fits: bool)
        requires
            vy < REGISTERS,
        ensures
            fits == self@.sprite_in_bounds(vy as int, num_of_rows as int),
    {
        let y = (self.registers[vy] % (HEIGHT as u8)) as usize;
        let visible = if y + num_of_rows as usize <= HEIGHT {
            num_of_rows as usize
        } else {
            HEIGHT - y
        };
        visible == 0 || self.index_register as usize + visible <= MEMORY_SIZE
    }

    /// Executes a decoded instruction on a machine whose program counter has already been
    /// moved past it.
    pub fn execute(
        &mut self,
        instruction: Instruction,
        display_buffer: &mut DisplayBuffer,
        key_map: u16,
        random: u8,
    ) -> (result: Result<Outcome, Fault>)
        requires
            instruction.well_formed(),
            INSTRUCTION_LENGTH <= old(self).pc <= u16::MAX - INSTRUCTION_LENGTH,
        ensures
            final(self)@ == execute_spec(
                old(self)@,
                old(display_buffer)@,
                instruction,
                key_map,
                random,
            ).machine,
            final(display_buffer)@ == execute_spec(
                old(self)@,
                old(display_buffer)@,
                instruction,
                key_map,
                random,
            ).display,
            result == execute_spec(
                old(self)@,
                old(display_buffer)@,
                instruction,
                key_map,
                random,
            ).result,
    {
        match instruction {
            Instruction::Cls => self.op_00e0(display_buffer),
            Instruction::Ret => {
                if self.stack.len() == 0 {
                    return Err(Fault::StackUnderflow);
                }
                self.op_00ee()
            },
            Instruction::Jp(address) => self.op_1nnn(address),
            Instruction::Call(address) => self.op_2nnn(address),
            Instruction::SeByte(x, byte) => self.op_3xnn(x, byte),
            Instruction::SneByte(x, byte) => self.op_4xnn(x, byte),
            Instruction::SeReg(x, y) => self.op_5xy0(x, y),
            Instruction::LdByte(x, byte) => self.op_6xnn(x, byte),
            Instruction::AddByte(x, byte) => self.op_7xnn(x, byte),
            Instruction::LdReg(x, y) => self.op_8xy0(x, y),
            Instruction::Or(x, y) => self.op_8xy1(x, y),
            Instruction::And(x, y) => self.op_8xy2(x, y),
            Instruction::Xor(x, y) => self.op_8xy3(x, y),
            Instruction::AddReg(x, y) => self.op_8xy4(x, y),
            Instruction::Sub(x, y) => self.op_8xy5(x, y),
            Instruction::Shr(x, y) => self.op_8xy6(x, y),
            Instruction::Subn(x, y) => self.op_8xy7(x, y),
            Instruction::Shl(x, y) => self.op_8xye(x, y),
            Instruction::SneReg(x, y) => self.op_9xy0(x, y),
            Instruction::LdI(address) => self.op_annn(address),
            Instruction::JpV0(x, address) => self.op_bnnn(x, address),
            Instruction::Rnd(x, byte) => self.op_cxnn_with(x, byte, random),
            Instruction::Drw(x, y, rows) => {
                if !self.sprite_in_bounds(y, rows) {
                    return Err(Fault::AddressOutOfBounds);
                }
                self.op_dxyn(x, y, rows, display_buffer)
            },
            Instruction::Skp(x) => self.op_ex9e(x, key_map),
            Instruction::Sknp(x) => self.op_exa1(x, key_map),
            Instruction::LdVxDt(x) => self.op_fx07(x),
            Instruction::LdVxK(x) => {
                self.op_fx0a(x, key_map);
                if key_map == 0 {
                    return Ok(Outcome::WaitingForKey);
                }
            },
            Instruction::LdDtVx(x) => self.op_fx15(x),
            Instruction::LdStVx(x) => self.op_fx18(x),
            Instruction::AddI(x) => self.op_fx1e(x),
            Instruction::LdF(x) => self.op_fx29(x),
            Instruction::LdB(x) => {
                if self.index_register as usize + 3 > MEMORY_SIZE {
                    return Err(Fault::AddressOutOfBounds);
                }
                self.op_fx33(x)
            },
            Instruction::LdIVx(x) => {
                if self.index_register as usize + x + 1 > MEMORY_SIZE {
                    return Err(Fault::AddressOutOfBounds);
                }
                self.op_fx55(x)
            },
            Instruction::LdVxI(x) => {
                if self.index_register as usize + x + 1 > MEMORY_SIZE {
                    return Err(Fault::AddressOutOfBounds);
                }
                self.op_fx65(x)
            },
            Instruction::Unmatched(word) => {
                return Ok(Outcome::Unmatched(word));
            },
        }
        Ok(Outcome::Continue)
    }

    /// Runs one cycle with `random` as the byte that a random instruction would draw.
    pub fn step_with(&mut self, display_buffer: &mut DisplayBuffer, key_map: u16, random: u8) -> (result:
        Result<Outcome, Fault>)
        ensures
            final(self)@ == step_spec(old(self)@, old(display_buffer)@, key_map, random).machine,
            final(display_buffer)@ == step_spec(
                old(self)@,
                old(display_buffer)@,
                key_map,
                random,
            ).display,
            result == step_spec(old(self)@, old(display_buffer)@, key_map, random).result,
    {
        let at = self.pc;
        if at as usize + 1 >= MEMORY_SIZE {
            return Err(Fault::AddressOutOfBounds);
        }
        let word = self.fetch();
        let instruction = decode(word);
        let result = self.execute(instruction, display_buffer, key_map, random);
        if result.is_err() {
            self.pc = at;
        }
        result
    }

    /// Whether the instruction at the program counter can be read and is one that draws a
    /// random byte.
    fn awaits_random(&self) -> (awaits: bool)
        ensures
            awaits == (self@.can_fetch() && decode_spec(
                self@.word_at(self.pc as int),
            ) is Rnd),
    {
        let at = self.pc as usize;
        if at + 1 >= MEMORY_SIZE {
            return false;
        }
        let word = self.memory[at] as u16 * 0x100 + self.memory[at + 1] as u16;
        match decode(word) {
            Instruction::Rnd(_, _) => true,
            _ => false,
        }
    }

    /// Runs one cycle: reads the instruction at the program counter, moves the counter past
    /// it, and executes the instruction, with the keys in `key_map` held. A random byte is
    /// drawn only for an instruction that asks for one.
    pub fn step(&mut self, display_buffer: &mut DisplayBuffer, key_map: u16) -> (result: Result<
        Outcome,
        Fault,
    >)
        ensures
            exists|random: u8|
                {
                    &&& final(self)@ == (#[trigger] step_spec(
                        old(self)@,
                        old(display_buffer)@,
                        key_map,
                        random,
                    )).machine
                    &&& final(display_buffer)@ == step_spec(
                        old(self)@,
                        old(display_buffer)@,
                        key_map,
                        random,
                    ).display
                    &&& result == step_spec(
                        old(self)@,
                        old(display_buffer)@,
                        key_map,
                        random,
                    ).result
                },
    {
        let random = if self.awaits_random() {
            random_byte()
        } else {
            0
        };
        self.step_with(display_buffer, key_map, random)
    }
}

} // verus!
