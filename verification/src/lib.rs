//! Interpreter core for the CHIP-8 virtual machine: memory and font, the instruction set,
//! the fetch, decode and execute cycle, the countdown timers, the display with its sprite
//! compositing, and the keypad mask.

pub mod audio;
pub mod chip8;
pub mod display;
pub mod emulator;
pub mod fonts;
pub mod instruction;
pub mod keypad;
pub mod machine;
pub mod timer;
