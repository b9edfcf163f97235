//! A verified CHIP-8 virtual machine core.
//!
//! The machine state (memory, registers, stack, keypad, timers, framebuffer)
//! and the fetch-decode-execute engine live here, with contracts that pin the
//! state transition of every instruction down to the bit level.

pub mod draw;
pub mod exec;
pub mod font;
pub mod instr;
pub mod laws;
pub mod state;

pub use font::FONTSET_SIZE;
pub use instr::{decode, Instr};
pub use state::{Emu, EmuError, EmuView};
pub use state::{MAX_ROM_SIZE, NUM_KEYS, NUM_REGS, RAM_SIZE, SCREEN_HEIGHT, SCREEN_WIDTH,
    STACK_SIZE, START_ADDR};
