//! A Game Boy / Game Boy Color CPU core: the register file, the instruction
//! set, interrupts, the timer and the scanline renderer, each with a
//! contract over a mathematical model of the machine state.
//!
//! The model: `model::CpuState` is the abstract machine state (`Cpu`'s view),
//! `memory::MemState` the memory bus; `isa` gives the instruction set and
//! interrupt dispatch as state transitions, `timer` the DIV/TIMA timer,
//! `video` and `sprites` the PPU, `machine` a whole step, `status` the
//! debug snapshot, and `laws` the properties relating these.

pub mod registers;
pub mod tiles;
pub mod memory;
mod bits;
pub mod model;
pub mod cpu;
pub mod isa;
pub mod timer;
pub mod video;
pub mod sprites;
pub mod machine;
pub mod text;
pub mod status;
pub mod laws;
pub mod decimal;

pub use cpu::{Cpu, Register};
pub use memory::Memory;
pub use registers::Registers;
pub use tiles::{apply_palette, decode_tile_row, dmg_rgb};
