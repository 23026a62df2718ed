//! A Game Boy (DMG) emulator core: the CPU's register file and flags, the
//! memory map, the instruction set that is implemented so far, and the
//! background/window scanline renderer.

pub mod flags;
pub mod memory_map;
pub mod registers;
pub mod io;
pub mod dmg;
pub mod operands;
mod bitops;
pub mod instructions;
pub mod execute;
pub mod display;
pub mod laws;
pub mod instruction_laws;
