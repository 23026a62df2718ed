//! Addresses and sizes of the regions of the DMG memory map.

use vstd::prelude::*;

verus! {

pub const VRAM_START_ADDRESS: usize = 0x8000;
/// One bank of video RAM.
pub const VRAM_SIZE: usize = 0x2000;
pub const VRAM_TILE_MAP1_START_ADDRESS: usize = 0x9800;
pub const VRAM_TILE_MAP1_SIZE: usize = 0x3ff;
pub const VRAM_TILE_MAP2_START_ADDRESS: usize = 0x9C00;
pub const VRAM_TILE_MAP2_SIZE: usize = 0x3ff;

pub const WRAM_START_ADDRESS: usize = 0xc000;
/// Two banks of work RAM.
pub const WRAM_SIZE: usize = 0x2000;

pub const HRAM_START_ADDRESS: usize = 0xff80;
pub const HRAM_SIZE: usize = 0x80;

pub const IOREG_START_ADDRESS: usize = 0xff00;
pub const IOREG_SIZE: usize = 0x80;

} // verus!
