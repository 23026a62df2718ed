//! The background and window renderer: decodes tiles from video RAM into two
//! 256x256 grayscale pixel buffers, one scanline at a time.

use vstd::prelude::*;

use crate::bitops::lemma_tile_line;
use crate::io::{reg_value, IoRegisterOffset, IoRegisters};
use crate::memory_map::{
    VRAM_START_ADDRESS, VRAM_TILE_MAP1_START_ADDRESS, VRAM_TILE_MAP2_START_ADDRESS,
};

verus! {

pub const BYTES_PER_TILE: usize = 16;
pub const PIXELS_PER_TILE: usize = 8;
pub const PIXELS_PER_FULL_SCREEN_ROW: usize = 256;
pub const PIXELS_PER_FULL_SCREEN_COL: usize = 256;
pub const PIXELS_PER_VISIBLE_ROW: usize = 160;
pub const PIXELS_PER_VISIBLE_COL: usize = 144;
pub const SCANLINES_PER_FRAME: usize = 154;
pub const TILES_PER_ROW: usize = 32;
/// One grayscale byte per pixel.
pub const BYTES_PER_PIXEL: usize = 1;
/// The bytes in one 256x256 pixel buffer.
pub const PIXEL_BUFFER_SIZE: usize = 65536;

/// Which table a tile index is looked up for.
#[derive(Clone, Copy, Debug, PartialEq, Eq)]
pub enum TileIdType {
    Object,
    BackgroundWindow,
}

/// How a tile index finds the tile's data (LCDC bit 4).
#[derive(Clone, Copy, Debug, PartialEq, Eq)]
pub enum TileMapAddressingMode {
    Unsigned,
    Signed,
}

/// The layer a scanline is rendered into.
#[derive(Clone, Copy, Debug, PartialEq, Eq)]
pub enum GraphicsLayer {
    Background,
    Window,
}

/// The gray level of the color number `c`.
pub open spec fn palette_color(c: u8) -> u8 {
    if c == 0 {
        0xff
    } else if c == 1 {
        0x6e
    } else if c == 2 {
        0xb0
    } else {
        0x00
    }
}

/// The color number of pixel `x` (0 leftmost) of a tile line whose two
/// bytes are `lsb` and `msb`: bit `7 - x` of `lsb` is its low bit, bit `7 - x`
/// of `msb` its high bit.
pub open spec fn tile_pixel(lsb: u8, msb: u8, x: int) -> u8 {
    (((lsb >> ((7 - x) as u8)) & 1) + 2 * ((msb >> ((7 - x) as u8)) & 1)) as u8
}

/// The offset in video RAM of the data of the tile with index `map_index`:
/// tiles for the background and window in signed mode start at 0x9000,
/// others at 0x8000; the index is taken unsigned in both modes.
pub open spec fn tile_data_start(map_index: u8, tile_type: TileIdType, mode: TileMapAddressingMode) -> int {
    (if mode == TileMapAddressingMode::Signed && tile_type == TileIdType::BackgroundWindow {
        0x1000int
    } else {
        0int
    }) + map_index * 16
}

/// The tile map entry for tile column `t` of line `row` of a layer whose
/// tile map starts at `map_start` in video RAM.
pub open spec fn map_entry(vram: Seq<u8>, map_start: int, row: int, t: int) -> u8 {
    vram[map_start + (row / 8) * 32 + t]
}

/// Whether the 16 bytes of the tile shown at tile column `t` of line `row`
/// lie in video RAM.
pub open spec fn tile_in_vram(
    vram: Seq<u8>,
    map_start: int,
    mode: TileMapAddressingMode,
    row: int,
    t: int,
) -> bool {
    tile_data_start(map_entry(vram, map_start, row, t), TileIdType::BackgroundWindow, mode) + 16
        <= vram.len()
}

/// Whether the data of every tile that the lines `first..last` of a layer
/// show lies in video RAM.
pub open spec fn tiles_in_vram(
    vram: Seq<u8>,
    map_start: int,
    mode: TileMapAddressingMode,
    first: int,
    last: int,
) -> bool {
    forall|row: int, t: int|
        first <= row < last && 0 <= t < 32 ==> #[trigger] tile_in_vram(vram, map_start, mode, row, t)
}

/// The gray level of pixel `x` of line `row` of a background or window layer
/// whose tile map starts at `map_start` in video RAM.
pub open spec fn layer_pixel(
    vram: Seq<u8>,
    map_start: int,
    mode: TileMapAddressingMode,
    row: int,
    x: int,
) -> u8 {
    let map_index = map_entry(vram, map_start, row, x / 8);
    let start = tile_data_start(map_index, TileIdType::BackgroundWindow, mode);
    let line = row % 8;
    palette_color(tile_pixel(vram[start + line * 2], vram[start + line * 2 + 1], x % 8))
}

/// The layer line drawn at buffer row `q` when the layer is scrolled down by
/// `offset_y`.
pub open spec fn source_row(q: int, offset_y: u8) -> int {
    (q + offset_y) % 256
}

/// Line `row` of a layer scrolled down by `offset_y` is drawn at buffer row
/// `y` and nowhere else.
proof fn lemma_source_row(row: int, offset_y: u8, y: int)
    requires
        0 <= row < 256,
        y == (row + 256 - offset_y) % 256,
    ensures
        forall|q: int| 0 <= q < 256 ==> (#[trigger] source_row(q, offset_y) == row <==> q == y),
{
}

/// `new` is `old` with the buffer rows of the layer lines `first..last`
/// (scrolled down by `offset_y`) drawn from the tile map at `map_start`.
pub open spec fn lines_drawn(
    old: Seq<u8>,
    new: Seq<u8>,
    vram: Seq<u8>,
    map_start: int,
    mode: TileMapAddressingMode,
    first: int,
    last: int,
    offset_y: u8,
) -> bool {
    &&& new.len() == old.len()
    &&& forall|i: int|
        0 <= i < old.len() ==> #[trigger] new[i] == {
            let row = source_row(i / 256, offset_y);
            if first <= row < last {
                layer_pixel(vram, map_start, mode, row, i % 256)
            } else {
                old[i]
            }
        }
}

/// One 8x8 tile: two bytes per line.
#[derive(Debug)]
pub struct Tile {
    pub bytes: [u8; 16],
}

impl Tile {
    /// The tile that the tile map entry `map_index` designates, copied out
    /// of `memory` (video RAM).
    pub fn from_map_index(
        map_index: u8,
        memory: &[u8],
        tile_type: TileIdType,
        mode: TileMapAddressingMode,
    ) -> (tile: Tile)
        requires
            tile_data_start(map_index, tile_type, mode) + 16 <= memory@.len(),
        ensures
            tile.bytes@ == memory@.subrange(
                tile_data_start(map_index, tile_type, mode),
                tile_data_start(map_index, tile_type, mode) + 16,
            ),
    {
        let base: usize = if matches!(mode, TileMapAddressingMode::Signed) && matches!(
            tile_type,
            TileIdType::BackgroundWindow
        ) {
            0x9000
        } else {
            0x8000
        };
        let start = base - VRAM_START_ADDRESS + (map_index as usize) * BYTES_PER_TILE;
        let mut bytes = [0u8; 16];
        let mut i: usize = 0;
        while i < BYTES_PER_TILE
            invariant
                start == tile_data_start(map_index, tile_type, mode),
                start + 16 <= memory@.len(),
                i <= 16,
                forall|k: int| 0 <= k < i ==> bytes@[k] == memory@[start + k],
            decreases 16 - i,
        {
            bytes[i] = memory[start + i];
            i += 1;
        }
        let tile = Tile { bytes };
        assert(tile.bytes@ =~= memory@.subrange(start as int, start + 16));
        tile
    }

    /// The color numbers of the eight pixels of line `line`, leftmost first.
    pub fn get_line_pixels(&self, line: usize) -> (pixels: [u8; 8])
        requires
            line * 2 + 1 < BYTES_PER_TILE,
        ensures
            forall|x: int|
                0 <= x < 8 ==> #[trigger] pixels@[x] == tile_pixel(
                    self.bytes@[line * 2],
                    self.bytes@[line * 2 + 1],
                    x,
                ),
    {
        let lsb = self.bytes[line * 2];
        let msb = self.bytes[line * 2 + 1];
        proof {
            lemma_tile_line(lsb, msb);
        }
        let pixels = [
            (lsb & 0b10000000) >> 7 | ((msb & 0b10000000) >> 7) << 1,
            (lsb & 0b01000000) >> 6 | ((msb & 0b01000000) >> 6) << 1,
            (lsb & 0b00100000) >> 5 | ((msb & 0b00100000) >> 5) << 1,
            (lsb & 0b00010000) >> 4 | ((msb & 0b00010000) >> 4) << 1,
            (lsb & 0b00001000) >> 3 | ((msb & 0b00001000) >> 3) << 1,
            (lsb & 0b00000100) >> 2 | ((msb & 0b00000100) >> 2) << 1,
            (lsb & 0b00000010) >> 1 | ((msb & 0b00000010) >> 1) << 1,
            (lsb & 0b00000001) | (msb & 0b00000001) << 1,
        ];
        assert forall|x: int| 0 <= x < 8 implies #[trigger] pixels@[x] == tile_pixel(
            lsb,
            msb,
            x,
        ) by {
            if x == 0 {
            } else if x == 1 {
            } else if x == 2 {
            } else if x == 3 {
            } else if x == 4 {
            } else if x == 5 {
            } else if x == 6 {
            } else {
            }
        }
        pixels
    }
}

/// The gray level of the color number `c`.
fn palette(c: u8) -> (level: u8)
    ensures
        level == palette_color(c),
{
    match c {
        0 => 0xff,
        1 => 0x6e,
        2 => 0xb0,
        _ => 0x00,
    }
}

/// Draws line `row` of a layer whose tile map starts at `map_start` into
/// buffer row `y` of `buf`.
fn render_row(
    buf: &mut Vec<u8>,
    vram: &[u8],
    map_start: usize,
    mode: TileMapAddressingMode,
    row: usize,
    y: usize,
)
    requires
        old(buf)@.len() == PIXEL_BUFFER_SIZE,
        row < 256,
        y < 256,
        map_start + (row / 8) * 32 + 32 <= vram.len(),
        tiles_in_vram(vram@, map_start as int, mode, row as int, row + 1),
    ensures
        final(buf)@.len() == PIXEL_BUFFER_SIZE,
        forall|i: int|
            0 <= i < PIXEL_BUFFER_SIZE ==> #[trigger] final(buf)@[i] == if i / 256 == y {
                layer_pixel(vram@, map_start as int, mode, row as int, i % 256)
            } else {
                old(buf)@[i]
            },
{
    let ghost old_buf = buf@;
    let mut tile_idx: usize = 0;
    while tile_idx < TILES_PER_ROW
        invariant
            buf@.len() == PIXEL_BUFFER_SIZE,
            old_buf.len() == PIXEL_BUFFER_SIZE,
            tile_idx <= 32,
            row < 256,
            y < 256,
            map_start + (row / 8) * 32 + 32 <= vram.len(),
            tiles_in_vram(vram@, map_start as int, mode, row as int, row + 1),
            forall|i: int|
                0 <= i < PIXEL_BUFFER_SIZE ==> #[trigger] buf@[i] == if i / 256 == y && i % 256
                    < tile_idx * 8 {
                    layer_pixel(vram@, map_start as int, mode, row as int, i % 256)
                } else {
                    old_buf[i]
                },
        decreases 32 - tile_idx,
    {
        let map_index = vram[map_start + row / PIXELS_PER_TILE * TILES_PER_ROW + tile_idx];
        assert(tile_in_vram(vram@, map_start as int, mode, row as int, tile_idx as int));
        let tile = Tile::from_map_index(map_index, vram, TileIdType::BackgroundWindow, mode);
        let pixels = tile.get_line_pixels(row % PIXELS_PER_TILE);
        let mut p: usize = 0;
        while p < PIXELS_PER_TILE
            invariant
                buf@.len() == PIXEL_BUFFER_SIZE,
                old_buf.len() == PIXEL_BUFFER_SIZE,
                tile_idx < 32,
                p <= 8,
                row < 256,
                y < 256,
                map_start + (row / 8) * 32 + 32 <= vram.len(),
                map_index == vram@[map_start + (row / 8) * 32 + tile_idx],
                tile_data_start(map_index, TileIdType::BackgroundWindow, mode) + 16 <= vram@.len(),
                tile.bytes@ == vram@.subrange(
                    tile_data_start(map_index, TileIdType::BackgroundWindow, mode),
                    tile_data_start(map_index, TileIdType::BackgroundWindow, mode) + 16,
                ),
                forall|x: int|
                    0 <= x < 8 ==> #[trigger] pixels@[x] == tile_pixel(
                        tile.bytes@[(row % 8) * 2],
                        tile.bytes@[(row % 8) * 2 + 1],
                        x,
                    ),
                forall|i: int|
                    0 <= i < PIXEL_BUFFER_SIZE ==> #[trigger] buf@[i] == if i / 256 == y && i % 256
                        < tile_idx * 8 + p {
                        layer_pixel(vram@, map_start as int, mode, row as int, i % 256)
                    } else {
                        old_buf[i]
                    },
            decreases 8 - p,
        {
            let x = p + tile_idx * PIXELS_PER_TILE;
            let color = palette(pixels[p]);
            let idx = (x + y * PIXELS_PER_FULL_SCREEN_ROW) * BYTES_PER_PIXEL;
            let ghost prev = buf@;
            buf.set(idx, color);
            assert forall|i: int| 0 <= i < PIXEL_BUFFER_SIZE implies #[trigger] buf@[i] == if i / 256
                == y && i % 256 < tile_idx * 8 + p + 1 {
                layer_pixel(vram@, map_start as int, mode, row as int, i % 256)
            } else {
                old_buf[i]
            } by {
                if i == idx {
                    assert(i / 256 == y && i % 256 == x);
                    assert(x / 8 == tile_idx && x % 8 == p);
                    assert(map_entry(vram@, map_start as int, row as int, tile_idx as int) == map_index);
                } else {
                    assert(prev[i] == buf@[i]);
                    if i / 256 == y {
                        assert(i % 256 != x);
                    }
                }
            }
            p += 1;
        }
        tile_idx += 1;
    }
}

/// The last line (exclusive) that `update_scanline` renders for `scanline`:
/// at the end of the visible frame it renders all the remaining lines.
pub open spec fn scanline_end(scanline: int) -> int {
    if scanline == PIXELS_PER_VISIBLE_COL {
        PIXELS_PER_FULL_SCREEN_COL as int
    } else {
        scanline + 1
    }
}

/// The addressing mode LCDC bit 4 selects.
pub open spec fn addressing_mode(lcdc: u8) -> TileMapAddressingMode {
    if lcdc & 0x10 == 0x10 {
        TileMapAddressingMode::Unsigned
    } else {
        TileMapAddressingMode::Signed
    }
}

/// The offset in video RAM of the background tile map (LCDC bit 3).
pub open spec fn background_map(lcdc: u8) -> int {
    if lcdc & 0x08 == 0x08 {
        0x1c00
    } else {
        0x1800
    }
}

/// The offset in video RAM of the window tile map (LCDC bit 6).
pub open spec fn window_map(lcdc: u8) -> int {
    if lcdc & 0x40 == 0x40 {
        0x1c00
    } else {
        0x1800
    }
}

/// The two layer buffers the renderer fills.
pub struct Display {
    pub background_pixels: Vec<u8>,
    pub window_pixels: Vec<u8>,
}

impl Display {
    /// Both buffers hold 256x256 pixels.
    pub open spec fn wf(&self) -> bool {
        &&& self.background_pixels@.len() == PIXEL_BUFFER_SIZE
        &&& self.window_pixels@.len() == PIXEL_BUFFER_SIZE
    }

    /// Both buffers cleared to color 0.
    pub fn new() -> (d: Display)
        ensures
            d.wf(),
            forall|i: int| 0 <= i < PIXEL_BUFFER_SIZE ==> #[trigger] d.background_pixels@[i] == 0,
            forall|i: int| 0 <= i < PIXEL_BUFFER_SIZE ==> #[trigger] d.window_pixels@[i] == 0,
    {
        Display {
            background_pixels: vec![0u8; PIXEL_BUFFER_SIZE],
            window_pixels: vec![0u8; PIXEL_BUFFER_SIZE],
        }
    }

    /// The pixels to show for the frame: the background while the LCD is on
    /// (LCDC bit 7), otherwise a blank (white) screen.
    pub fn draw(&self, ioreg: &IoRegisters) -> (pixels: Vec<u8>)
        ensures
            pixels@ == if reg_value(*ioreg, IoRegisterOffset::LCDC) & 0x80 == 0x80 {
                self.background_pixels@
            } else {
                Seq::new(self.background_pixels@.len(), |i: int| 0xffu8)
            },
    {
        let lcd_on = ioreg.get_reg(IoRegisterOffset::LCDC) & 0x80 == 0x80;
        let mut x = self.background_pixels.clone();
        assert(x@ =~= self.background_pixels@);
        if !lcd_on {
            let mut i: usize = 0;
            while i < x.len()
                invariant
                    x@.len() == self.background_pixels@.len(),
                    i <= x@.len(),
                    forall|k: int| 0 <= k < i ==> x@[k] == 0xff,
                decreases x@.len() - i,
            {
                x.set(i, 0xff);
                i += 1;
            }
            assert(x@ =~= Seq::new(self.background_pixels@.len(), |i: int| 0xffu8));
        }
        x
    }

    /// Renders line `scanline` (at the end of the visible frame, every line
    /// from there down) of the background and of the window.
    pub fn update_scanline(&mut self, scanline: usize, vram: &[u8], ioreg: &IoRegisters)
        requires
            old(self).wf(),
            scanline_end(scanline as int) <= 248,
            background_map(reg_value(*ioreg, IoRegisterOffset::LCDC)) + 0x3ff <= vram@.len(),
            window_map(reg_value(*ioreg, IoRegisterOffset::LCDC)) + 0x3ff <= vram@.len(),
            tiles_in_vram(
                vram@,
                background_map(reg_value(*ioreg, IoRegisterOffset::LCDC)),
                addressing_mode(reg_value(*ioreg, IoRegisterOffset::LCDC)),
                scanline as int,
                scanline_end(scanline as int),
            ),
            tiles_in_vram(
                vram@,
                window_map(reg_value(*ioreg, IoRegisterOffset::LCDC)),
                addressing_mode(reg_value(*ioreg, IoRegisterOffset::LCDC)),
                scanline as int,
                scanline_end(scanline as int),
            ),
            reg_value(*ioreg, IoRegisterOffset::SCX) == 0,
            reg_value(*ioreg, IoRegisterOffset::WX) == 0,
            reg_value(*ioreg, IoRegisterOffset::WY) == 0,
        ensures
            final(self).wf(),
            lines_drawn(
                old(self).background_pixels@,
                final(self).background_pixels@,
                vram@,
                background_map(reg_value(*ioreg, IoRegisterOffset::LCDC)),
                addressing_mode(reg_value(*ioreg, IoRegisterOffset::LCDC)),
                scanline as int,
                scanline_end(scanline as int),
                reg_value(*ioreg, IoRegisterOffset::SCY),
            ),
            lines_drawn(
                old(self).window_pixels@,
                final(self).window_pixels@,
                vram@,
                window_map(reg_value(*ioreg, IoRegisterOffset::LCDC)),
                addressing_mode(reg_value(*ioreg, IoRegisterOffset::LCDC)),
                scanline as int,
                scanline_end(scanline as int),
                0,
            ),
    {
        // Each tile map is taken as 0x3FF bytes, so lines from 248 on, whose
        // map row ends at byte 0x400, are out of reach; below that every map
        // row read lies in video RAM.
        assert(32 * ((scanline_end(scanline as int) + 7) / 8) <= 992) by (nonlinear_arith)
            requires
                scanline_end(scanline as int) <= 248,
        ;
        let map1_start = VRAM_TILE_MAP1_START_ADDRESS - VRAM_START_ADDRESS;
        let map2_start = VRAM_TILE_MAP2_START_ADDRESS - VRAM_START_ADDRESS;
        let lcdc = ioreg.get_reg(IoRegisterOffset::LCDC);
        // LCDC bit 4
        let addressing_mode = if lcdc & 0x10 == 0x10 {
            TileMapAddressingMode::Unsigned
        } else {
            TileMapAddressingMode::Signed
        };
        // Background: LCDC bit 3 selects the map, scrolled by (SCX, SCY).
        let tile_map = if lcdc & 0x08 == 0x08 {
            map2_start
        } else {
            map1_start
        };
        let offset: (u8, u8) = (
            ioreg.get_reg(IoRegisterOffset::SCX),
            ioreg.get_reg(IoRegisterOffset::SCY),
        );
        self.update_scanline_layer(
            scanline,
            vram,
            addressing_mode,
            tile_map,
            offset,
            GraphicsLayer::Background,
        );
        // Window: LCDC bit 6 selects the map, placed at (WX, WY).
        let tile_map = if lcdc & 0x40 == 0x40 {
            map2_start
        } else {
            map1_start
        };
        let offset: (u8, u8) = (
            ioreg.get_reg(IoRegisterOffset::WX),
            ioreg.get_reg(IoRegisterOffset::WY),
        );
        self.update_scanline_layer(
            scanline,
            vram,
            addressing_mode,
            tile_map,
            offset,
            GraphicsLayer::Window,
        );
    }

    /// Renders the lines `scanline..scanline_end(scanline)` of one layer,
    /// whose tile map starts at `map_start`, shifted down by `offset.1`.
    fn update_scanline_layer(
        &mut self,
        scanline: usize,
        vram: &[u8],
        addressing_mode: TileMapAddressingMode,
        map_start: usize,
        offset: (u8, u8),
        layer: GraphicsLayer,
    )
        requires
            old(self).wf(),
            scanline_end(scanline as int) <= 256,
            map_start + 32 * ((scanline_end(scanline as int) + 7) / 8) <= vram.len(),
            tiles_in_vram(
                vram@,
                map_start as int,
                addressing_mode,
                scanline as int,
                scanline_end(scanline as int),
            ),
        ensures
            final(self).wf(),
            layer == GraphicsLayer::Background ==> lines_drawn(
                old(self).background_pixels@,
                final(self).background_pixels@,
                vram@,
                map_start as int,
                addressing_mode,
                scanline as int,
                scanline_end(scanline as int),
                offset.1,
            ) && final(self).window_pixels@ == old(self).window_pixels@,
            layer == GraphicsLayer::Window ==> lines_drawn(
                old(self).window_pixels@,
                final(self).window_pixels@,
                vram@,
                map_start as int,
                addressing_mode,
                scanline as int,
                scanline_end(scanline as int),
                offset.1,
            ) && final(self).background_pixels@ == old(self).background_pixels@,
    {
        // At the end of the visible frame, the lines below it are rendered
        // too.
        let last = if scanline == PIXELS_PER_VISIBLE_COL {
            PIXELS_PER_FULL_SCREEN_COL
        } else {
            scanline + 1
        };
        let ghost old_bg = self.background_pixels@;
        let ghost old_win = self.window_pixels@;
        let mut row = scanline;
        while row < last
            invariant
                self.wf(),
                scanline <= row <= last,
                last == scanline_end(scanline as int),
                last <= 256,
                map_start + 32 * ((last + 7) / 8) <= vram.len(),
                tiles_in_vram(vram@, map_start as int, addressing_mode, scanline as int, last as int),
                layer == GraphicsLayer::Background ==> lines_drawn(
                    old_bg,
                    self.background_pixels@,
                    vram@,
                    map_start as int,
                    addressing_mode,
                    scanline as int,
                    row as int,
                    offset.1,
                ) && self.window_pixels@ == old_win,
                layer == GraphicsLayer::Window ==> lines_drawn(
                    old_win,
                    self.window_pixels@,
                    vram@,
                    map_start as int,
                    addressing_mode,
                    scanline as int,
                    row as int,
                    offset.1,
                ) && self.background_pixels@ == old_bg,
            decreases last - row,
        {
            let y = (row + 256 - offset.1 as usize) % PIXELS_PER_FULL_SCREEN_COL;
            proof {
                lemma_source_row(row as int, offset.1, y as int);
            }
            assert((row / 8) * 32 + 32 <= 32 * ((last + 7) / 8)) by (nonlinear_arith)
                requires
                    row < last,
            ;
            match layer {
                GraphicsLayer::Background => {
                    render_row(&mut self.background_pixels, vram, map_start, addressing_mode, row, y);
                },
                GraphicsLayer::Window => {
                    render_row(&mut self.window_pixels, vram, map_start, addressing_mode, row, y);
                },
            }
            row += 1;
        }
    }
}

} // verus!
