use simple_dmg::display::{Display, Tile, TileIdType, TileMapAddressingMode, PIXEL_BUFFER_SIZE};
use simple_dmg::io::{IoRegisterOffset, IoRegisters};

fn vram_with_tile() -> Vec<u8> {
    let mut vram = vec![0u8; 0x2000];
    // Tile 1 (unsigned addressing): line 0 is 0x3C, 0x7E.
    vram[16] = 0x3C;
    vram[17] = 0x7E;
    // Tile map 1, first entry: tile 1.
    vram[0x1800] = 1;
    vram
}

#[test]
fn tile_line_decoding() {
    let mut bytes = [0u8; 16];
    bytes[0] = 0x3C;
    bytes[1] = 0x7E;
    bytes[14] = 0xFF;
    bytes[15] = 0x00;
    let tile = Tile { bytes };
    assert_eq!(tile.get_line_pixels(0), [0, 2, 3, 3, 3, 3, 2, 0]);
    assert_eq!(tile.get_line_pixels(7), [1; 8]);
    assert_eq!(tile.get_line_pixels(3), [0; 8]);
}

#[test]
fn tile_lookup_by_addressing_mode() {
    let mut vram = vec![0u8; 0x2000];
    for (i, b) in vram.iter_mut().enumerate() {
        *b = (i % 251) as u8;
    }
    let t = Tile::from_map_index(1, &vram, TileIdType::BackgroundWindow, TileMapAddressingMode::Unsigned);
    assert_eq!(&t.bytes[..], &vram[16..32]);
    let t = Tile::from_map_index(1, &vram, TileIdType::BackgroundWindow, TileMapAddressingMode::Signed);
    assert_eq!(&t.bytes[..], &vram[0x1010..0x1020]);
    let t = Tile::from_map_index(255, &vram, TileIdType::BackgroundWindow, TileMapAddressingMode::Signed);
    assert_eq!(&t.bytes[..], &vram[0x1FF0..0x2000]);
    let t = Tile::from_map_index(1, &vram, TileIdType::Object, TileMapAddressingMode::Signed);
    assert_eq!(&t.bytes[..], &vram[16..32]);
}

#[test]
fn new_display_is_cleared() {
    let d = Display::new();
    assert_eq!(d.background_pixels.len(), PIXEL_BUFFER_SIZE);
    assert_eq!(d.window_pixels.len(), PIXEL_BUFFER_SIZE);
    assert!(d.background_pixels.iter().all(|&p| p == 0));
}

#[test]
fn scanline_renders_both_layers() {
    let vram = vram_with_tile();
    let mut io = IoRegisters::new();
    io.set_reg(IoRegisterOffset::LCDC, 0x91);
    let mut d = Display::new();
    d.update_scanline(0, &vram, &io);
    let expected = [0xff, 0xb0, 0x00, 0x00, 0x00, 0x00, 0xb0, 0xff];
    assert_eq!(&d.background_pixels[0..8], &expected);
    assert_eq!(&d.window_pixels[0..8], &expected);
    // The rest of the line shows tile 0, all color 0.
    assert!(d.background_pixels[8..256].iter().all(|&p| p == 0xff));
    // Other lines are untouched.
    assert!(d.background_pixels[256..].iter().all(|&p| p == 0));
    // Line 1 of tile 1 is blank.
    d.update_scanline(1, &vram, &io);
    assert!(d.background_pixels[256..512].iter().all(|&p| p == 0xff));
}

#[test]
fn scy_moves_the_background_only() {
    let vram = vram_with_tile();
    let mut io = IoRegisters::new();
    io.set_reg(IoRegisterOffset::LCDC, 0x91);
    io.set_reg(IoRegisterOffset::SCY, 1);
    let mut d = Display::new();
    d.update_scanline(0, &vram, &io);
    let expected = [0xff, 0xb0, 0x00, 0x00, 0x00, 0x00, 0xb0, 0xff];
    assert_eq!(&d.background_pixels[255 * 256..255 * 256 + 8], &expected);
    assert_eq!(&d.window_pixels[0..8], &expected);
    assert!(d.background_pixels[0..256].iter().all(|&p| p == 0));
}

#[test]
fn lcdc_selects_the_maps() {
    let mut vram = vram_with_tile();
    // Map 2 points at tile 1 in its second entry.
    vram[0x1C01] = 1;
    let mut io = IoRegisters::new();
    // Background on map 2 (bit 3), window on map 1, unsigned tiles.
    io.set_reg(IoRegisterOffset::LCDC, 0x98);
    let mut d = Display::new();
    d.update_scanline(0, &vram, &io);
    assert_eq!(d.background_pixels[8 + 1], 0xb0);
    assert_eq!(d.background_pixels[1], 0xff);
    assert_eq!(d.window_pixels[1], 0xb0);
}

#[test]
fn redrawing_a_scanline_changes_nothing() {
    let vram = vram_with_tile();
    let mut io = IoRegisters::new();
    io.set_reg(IoRegisterOffset::LCDC, 0x91);
    let mut d = Display::new();
    d.update_scanline(0, &vram, &io);
    let once = d.background_pixels.clone();
    d.update_scanline(0, &vram, &io);
    assert_eq!(d.background_pixels, once);
}

#[test]
fn draw_shows_white_while_the_lcd_is_off() {
    let vram = vram_with_tile();
    let mut io = IoRegisters::new();
    io.set_reg(IoRegisterOffset::LCDC, 0x91);
    let mut d = Display::new();
    d.update_scanline(0, &vram, &io);
    assert_eq!(d.draw(&io), d.background_pixels);
    io.set_reg(IoRegisterOffset::LCDC, 0x11);
    let frame = d.draw(&io);
    assert_eq!(frame.len(), PIXEL_BUFFER_SIZE);
    assert!(frame.iter().all(|&p| p == 0xff));
}

#[test]
fn a_short_video_ram_serves_when_every_byte_read_is_in_it() {
    // Both layers use map 1 (ends at 0x1BFF) and unsigned tiles.
    let mut vram = vram_with_tile();
    vram.truncate(0x1BFF);
    let mut io = IoRegisters::new();
    io.set_reg(IoRegisterOffset::LCDC, 0x91);
    let mut d = Display::new();
    d.update_scanline(0, &vram, &io);
    let expected = [0xff, 0xb0, 0x00, 0x00, 0x00, 0x00, 0xb0, 0xff];
    assert_eq!(&d.background_pixels[0..8], &expected);
    assert_eq!(&d.window_pixels[0..8], &expected);
}
