use c64emu::bus::C64Bus;
use c64emu::video::{col, render_line, FB_H, FB_W};

fn blank_fb() -> Vec<u8> {
    vec![0x11u8; FB_W * FB_H * 3]
}

fn px(fb: &[u8], y: usize, x: usize) -> (u8, u8, u8) {
    let i = (y * FB_W + x) * 3;
    (fb[i], fb[i + 1], fb[i + 2])
}

/// A bus showing standard text mode: video matrix $0400, characters from
/// the character ROM at $1000 (VIC bank 0), border 14, background 6.
fn text_bus() -> C64Bus {
    let mut bus = C64Bus::new();
    bus.io.cia2.pra = 0x03; // bank 0
    bus.io.vic.regs[0x11] = 0x1B; // DEN, 25 rows
    bus.io.vic.regs[0x16] = 0x08;
    bus.io.vic.regs[0x18] = 0x14; // matrix $0400, chars $1000
    bus.io.vic.regs[0x20] = 14;
    bus.io.vic.regs[0x21] = 6;
    bus
}

#[test]
fn palette_entries() {
    assert_eq!(col(0), (0x00, 0x00, 0x00));
    assert_eq!(col(1), (0xFF, 0xFF, 0xFF));
    assert_eq!(col(6), (0x35, 0x28, 0x79));
    assert_eq!(col(0x1E), col(14)); // only the low nybble counts
    assert_eq!(col(15), (0x95, 0x95, 0x95));
}

#[test]
fn lines_outside_the_window_are_not_drawn() {
    let bus = text_bus();
    let mut fb = blank_fb();
    render_line(&bus, 10, &mut fb);
    render_line(&bus, 16 + FB_H as u16, &mut fb);
    assert!(fb.iter().all(|&b| b == 0x11));
}

#[test]
fn border_line_is_border_colour() {
    let bus = text_bus();
    let mut fb = blank_fb();
    render_line(&bus, 20, &mut fb); // above the display window
    let y = 4;
    for x in 0..FB_W {
        assert_eq!(px(&fb, y, x), col(14));
    }
    // The rows around it are untouched.
    assert_eq!(px(&fb, 3, 0), (0x11, 0x11, 0x11));
    assert_eq!(px(&fb, 5, 0), (0x11, 0x11, 0x11));
}

#[test]
fn text_cell_draws_character_rows() {
    let mut bus = text_bus();
    bus.ram[0x0400] = 1; // screen code 1 in the first cell
    bus.char_rom[8] = 0xF0; // its top row: four pixels set
    bus.io.color_ram[0] = 1; // white
    let mut fb = blank_fb();
    render_line(&bus, 51, &mut fb); // first display line
    let y = 51 - 16;
    assert_eq!(px(&fb, y, 31), col(14)); // border
    for x in 32..36 {
        assert_eq!(px(&fb, y, x), col(1));
    }
    for x in 36..40 {
        assert_eq!(px(&fb, y, x), col(6));
    }
    assert_eq!(px(&fb, y, 352), col(14)); // right border
}

#[test]
fn display_disabled_shows_border() {
    let mut bus = text_bus();
    bus.io.vic.regs[0x11] = 0x0B; // DEN off
    let mut fb = blank_fb();
    render_line(&bus, 100, &mut fb);
    for x in 0..FB_W {
        assert_eq!(px(&fb, 100 - 16, x), col(14));
    }
}

#[test]
fn multicolour_text_uses_bit_pairs() {
    let mut bus = text_bus();
    bus.io.vic.regs[0x16] = 0x18; // MCM on
    bus.io.vic.regs[0x22] = 2;
    bus.io.vic.regs[0x23] = 5;
    bus.ram[0x0400] = 1;
    bus.char_rom[8] = 0b00_01_10_11;
    bus.io.color_ram[0] = 0x0F; // bit 3 set: multicolour, colour 7
    let mut fb = blank_fb();
    render_line(&bus, 51, &mut fb);
    let y = 35;
    assert_eq!(px(&fb, y, 32), col(6));
    assert_eq!(px(&fb, y, 33), col(6));
    assert_eq!(px(&fb, y, 34), col(2));
    assert_eq!(px(&fb, y, 36), col(5));
    assert_eq!(px(&fb, y, 38), col(7));
    assert_eq!(px(&fb, y, 39), col(7));
}

#[test]
fn hires_bitmap_takes_colours_from_matrix() {
    let mut bus = text_bus();
    bus.io.vic.regs[0x11] = 0x3B; // BMM + DEN
    bus.io.vic.regs[0x18] = 0x18; // matrix $0400, bitmap $2000
    bus.ram[0x0400] = 0x25; // on = 2, off = 5
    bus.ram[0x2000] = 0x80;
    let mut fb = blank_fb();
    render_line(&bus, 51, &mut fb);
    assert_eq!(px(&fb, 35, 32), col(2));
    assert_eq!(px(&fb, 35, 33), col(5));
}

#[test]
fn sprite_zero_wins_overlaps() {
    let mut bus = text_bus();
    let v = &mut bus.io.vic.regs;
    v[0x15] = 0x03; // sprites 0 and 1
    v[0x00] = 24; // sprite 0 X -> framebuffer column 32
    v[0x01] = 60; // Y
    v[0x02] = 24; // sprite 1 at the same place
    v[0x03] = 60;
    v[0x27] = 2; // sprite 0 red
    v[0x28] = 7; // sprite 1 yellow
    bus.ram[0x07F8] = 13; // sprite 0 data at $0340
    bus.ram[0x07F9] = 14; // sprite 1 data at $0380
    bus.ram[0x0340] = 0x80; // sprite 0: first pixel only
    bus.ram[0x0380] = 0xC0; // sprite 1: first two pixels
    let mut fb = blank_fb();
    render_line(&bus, 60, &mut fb);
    let y = 60 - 16;
    assert_eq!(px(&fb, y, 32), col(2));
    assert_eq!(px(&fb, y, 33), col(7));
    assert_eq!(px(&fb, y, 34), col(6)); // background
    // A line the sprites do not cover shows no sprite pixels.
    let mut fb2 = blank_fb();
    render_line(&bus, 59, &mut fb2);
    assert_eq!(px(&fb2, 59 - 16, 32), col(6));
}

#[test]
fn expanded_sprite_doubles_pixels() {
    let mut bus = text_bus();
    let v = &mut bus.io.vic.regs;
    v[0x15] = 0x01;
    v[0x1D] = 0x01; // X expand
    v[0x17] = 0x01; // Y expand
    v[0x00] = 24;
    v[0x01] = 60;
    v[0x27] = 1;
    bus.ram[0x07F8] = 13;
    bus.ram[0x0340] = 0x80;
    let mut fb = blank_fb();
    render_line(&bus, 61, &mut fb); // second line shows data row 0 again
    let y = 61 - 16;
    assert_eq!(px(&fb, y, 32), col(1));
    assert_eq!(px(&fb, y, 33), col(1));
    assert_eq!(px(&fb, y, 34), col(6));
}
