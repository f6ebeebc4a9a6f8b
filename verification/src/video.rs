//! VIC-II line-based renderer: border, background graphics and sprites.
//!
//! `render_line` draws one raster line into an RGB framebuffer using the VIC
//! registers as they currently stand, so raster-IRQ effects (split screens,
//! per-line colour/mode changes) come out right. It reads video memory through
//! the VIC's view of the bus: the selected 16 KB bank (CIA #2 $DD00), the
//! video-matrix / character / bitmap bases ($D018), and the character-ROM
//! overlay that appears at $1000-$1FFF in banks 0 and 2.
//!
//! Supported modes: standard text, multicolour text, extended-background text,
//! standard (hi-res) bitmap, multicolour bitmap, plus border and DEN blanking.
use vstd::prelude::*;
use vstd::arithmetic::div_mod::{lemma_fundamental_div_mod, lemma_fundamental_div_mod_converse, lemma_multiply_divide_lt};
use crate::bus::C64Bus;
use crate::vic::Vic;

verus! {

/// Framebuffer dimensions (a generous PAL-ish visible window).
pub const FB_W: usize = 384;
pub const FB_H: usize = 272;

/// Raster line shown at the top of the framebuffer.
pub const Y_TOP: u16 = 16;
/// Vertical display window (RSEL = 1): raster lines 51..=250.
pub const DISP_TOP: u16 = 51;
/// End of the display window (exclusive).
pub const DISP_BOT: u16 = 251;
/// Framebuffer X where the 320-pixel active area begins (CSEL = 1).
pub const X_LEFT: usize = 32;

/// An RGB colour.
pub type Rgb = (u8, u8, u8);

// ---------------------------------------------------------------------------
// Colours and video memory
// ---------------------------------------------------------------------------

/// The C64 16-colour palette (Pepto), RGB.
pub open spec fn palette(i: int) -> Rgb {
    if i == 0 {
        (0x00, 0x00, 0x00)
    } else if i == 1 {
        (0xFF, 0xFF, 0xFF)
    } else if i == 2 {
        (0x68, 0x37, 0x2B)
    } else if i == 3 {
        (0x70, 0xA4, 0xB2)
    } else if i == 4 {
        (0x6F, 0x3D, 0x86)
    } else if i == 5 {
        (0x58, 0x8D, 0x43)
    } else if i == 6 {
        (0x35, 0x28, 0x79)
    } else if i == 7 {
        (0xB8, 0xC7, 0x6F)
    } else if i == 8 {
        (0x6F, 0x4F, 0x25)
    } else if i == 9 {
        (0x43, 0x39, 0x00)
    } else if i == 10 {
        (0x9A, 0x67, 0x59)
    } else if i == 11 {
        (0x44, 0x44, 0x44)
    } else if i == 12 {
        (0x6C, 0x6C, 0x6C)
    } else if i == 13 {
        (0x9A, 0xD2, 0x84)
    } else if i == 14 {
        (0x6C, 0x5E, 0xB5)
    } else {
        (0x95, 0x95, 0x95)
    }
}

/// The colour a colour register or nybble selects (its low 4 bits).
pub open spec fn color_of(idx: u8) -> Rgb {
    palette((idx % 16) as int)
}

/// The colour of palette entry `idx & 15`.
pub fn col(idx: u8) -> (c: Rgb)
    ensures
        c == color_of(idx),
{
    let k = idx & 0x0F;
    proof {
        crate::bits::lemma_byte_masks();
    }
    if k == 0 {
        (0x00, 0x00, 0x00)
    } else if k == 1 {
        (0xFF, 0xFF, 0xFF)
    } else if k == 2 {
        (0x68, 0x37, 0x2B)
    } else if k == 3 {
        (0x70, 0xA4, 0xB2)
    } else if k == 4 {
        (0x6F, 0x3D, 0x86)
    } else if k == 5 {
        (0x58, 0x8D, 0x43)
    } else if k == 6 {
        (0x35, 0x28, 0x79)
    } else if k == 7 {
        (0xB8, 0xC7, 0x6F)
    } else if k == 8 {
        (0x6F, 0x4F, 0x25)
    } else if k == 9 {
        (0x43, 0x39, 0x00)
    } else if k == 10 {
        (0x9A, 0x67, 0x59)
    } else if k == 11 {
        (0x44, 0x44, 0x44)
    } else if k == 12 {
        (0x6C, 0x6C, 0x6C)
    } else if k == 13 {
        (0x9A, 0xD2, 0x84)
    } else if k == 14 {
        (0x6C, 0x5E, 0xB5)
    } else {
        (0x95, 0x95, 0x95)
    }
}

/// The VIC bank (0-3) that CIA #2 port A selects: its low two bits, inverted.
pub open spec fn vic_bank(pra: u8) -> int {
    3 - (pra % 4)
}

/// A byte of the VIC's 14-bit address space: the selected 16 KB bank of RAM,
/// with the character ROM showing through at $1000-$1FFF in banks 0 and 2.
pub open spec fn vic_fetch(bus: C64Bus, addr: u16) -> u8 {
    let bank = vic_bank(bus.io.cia2.pra);
    let a = addr % 0x4000;
    if (bank == 0 || bank == 2) && 0x1000 <= a < 0x2000 {
        bus.char_rom[(a % 0x1000) as int]
    } else {
        bus.ram[bank * 0x4000 + a]
    }
}

/// Read a byte from the VIC's 14-bit address space (bank + char-ROM overlay).
fn vic_read(bus: &C64Bus, addr: u16) -> (v: u8)
    ensures
        v == vic_fetch(*bus, addr),
{
    let pra = bus.io.cia2.pra;
    let bank_no = (!pra) & 0x03;
    let a = addr & 0x3FFF;
    assert(bank_no == 3 - (pra % 4) && a == addr % 0x4000 && a & 0x0FFF == a % 0x1000) by (bit_vector)
        requires
            bank_no == (!pra) & 0x03,
            a == addr & 0x3FFF,
    ;
    // Character ROM is visible to the VIC at $1000-$1FFF in banks 0 and 2.
    if (bank_no == 0 || bank_no == 2) && 0x1000 <= a && a < 0x2000 {
        return bus.char_rom[(a & 0x0FFF) as usize];
    }
    bus.ram[(bank_no as usize) * 0x4000 + a as usize]
}

// ---------------------------------------------------------------------------
// The framebuffer
// ---------------------------------------------------------------------------

/// Index of the red byte of pixel `(x, y)`.
pub open spec fn px_index(y: int, x: int) -> int {
    (y * 384 + x) * 3
}

/// The colour of pixel `(x, y)` of a framebuffer.
pub open spec fn pixel(fb: Seq<u8>, y: int, x: int) -> Rgb {
    (fb[px_index(y, x)], fb[px_index(y, x) + 1], fb[px_index(y, x) + 2])
}

/// Byte `j` belongs to framebuffer row `y`.
pub open spec fn in_row(j: int, y: int) -> bool {
    y * 1152 <= j < (y + 1) * 1152
}

/// `fb` differs from `old` at most in row `y`.
pub open spec fn same_outside_row(fb: Seq<u8>, old: Seq<u8>, y: int) -> bool {
    &&& fb.len() == old.len()
    &&& forall|j: int| 0 <= j < fb.len() && !in_row(j, y) ==> fb[j] == old[j]
}

/// Paint pixel `(x, y)`; pixels outside the framebuffer window are ignored.
fn put(fb: &mut [u8], x: usize, y: usize, c: Rgb)
    requires
        x < FB_W && y < FB_H ==> (y + 1) * 1152 <= old(fb)@.len(),
    ensures
        final(fb)@.len() == old(fb)@.len(),
        forall|j: int|
            0 <= j < old(fb)@.len() ==> #[trigger] final(fb)@[j] == if x < FB_W && y < FB_H && j
                == px_index(y as int, x as int) {
                c.0
            } else if x < FB_W && y < FB_H && j == px_index(y as int, x as int) + 1 {
                c.1
            } else if x < FB_W && y < FB_H && j == px_index(y as int, x as int) + 2 {
                c.2
            } else {
                old(fb)@[j]
            },
{
    if x >= FB_W || y >= FB_H {
        return;
    }
    let i = (y * FB_W + x) * 3;
    fb[i] = c.0;
    fb[i + 1] = c.1;
    fb[i + 2] = c.2;
}

/// `put` with a signed x (sprites can be partly off the left edge / in border).
fn put_i(fb: &mut [u8], x: i32, y: usize, c: Rgb)
    requires
        y < FB_H,
        (y + 1) * 1152 <= old(fb)@.len(),
    ensures
        final(fb)@.len() == old(fb)@.len(),
        forall|j: int|
            0 <= j < old(fb)@.len() ==> #[trigger] final(fb)@[j] == if 0 <= x < FB_W && j
                == px_index(y as int, x as int) {
                c.0
            } else if 0 <= x < FB_W && j == px_index(y as int, x as int) + 1 {
                c.1
            } else if 0 <= x < FB_W && j == px_index(y as int, x as int) + 2 {
                c.2
            } else {
                old(fb)@[j]
            },
{
    if x >= 0 && (x as usize) < FB_W {
        put(fb, x as usize, y, c);
    }
}


// ---------------------------------------------------------------------------
// Background graphics
// ---------------------------------------------------------------------------

/// Display enabled ($D011 bit 4, DEN).
pub open spec fn den_on(v: Vic) -> bool {
    v.regs[0x11] & 0x10 != 0
}

/// Extended background colour mode ($D011 bit 6).
pub open spec fn ecm_on(v: Vic) -> bool {
    v.regs[0x11] & 0x40 != 0
}

/// Bitmap mode ($D011 bit 5).
pub open spec fn bmm_on(v: Vic) -> bool {
    v.regs[0x11] & 0x20 != 0
}

/// Multicolour mode ($D016 bit 4).
pub open spec fn mcm_on(v: Vic) -> bool {
    v.regs[0x16] & 0x10 != 0
}

/// Video matrix base: $D018 bits 4-7 times 1 KB.
pub open spec fn vm_base_of(v: Vic) -> u16 {
    ((((v.regs[0x18] >> 4u8) & 0x0F) as u16) * 0x0400) as u16
}

/// Character generator base: $D018 bits 1-3 times 2 KB.
pub open spec fn char_base_of(v: Vic) -> u16 {
    ((((v.regs[0x18] >> 1u8) & 0x07) as u16) * 0x0800) as u16
}

/// Bitmap base: $D018 bit 3 times 8 KB.
pub open spec fn bm_base_of(v: Vic) -> u16 {
    ((((v.regs[0x18] >> 3u8) & 0x01) as u16) * 0x2000) as u16
}

/// The colour of a 2-bit multicolour pixel.
pub open spec fn mc_pick(bits: u8, c00: Rgb, c01: Rgb, c10: Rgb, c11: Rgb) -> Rgb {
    if bits == 0 {
        c00
    } else if bits == 1 {
        c01
    } else if bits == 2 {
        c10
    } else {
        c11
    }
}

/// The 2 bits of a multicolour byte that pixel `q` (0-7) shows: pairs of
/// pixels share a bit pair, from the top bits down.
pub open spec fn mc_bits(data: u8, q: int) -> u8 {
    (data >> ((6 - (q / 2) * 2) as u8)) & 0x03
}

/// Whether pixel `q` (0-7) of a hi-res byte is set (top bit first).
pub open spec fn hires_on(data: u8, q: int) -> bool {
    data & (0x80u8 >> (q as u8)) != 0
}

/// Pixel `q` (0-7) of character cell `c` (0-39) on display line `line`
/// (0-199), in the current graphics mode.
pub open spec fn cell_pixel(bus: C64Bus, line: int, c: int, q: int) -> Rgb {
    let v = bus.io.vic;
    let pr = line % 8;
    let cell = (line / 8) * 40 + c;
    let vm = vic_fetch(bus, (vm_base_of(v) + cell) as u16);
    let cram = bus.io.color_ram[cell] & 0x0F;
    let bg0 = color_of(v.regs[0x21]);
    if !bmm_on(v) {
        // Text modes.
        let code = if ecm_on(v) { (vm & 0x3F) as int } else { vm as int };
        let data = vic_fetch(bus, (char_base_of(v) + code * 8 + pr) as u16);
        if mcm_on(v) && (cram & 0x08) != 0 {
            mc_pick(mc_bits(data, q), bg0, color_of(v.regs[0x22]), color_of(v.regs[0x23]), color_of(cram & 0x07))
        } else {
            let bg = if ecm_on(v) { color_of(v.regs[0x21 + ((vm >> 6u8) & 0x03)]) } else { bg0 };
            let fg = if mcm_on(v) { color_of(cram & 0x07) } else { color_of(cram) };
            if hires_on(data, q) { fg } else { bg }
        }
    } else {
        // Bitmap modes: cell * 8 is the bitmap byte offset of the cell.
        let data = vic_fetch(bus, (bm_base_of(v) + cell * 8 + pr) as u16);
        if !mcm_on(v) {
            if hires_on(data, q) { color_of(vm >> 4u8) } else { color_of(vm & 0x0F) }
        } else {
            mc_pick(mc_bits(data, q), bg0, color_of(vm >> 4u8), color_of(vm & 0x0F), color_of(cram))
        }
    }
}

/// The background graphics at framebuffer column `x` (32-351) of raster line
/// `raster` inside the display window.
pub open spec fn bg_pixel(bus: C64Bus, raster: u16, x: int) -> Rgb {
    cell_pixel(bus, raster - DISP_TOP, (x - 32) / 8, (x - 32) % 8)
}

/// Multicolour bitmap mode ($D011 BMM and $D016 MCM set): each character
/// cell takes 8 bitmap bytes, one per line, and each byte shows four
/// double-width pixels from its top bit pair down. Pair 00 shows the
/// background colour $D021, 01 the upper nybble of the cell's video-matrix
/// byte, 10 its lower nybble, and 11 the cell's colour-RAM nybble.
pub proof fn law_multicolour_bitmap(bus: C64Bus, line: int, c: int, q: int)
    requires
        bus.io.vic.regs[0x11] & 0x20 != 0,
        bus.io.vic.regs[0x16] & 0x10 != 0,
        0 <= line < 200,
        0 <= c < 40,
        0 <= q < 8,
    ensures
        ({
            let v = bus.io.vic;
            let cell = (line / 8) * 40 + c;
            let vm = vic_fetch(bus, (vm_base_of(v) + cell) as u16);
            let data = vic_fetch(bus, (bm_base_of(v) + cell * 8 + line % 8) as u16);
            let pair = if q < 2 {
                data / 64
            } else if q < 4 {
                (data / 16) % 4
            } else if q < 6 {
                (data / 4) % 4
            } else {
                data % 4
            };
            cell_pixel(bus, line, c, q) == if pair == 0 {
                color_of(v.regs[0x21])
            } else if pair == 1 {
                color_of(vm / 16)
            } else if pair == 2 {
                color_of(vm % 16)
            } else {
                color_of(bus.io.color_ram[cell] % 16)
            }
        }),
{
    crate::bits::lemma_bit_pairs();
    crate::bits::lemma_byte_masks();
    let v = bus.io.vic;
    let cell = (line / 8) * 40 + c;
    let vm = vic_fetch(bus, (vm_base_of(v) + cell) as u16);
    let data = vic_fetch(bus, (bm_base_of(v) + cell * 8 + line % 8) as u16);
    let cram = bus.io.color_ram[cell] & 0x0F;
    assert(cram == bus.io.color_ram[cell] % 16);
    assert(vm >> 4u8 == vm / 16);
    assert(vm & 0x0F == vm % 16);
    if q < 2 {
        assert(q / 2 == 0);
        assert(mc_bits(data, q) == (data >> 6u8) & 0x03);
    } else if q < 4 {
        assert(q / 2 == 1);
        assert(mc_bits(data, q) == (data >> 4u8) & 0x03);
    } else if q < 6 {
        assert(q / 2 == 2);
        assert(mc_bits(data, q) == (data >> 2u8) & 0x03);
    } else {
        assert(q / 2 == 3);
        assert(mc_bits(data, q) == (data >> 0u8) & 0x03);
    }
}

proof fn lemma_cell_column(x: int, c: int, q: int)
    requires
        0 <= q < 8,
        x == 32 + c * 8 + q,
    ensures
        (x - 32) / 8 == c,
        (x - 32) % 8 == q,
{
    lemma_fundamental_div_mod_converse(x - 32, 8, c, q);
}

/// Draw the 40-column background graphics for one line.
#[verifier::spinoff_prover]
fn render_background(
    bus: &C64Bus,
    vic: &Vic,
    raster: u16,
    vm_base: u16,
    d018: u8,
    ecm: bool,
    bmm: bool,
    mcm: bool,
    fb: &mut [u8],
    y: usize,
)
    requires
        *vic == bus.io.vic,
        DISP_TOP <= raster < DISP_BOT,
        y == raster - Y_TOP,
        (y + 1) * 1152 <= old(fb)@.len(),
        vm_base == vm_base_of(*vic),
        d018 == vic.regs[0x18],
        ecm == ecm_on(*vic),
        bmm == bmm_on(*vic),
        mcm == mcm_on(*vic),
    ensures
        same_outside_row(final(fb)@, old(fb)@, y as int),
        forall|x: int|
            0 <= x < FB_W ==> #[trigger] pixel(final(fb)@, y as int, x) == if 32 <= x < 352 {
                bg_pixel(*bus, raster, x)
            } else {
                pixel(old(fb)@, y as int, x)
            },
{
    let ghost fb0 = fb@;
    let line = raster - DISP_TOP;  // 0..199
    let row = (line / 8) as usize;
    let pr = line % 8;

    proof {
        crate::bits::lemma_byte_masks();
    }
    let char_base = (((d018 >> 1u8) & 0x07) as u16) * 0x0800;
    let bm_base = (((d018 >> 3u8) & 0x01) as u16) * 0x2000;
    let bg0 = col(vic.reg(0x21));

    let mut c: usize = 0;
    while c < 40
        invariant
            *vic == bus.io.vic,
            DISP_TOP <= raster < DISP_BOT,
            y == raster - Y_TOP,
            line == raster - DISP_TOP,
            row == line / 8,
            pr == line % 8,
            (y + 1) * 1152 <= fb0.len(),
            vm_base == vm_base_of(*vic),
            char_base == char_base_of(*vic),
            bm_base == bm_base_of(*vic),
            vm_base <= 0x3C00,
            char_base <= 0x3800,
            bm_base <= 0x2000,
            ecm == ecm_on(*vic),
            bmm == bmm_on(*vic),
            mcm == mcm_on(*vic),
            bg0 == color_of(vic.regs[0x21]),
            c <= 40,
            same_outside_row(fb@, fb0, y as int),
            forall|x: int|
                0 <= x < FB_W ==> #[trigger] pixel(fb@, y as int, x) == if 32 <= x < 32 + 8 * c {
                    bg_pixel(*bus, raster, x)
                } else {
                    pixel(fb0, y as int, x)
                },
        decreases 40 - c,
    {
        let cell = row * 40 + c;
        let vm = vic_read(bus, vm_base + cell as u16);
        let cram = bus.io.color_ram[cell] & 0x0F;
        let xbase = X_LEFT + c * 8;
        // The colours of the four kinds of pixel in this cell, and its data byte.
        let (data, c00, c01, c10, c11, multi) = if !bmm {
            let code = if ecm { (vm & 0x3F) as u16 } else { vm as u16 };
            let data = vic_read(bus, char_base + code * 8 + pr);
            if mcm && (cram & 0x08) != 0 {
                (data, bg0, col(vic.reg(0x22)), col(vic.reg(0x23)), col(cram & 0x07), true)
            } else {
                let bg = if ecm {
                    col(vic.reg(0x21 + ((vm >> 6u8) & 0x03) as usize))
                } else {
                    bg0
                };
                let fg = if mcm { col(cram & 0x07) } else { col(cram) };
                (data, bg, fg, fg, fg, false)
            }
        } else {
            let data = vic_read(bus, bm_base + (cell as u16) * 8 + pr);
            if !mcm {
                (data, col(vm & 0x0F), col(vm >> 4u8), col(vm >> 4u8), col(vm >> 4u8), false)
            } else {
                (data, bg0, col(vm >> 4u8), col(vm & 0x0F), col(cram), true)
            }
        };
        proof {
            let v = bus.io.vic;
            let cl = (line / 8) * 40 + c;
            assert(cell as int == cl);
            assert(vm == vic_fetch(*bus, (vm_base_of(v) + cl) as u16));
            assert(cram == bus.io.color_ram[cl] & 0x0F);
            crate::bits::lemma_byte_masks();
            assert forall|k: int| 0 <= k < 8 implies #[trigger] cell_pixel(*bus, line as int, c as int, k) == if multi {
                mc_pick(mc_bits(data, k), c00, c01, c10, c11)
            } else if hires_on(data, k) {
                c01
            } else {
                c00
            } by {
            }
        }
        let mut q: u8 = 0;
        while q < 8
            invariant
                *vic == bus.io.vic,
                DISP_TOP <= raster < DISP_BOT,
                y == raster - Y_TOP,
                line == raster - DISP_TOP,
                (y + 1) * 1152 <= fb0.len(),
                c < 40,
                xbase == 32 + c * 8,
                q <= 8,
                forall|k: int|
                    0 <= k < 8 ==> #[trigger] cell_pixel(*bus, line as int, c as int, k) == if multi {
                        mc_pick(mc_bits(data, k), c00, c01, c10, c11)
                    } else if hires_on(data, k) {
                        c01
                    } else {
                        c00
                    },
                same_outside_row(fb@, fb0, y as int),
                forall|x: int|
                    0 <= x < FB_W ==> #[trigger] pixel(fb@, y as int, x) == if 32 <= x < xbase {
                        bg_pixel(*bus, raster, x)
                    } else if xbase <= x < xbase + q {
                        cell_pixel(*bus, line as int, c as int, x - xbase)
                    } else {
                        pixel(fb0, y as int, x)
                    },
            decreases 8 - q,
        {
            let pc = if multi {
                let bits = (data >> (6 - (q / 2) * 2)) & 0x03;
                if bits == 0 {
                    c00
                } else if bits == 1 {
                    c01
                } else if bits == 2 {
                    c10
                } else {
                    c11
                }
            } else if data & (0x80u8 >> q) != 0 {
                c01
            } else {
                c00
            };
            let ghost before = fb@;
            assert(pc == cell_pixel(*bus, line as int, c as int, q as int));
            put(fb, xbase + q as usize, y, pc);
            assert forall|x: int| 0 <= x < FB_W implies #[trigger] pixel(fb@, y as int, x) == if 32 <= x < xbase {
                bg_pixel(*bus, raster, x)
            } else if xbase <= x < xbase + q + 1 {
                cell_pixel(*bus, line as int, c as int, x - xbase)
            } else {
                pixel(fb0, y as int, x)
            } by {
                if x != xbase + q {
                    assert(pixel(fb@, y as int, x) == pixel(before, y as int, x));
                }
            }
            q = q + 1;
        }
        proof {
            assert forall|x: int| xbase <= x < xbase + 8 implies #[trigger] bg_pixel(*bus, raster, x)
                == cell_pixel(*bus, line as int, c as int, x - xbase) by {
                lemma_cell_column(x, c as int, x - xbase);
            }
        }
        c = c + 1;
    }
}


// ---------------------------------------------------------------------------
// Sprites
// ---------------------------------------------------------------------------

/// Bit `n` (0-23) of a sprite line's three data bytes, top bit first.
pub open spec fn sprite_bit(d0: u8, d1: u8, d2: u8, n: int) -> u8 {
    let b = if n / 8 == 0 {
        d0
    } else if n / 8 == 1 {
        d1
    } else {
        d2
    };
    (b >> ((7 - n % 8) as u8)) & 1
}

/// One sprite's line of pixels as the renderer paints it.
pub struct SpriteRow {
    /// Framebuffer column of the sprite's left edge.
    pub x0: i32,
    /// Width of one pixel (1, 2 or 4 framebuffer columns).
    pub unit: u32,
    /// Multicolour (12 pixel pairs) or hi-res (24 pixels).
    pub multi: bool,
    /// The three data bytes of the line.
    pub d0: u8,
    pub d1: u8,
    pub d2: u8,
    /// The sprite's own colour and the two shared multicolours.
    pub color: Rgb,
    pub mc0: Rgb,
    pub mc1: Rgb,
}

/// The line of sprite `i` (0-7) on raster line `raster`; `None` when the
/// sprite is disabled or does not cover the line.
///
/// A sprite is 24 pixels (12 double-wide pixel pairs in multicolour mode)
/// by 21 lines; X and Y expansion double its pixels. Its data line is read
/// from the block that the pointer at video matrix + $3F8 + i selects, and
/// C64 X coordinate 24 is the left edge of the 40-column display.
pub open spec fn sprite_row(bus: C64Bus, raster: u16, i: int) -> Option<SpriteRow> {
    let v = bus.io.vic;
    let bit = 1u8 << (i as u8);
    let sy = v.regs[0x01 + i * 2] as int;
    let expand_y = v.regs[0x17] & bit != 0;
    let height: int = if expand_y { 42 } else { 21 };
    if v.regs[0x15] & bit == 0 || raster < sy || raster >= sy + height {
        None
    } else {
        let srow = if expand_y { (raster - sy) / 2 } else { raster - sy };
        let ptr = vic_fetch(bus, (vm_base_of(v) + 0x03F8 + i) as u16) as int;
        let base = ptr * 64 + srow * 3;
        let sx = v.regs[i * 2] as int + if v.regs[0x10] & bit != 0 { 0x100int } else { 0 };
        let expand_x = v.regs[0x1D] & bit != 0;
        let multi = v.regs[0x1C] & bit != 0;
        Some(SpriteRow {
            x0: (32 + sx - 24) as i32,
            unit: if multi {
                if expand_x { 4 } else { 2 }
            } else {
                if expand_x { 2 } else { 1 }
            },
            multi: multi,
            d0: vic_fetch(bus, base as u16),
            d1: vic_fetch(bus, (base + 1) as u16),
            d2: vic_fetch(bus, (base + 2) as u16),
            color: color_of(v.regs[0x27 + i]),
            mc0: color_of(v.regs[0x25]),
            mc1: color_of(v.regs[0x26]),
        })
    }
}

/// Columns a sprite line covers from its left edge.
pub open spec fn row_width(r: SpriteRow) -> int {
    if r.multi {
        12 * r.unit
    } else {
        24 * r.unit
    }
}

/// What a sprite line paints at framebuffer column `x`; `None` outside it
/// and where it is transparent (bit pair 00, or a clear hi-res bit).
pub open spec fn row_pixel(r: SpriteRow, x: int) -> Option<Rgb> {
    let off = x - r.x0;
    if 0 <= off < row_width(r) {
        let p = off / (r.unit as int);
        if r.multi {
            let pair = sprite_bit(r.d0, r.d1, r.d2, p * 2) * 2 + sprite_bit(r.d0, r.d1, r.d2, p * 2 + 1);
            if pair == 0 {
                None
            } else if pair == 1 {
                Some(r.mc0)
            } else if pair == 2 {
                Some(r.color)
            } else {
                Some(r.mc1)
            }
        } else if sprite_bit(r.d0, r.d1, r.d2, p) != 0 {
            Some(r.color)
        } else {
            None
        }
    } else {
        None
    }
}

/// What sprite `i` (0-7) paints at framebuffer column `x` of raster line
/// `raster`: `None` where it is disabled, off this line, or transparent.
pub open spec fn sprite_pixel(bus: C64Bus, raster: u16, i: int, x: int) -> Option<Rgb> {
    match sprite_row(bus, raster, i) {
        Some(r) => row_pixel(r, x),
        None => None,
    }
}

/// The colour at column `x` with sprites `i..8` drawn over `under`: the
/// lowest-numbered sprite that paints there wins.
pub open spec fn layered_pixel(bus: C64Bus, raster: u16, x: int, under: Rgb, i: int) -> Rgb
    decreases 8 - i,
{
    if i >= 8 {
        under
    } else {
        match sprite_pixel(bus, raster, i, x) {
            Some(c) => c,
            None => layered_pixel(bus, raster, x, under, i + 1),
        }
    }
}

proof fn lemma_no_sprites(bus: C64Bus, raster: u16, x: int, under: Rgb, i: int)
    requires
        bus.io.vic.regs[0x15] == 0,
        0 <= i <= 8,
    ensures
        layered_pixel(bus, raster, x, under, i) == under,
    decreases 8 - i,
{
    if i < 8 {
        let bit = 1u8 << (i as u8);
        assert(0u8 & bit == 0) by (bit_vector);
        lemma_no_sprites(bus, raster, x, under, i + 1);
    }
}

fn sprite_bit_exec(d0: u8, d1: u8, d2: u8, n: u32) -> (b: u8)
    requires
        n < 24,
    ensures
        b == sprite_bit(d0, d1, d2, n as int),
        b <= 1,
{
    let r = (if n / 8 == 0 { d0 } else if n / 8 == 1 { d1 } else { d2 } >> ((7 - n % 8) as u8)) & 1;
    assert(r <= 1) by (bit_vector)
        requires
            r == (if n / 8 == 0 { d0 } else if n / 8 == 1 { d1 } else { d2 } >> ((7 - n % 8) as u8)) & 1,
    ;
    let b = if n / 8 == 0 {
        d0
    } else if n / 8 == 1 {
        d1
    } else {
        d2
    };
    (b >> ((7 - n % 8) as u8)) & 1
}

/// The line of sprite `i` on this raster line, if it shows there.
#[verifier::spinoff_prover]
#[verifier::rlimit(30)]
fn read_sprite_row(bus: &C64Bus, vic: &Vic, raster: u16, vm_base: u16, i: usize) -> (r: Option<SpriteRow>)
    requires
        *vic == bus.io.vic,
        i < 8,
        vm_base == vm_base_of(*vic),
        vm_base <= 0x3C00,
    ensures
        r == sprite_row(*bus, raster, i as int),
        r matches Some(row) ==> -8 <= row.x0 <= 0x1FF + 8,
{
    let bit = 1u8 << (i as u8);
    let sy = vic.reg(0x01 + i * 2) as u16;
    let expand_y = vic.reg(0x17) & bit != 0;
    let height: u16 = if expand_y { 42 } else { 21 };
    if vic.reg(0x15) & bit == 0 || raster < sy || raster >= sy + height {
        return None;
    }
    let mut srow = raster - sy;
    if expand_y {
        srow = srow / 2;
    }
    // Sprite data: pointer byte at vm_base+$3F8+i, times 64 = data block.
    let ptr = vic_read(bus, vm_base + 0x03F8 + i as u16) as u16;
    let base = ptr * 64 + srow * 3;
    let d0 = vic_read(bus, base);
    let d1 = vic_read(bus, base + 1);
    let d2 = vic_read(bus, base + 2);
    let sx = vic.reg(i * 2) as i32 + if vic.reg(0x10) & bit != 0 { 0x100i32 } else { 0 };
    let expand_x = vic.reg(0x1D) & bit != 0;
    let multi = vic.reg(0x1C) & bit != 0;
    let unit: u32 = if multi {
        if expand_x { 4 } else { 2 }
    } else {
        if expand_x { 2 } else { 1 }
    };
    Some(SpriteRow {
        // C64 X coordinate 24 is the left edge of the 40-column display (fb X_LEFT).
        x0: X_LEFT as i32 + (sx - 24),
        unit,
        multi,
        d0,
        d1,
        d2,
        color: col(vic.reg(0x27 + i)),
        mc0: col(vic.reg(0x25)),
        mc1: col(vic.reg(0x26)),
    })
}

/// Paint the opaque pixels of a sprite line into row `y`.
#[verifier::spinoff_prover]
fn paint_sprite_row(r: &SpriteRow, fb: &mut [u8], y: usize)
    requires
        y < FB_H,
        (y + 1) * 1152 <= old(fb)@.len(),
        -8 <= r.x0 <= 0x1FF + 8,
        r.unit == 1 || r.unit == 2 || r.unit == 4,
    ensures
        same_outside_row(final(fb)@, old(fb)@, y as int),
        forall|x: int|
            0 <= x < FB_W ==> #[trigger] pixel(final(fb)@, y as int, x) == match row_pixel(*r, x) {
                Some(c) => c,
                None => pixel(old(fb)@, y as int, x),
            },
{
    let ghost fb0 = fb@;
    let unit = r.unit;
    let width: u32 = if r.multi { 12 * unit } else { 24 * unit };
    let mut off: u32 = 0;
    while off < width
        invariant
            y < FB_H,
            (y + 1) * 1152 <= fb0.len(),
            -8 <= r.x0 <= 0x1FF + 8,
            unit == r.unit,
            unit == 1 || unit == 2 || unit == 4,
            width == row_width(*r),
            off <= width,
            same_outside_row(fb@, fb0, y as int),
            forall|x: int|
                0 <= x < FB_W ==> #[trigger] pixel(fb@, y as int, x) == if r.x0 <= x < r.x0 + off {
                    match row_pixel(*r, x) {
                        Some(c) => c,
                        None => pixel(fb0, y as int, x),
                    }
                } else {
                    pixel(fb0, y as int, x)
                },
        decreases width - off,
    {
        let p = off / unit;
        proof {
            if r.multi {
                lemma_multiply_divide_lt(off as int, unit as int, 12);
            } else {
                lemma_multiply_divide_lt(off as int, unit as int, 24);
            }
        }
        let pc: Option<Rgb> = if r.multi {
            let pair = sprite_bit_exec(r.d0, r.d1, r.d2, p * 2) * 2 + sprite_bit_exec(r.d0, r.d1, r.d2, p * 2 + 1);
            if pair == 0 {
                None  // transparent
            } else if pair == 1 {
                Some(r.mc0)
            } else if pair == 2 {
                Some(r.color)
            } else {
                Some(r.mc1)
            }
        } else if sprite_bit_exec(r.d0, r.d1, r.d2, p) != 0 {
            Some(r.color)
        } else {
            None  // transparent
        };
        let ghost before = fb@;
        let xx = r.x0 + off as i32;
        match pc {
            Some(c) => put_i(fb, xx, y, c),
            None => {},
        }
        proof {
            assert(row_pixel(*r, xx as int) == pc);
            assert forall|x: int| 0 <= x < FB_W implies #[trigger] pixel(fb@, y as int, x) == if r.x0 <= x < r.x0 + off + 1 {
                match row_pixel(*r, x) {
                    Some(c) => c,
                    None => pixel(fb0, y as int, x),
                }
            } else {
                pixel(fb0, y as int, x)
            } by {
                if x != xx {
                    assert(pixel(fb@, y as int, x) == pixel(before, y as int, x));
                }
            }
        }
        off = off + 1;
    }
}

/// Draw sprite `i` where it intersects this raster line.
fn draw_sprite(bus: &C64Bus, vic: &Vic, raster: u16, vm_base: u16, i: usize, fb: &mut [u8], y: usize)
    requires
        *vic == bus.io.vic,
        i < 8,
        y < FB_H,
        (y + 1) * 1152 <= old(fb)@.len(),
        vm_base == vm_base_of(*vic),
        vm_base <= 0x3C00,
    ensures
        same_outside_row(final(fb)@, old(fb)@, y as int),
        forall|x: int|
            0 <= x < FB_W ==> #[trigger] pixel(final(fb)@, y as int, x) == match sprite_pixel(
                *bus,
                raster,
                i as int,
                x,
            ) {
                Some(c) => c,
                None => pixel(old(fb)@, y as int, x),
            },
{
    match read_sprite_row(bus, vic, raster, vm_base, i) {
        Some(r) => paint_sprite_row(&r, fb, y),
        None => {},
    }
}

/// Draw any sprites that intersect this raster line, on top of the background.
///
/// Priority handling is simplified: all sprites are drawn over the background
/// (the $D01B sprite-behind-foreground bit is not honoured), and lower-numbered
/// sprites are drawn last so they win overlaps (sprite 0 on top).
#[verifier::spinoff_prover]
fn render_sprites(bus: &C64Bus, vic: &Vic, raster: u16, vm_base: u16, fb: &mut [u8], y: usize)
    requires
        *vic == bus.io.vic,
        y < FB_H,
        (y + 1) * 1152 <= old(fb)@.len(),
        vm_base == vm_base_of(*vic),
        vm_base <= 0x3C00,
    ensures
        same_outside_row(final(fb)@, old(fb)@, y as int),
        forall|x: int|
            0 <= x < FB_W ==> #[trigger] pixel(final(fb)@, y as int, x) == layered_pixel(
                *bus,
                raster,
                x,
                pixel(old(fb)@, y as int, x),
                0,
            ),
{
    let ghost fb0 = fb@;
    if vic.reg(0x15) == 0 {
        proof {
            assert forall|x: int| 0 <= x < FB_W implies #[trigger] pixel(fb@, y as int, x) == layered_pixel(
                *bus,
                raster,
                x,
                pixel(fb0, y as int, x),
                0,
            ) by {
                lemma_no_sprites(*bus, raster, x, pixel(fb0, y as int, x), 0);
            }
        }
        return;
    }
    // Sprite 0 has the highest priority: draw 7..0 so 0 is painted last.
    let mut k: usize = 8;
    while k > 0
        invariant
            *vic == bus.io.vic,
            k <= 8,
            y < FB_H,
            (y + 1) * 1152 <= fb0.len(),
            vm_base == vm_base_of(*vic),
            vm_base <= 0x3C00,
            same_outside_row(fb@, fb0, y as int),
            forall|x: int|
                0 <= x < FB_W ==> #[trigger] pixel(fb@, y as int, x) == layered_pixel(
                    *bus,
                    raster,
                    x,
                    pixel(fb0, y as int, x),
                    k as int,
                ),
        decreases k,
    {
        k = k - 1;
        draw_sprite(bus, vic, raster, vm_base, k, fb, y);
    }
}

// ---------------------------------------------------------------------------
// Whole lines
// ---------------------------------------------------------------------------

/// What lies under the sprites at column `x`: the background graphics inside
/// the display window when the display is enabled, the border colour
/// elsewhere.
pub open spec fn under_sprites(bus: C64Bus, raster: u16, x: int) -> Rgb {
    let v = bus.io.vic;
    if den_on(v) && DISP_TOP <= raster < DISP_BOT && 32 <= x < 352 {
        bg_pixel(bus, raster, x)
    } else {
        color_of(v.regs[0x20])
    }
}

/// The colour of column `x` of raster line `raster`.
pub open spec fn line_pixel(bus: C64Bus, raster: u16, x: int) -> Rgb {
    layered_pixel(bus, raster, x, under_sprites(bus, raster, x), 0)
}

/// Whether raster line `raster` is shown in the framebuffer.
pub open spec fn line_shown(raster: u16) -> bool {
    Y_TOP <= raster < Y_TOP + FB_H
}

/// Render raster line `raster` into `fb` (an `FB_W` x `FB_H` RGB framebuffer):
/// the row `raster - Y_TOP` is repainted and every other byte is left as it
/// was. Lines outside the framebuffer window are not drawn.
#[verifier::spinoff_prover]
pub fn render_line(bus: &C64Bus, raster: u16, fb: &mut [u8])
    requires
        line_shown(raster) ==> (raster - Y_TOP + 1) * 1152 <= old(fb)@.len(),
    ensures
        final(fb)@ == rendered(old(fb)@, *bus, raster),
        !line_shown(raster) ==> final(fb)@ == old(fb)@,
        line_shown(raster) ==> same_outside_row(final(fb)@, old(fb)@, raster - Y_TOP),
        line_shown(raster) ==> forall|x: int|
            0 <= x < FB_W ==> #[trigger] pixel(final(fb)@, raster - Y_TOP, x) == line_pixel(*bus, raster, x),
{
    if raster < Y_TOP || raster >= Y_TOP + FB_H as u16 {
        return;
    }
    let ghost fb0 = fb@;
    let y = (raster - Y_TOP) as usize;
    let vic = &bus.io.vic;

    let d011 = vic.reg(0x11);
    let d016 = vic.reg(0x16);
    let den = d011 & 0x10 != 0;
    let ecm = d011 & 0x40 != 0;
    let bmm = d011 & 0x20 != 0;
    let mcm = d016 & 0x10 != 0;

    let border = col(vic.reg(0x20));
    // Border fills the whole line first; the display window overwrites the middle.
    let mut x: usize = 0;
    while x < FB_W
        invariant
            y < FB_H,
            (y + 1) * 1152 <= fb0.len(),
            x <= FB_W,
            same_outside_row(fb@, fb0, y as int),
            forall|x2: int|
                0 <= x2 < FB_W ==> #[trigger] pixel(fb@, y as int, x2) == if x2 < x {
                    border
                } else {
                    pixel(fb0, y as int, x2)
                },
        decreases FB_W - x,
    {
        let ghost before = fb@;
        put(fb, x, y, border);
        proof {
            assert forall|x2: int| 0 <= x2 < FB_W implies #[trigger] pixel(fb@, y as int, x2) == if x2 < x + 1 {
                border
            } else {
                pixel(fb0, y as int, x2)
            } by {
                if x2 != x {
                    assert(pixel(fb@, y as int, x2) == pixel(before, y as int, x2));
                }
            }
        }
        x = x + 1;
    }

    let d018 = vic.reg(0x18);
    proof {
        crate::bits::lemma_byte_masks();
    }
    let vm_base = (((d018 >> 4u8) & 0x0F) as u16) * 0x0400;

    // Background graphics only inside the vertical display window (and when the
    // display is enabled). Sprites are drawn afterwards and may sit in the border.
    let ghost fb1 = fb@;
    if den && raster >= DISP_TOP && raster < DISP_BOT {
        render_background(bus, vic, raster, vm_base, d018, ecm, bmm, mcm, fb, y);
    }
    let ghost fb2 = fb@;
    assert forall|x2: int| 0 <= x2 < FB_W implies #[trigger] pixel(fb2, y as int, x2) == under_sprites(*bus, raster, x2) by {
        assert(pixel(fb1, y as int, x2) == border);
    }
    render_sprites(bus, vic, raster, vm_base, fb, y);
    assert forall|x2: int| 0 <= x2 < FB_W implies #[trigger] pixel(fb@, y as int, x2) == line_pixel(*bus, raster, x2) by {
        assert(pixel(fb2, y as int, x2) == under_sprites(*bus, raster, x2));
    }
    proof {
        lemma_rendered_from_pixels(fb@, fb0, *bus, raster);
    }
}

/// The `k`th byte (0 red, 1 green, 2 blue) of a colour.
pub open spec fn rgb_part(c: Rgb, k: int) -> u8 {
    if k == 0 {
        c.0
    } else if k == 1 {
        c.1
    } else {
        c.2
    }
}

/// The framebuffer `fb` after raster line `raster` is drawn into it: the
/// line's row holds `line_pixel` of each column, every other byte is kept.
pub open spec fn rendered(fb: Seq<u8>, bus: C64Bus, raster: u16) -> Seq<u8> {
    if !line_shown(raster) {
        fb
    } else {
        let y = raster - Y_TOP;
        Seq::new(
            fb.len(),
            |j: int|
                if in_row(j, y) {
                    rgb_part(line_pixel(bus, raster, (j - y * 1152) / 3), (j - y * 1152) % 3)
                } else {
                    fb[j]
                },
        )
    }
}

proof fn lemma_rendered_from_pixels(fb: Seq<u8>, fb0: Seq<u8>, bus: C64Bus, raster: u16)
    requires
        line_shown(raster),
        (raster - Y_TOP + 1) * 1152 <= fb0.len(),
        same_outside_row(fb, fb0, raster - Y_TOP),
        forall|x: int|
            0 <= x < FB_W ==> #[trigger] pixel(fb, raster - Y_TOP, x) == line_pixel(bus, raster, x),
    ensures
        fb == rendered(fb0, bus, raster),
{
    let y = raster - Y_TOP;
    assert forall|j: int| 0 <= j < fb.len() implies #[trigger] fb[j] == rendered(fb0, bus, raster)[j] by {
        if in_row(j, y) {
            let x = (j - y * 1152) / 3;
            let k = (j - y * 1152) % 3;
            lemma_fundamental_div_mod(j - y * 1152, 3);
            assert(j == px_index(y, x) + k);
            assert(pixel(fb, y, x) == line_pixel(bus, raster, x));
        }
    }
    assert(fb =~= rendered(fb0, bus, raster));
}

} // verus!
