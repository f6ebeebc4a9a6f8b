//! MOS 6569 VIC-II registers and raster timing.
//!
//! Models a free-running raster line counter (`$D012` low byte, `$D011` bit 7
//! high bit) on the PAL timing of 63 cycles per line and 312 lines per frame,
//! the raster compare value, the interrupt latch `$D019` and enable `$D01A`
//! with the raster-compare source, and register mirroring every 64 bytes
//! across `$D000-$D3FF`. The renderer reads the stored registers.
use vstd::prelude::*;

verus! {

/// PAL 6569 timing.
pub const CYCLES_PER_LINE: u32 = 63;
pub const LINES_PER_FRAME: u16 = 312;

pub struct Vic {
    /// Backing store for the registers ($D000-$D03F).
    pub regs: [u8; 0x40],
    /// Current raster line (0..LINES_PER_FRAME-1).
    pub raster: u16,
    /// Cycles elapsed within the current line.
    pub line_cycles: u32,
    /// Raster line at which a compare IRQ fires.
    pub raster_compare: u16,
    /// $D019 interrupt latch (bit 0 = raster compare hit).
    pub irq_latch: u8,
    /// $D01A interrupt enable mask.
    pub irq_enable: u8,
}

/// The VIC's power-on state.
pub open spec fn spec_vic_new() -> Vic {
    Vic {
        regs: vstd::array::spec_array_fill_for_copy_type::<u8, 0x40>(0u8),
        raster: 0,
        line_cycles: 0,
        raster_compare: 0,
        irq_latch: 0,
        irq_enable: 0,
    }
}

/// The IRQ line: some enabled source has latched.
pub open spec fn vic_irq(v: Vic) -> bool {
    v.irq_latch & v.irq_enable & 0x0F != 0
}

/// True when one of the `k` lines entered after line `r0` is the compare line.
pub open spec fn compare_hit(r0: u16, k: int, cmp: u16) -> bool {
    exists|j: int| 1 <= j <= k && #[trigger] ((r0 + j) % 312) == cmp
}

/// The VIC after `cycles` more phi2 clocks: every full 63 cycles start a new
/// line (wrapping after 312), and entering the compare line latches the raster
/// interrupt source.
pub open spec fn spec_vic_tick(v: Vic, cycles: u64) -> Vic {
    let total = v.line_cycles + (cycles as u32);
    let k = total / 63;
    Vic {
        raster: ((v.raster + k) % 312) as u16,
        line_cycles: (total % 63) as u32,
        irq_latch: if compare_hit(v.raster, k, v.raster_compare) {
            v.irq_latch | 1
        } else {
            v.irq_latch
        },
        ..v
    }
}

/// What reading register `addr` (mirrored every 64 bytes) returns.
pub open spec fn spec_vic_read(v: Vic, addr: u16) -> u8 {
    let r = addr % 64;
    if r == 0x11 {
        // Bit 7 is bit 8 of the current raster line.
        (v.regs[0x11] & 0x7F) | (if (v.raster / 256) % 2 == 1 { 0x80u8 } else { 0 })
    } else if r == 0x12 {
        (v.raster % 256) as u8
    } else if r == 0x19 {
        // Unused bits read as 1; bit 7 is set while an enabled IRQ is pending.
        if vic_irq(v) {
            v.irq_latch | 0x70 | 0x80
        } else {
            v.irq_latch | 0x70
        }
    } else if r == 0x1A {
        v.irq_enable | 0xF0
    } else if r >= 0x2F {
        // Unconnected registers.
        0xFF
    } else {
        v.regs[r as int]
    }
}

/// The VIC after writing `value` to register `addr` (mirrored every 64 bytes).
pub open spec fn spec_vic_write(v: Vic, addr: u16, value: u8) -> Vic {
    let r = addr % 64;
    if r == 0x11 {
        // Bit 7 is bit 8 of the raster compare line.
        Vic {
            regs: vstd::array::spec_array_update(v.regs, 0x11, value),
            raster_compare: (v.raster_compare % 256 + (if value >= 0x80 { 256int } else { 0 })) as u16,
            ..v
        }
    } else if r == 0x12 {
        Vic {
            raster_compare: ((if (v.raster_compare / 256) % 2 == 1 { 256int } else { 0 }) + value) as u16,
            ..v
        }
    } else if r == 0x19 {
        // Writing 1s acknowledges (clears) latched sources.
        Vic { irq_latch: v.irq_latch & !(value & 0x0F), ..v }
    } else if r == 0x1A {
        Vic { irq_enable: value & 0x0F, ..v }
    } else {
        Vic { regs: vstd::array::spec_array_update(v.regs, r as int, value), ..v }
    }
}

impl Vic {
    /// The states the VIC keeps: a raster line of the frame, a cycle of the
    /// line, and only the four interrupt sources in the latch.
    pub open spec fn wf(&self) -> bool {
        &&& self.raster < LINES_PER_FRAME
        &&& self.line_cycles < CYCLES_PER_LINE
        &&& self.irq_latch < 16
    }
}

impl Default for Vic {
    fn default() -> (v: Vic)
        ensures
            v == spec_vic_new(),
            v.wf(),
    {
        Vic::new()
    }
}

impl Vic {
    /// A VIC in its power-on state.
    pub fn new() -> (v: Vic)
        ensures
            v == spec_vic_new(),
            v.wf(),
    {
        Vic { regs: [0u8; 0x40], raster: 0, line_cycles: 0, raster_compare: 0, irq_latch: 0, irq_enable: 0 }
    }

    /// Stored value of register `idx` (mirrored every 64), without side effects.
    pub fn reg(&self, idx: usize) -> (r: u8)
        ensures
            r == self.regs[(idx % 64) as int],
    {
        let i = idx & 0x3F;
        proof {
            crate::bits::lemma_index_masks();
        }
        self.regs[i]
    }

    /// Current raster line.
    pub fn raster(&self) -> (r: u16)
        ensures
            r == self.raster,
    {
        self.raster
    }

    /// Current IRQ line state (asserted when an enabled source has latched).
    pub fn irq(&self) -> (r: bool)
        ensures
            r == vic_irq(*self),
    {
        self.irq_latch & self.irq_enable & 0x0F != 0
    }

    /// Advance the raster by `cycles` and return the IRQ line state.
    pub fn tick(&mut self, cycles: u64) -> (irq: bool)
        requires
            old(self).raster < LINES_PER_FRAME,
            old(self).line_cycles + (cycles as u32) <= u32::MAX,
        ensures
            *final(self) == spec_vic_tick(*old(self), cycles),
            final(self).raster < LINES_PER_FRAME,
            final(self).line_cycles < CYCLES_PER_LINE,
            old(self).wf() ==> final(self).wf(),
            irq == vic_irq(*final(self)),
    {
        let ghost r0 = self.raster;
        let ghost l0 = self.irq_latch;
        let ghost total: int = self.line_cycles + (cycles as u32);
        self.line_cycles = self.line_cycles + cycles as u32;
        let ghost mut j: int = 0;
        while self.line_cycles >= CYCLES_PER_LINE
            invariant
                0 <= j,
                self.line_cycles + 63 * j == total,
                self.raster == (r0 + j) % 312,
                self.irq_latch == if compare_hit(r0, j, self.raster_compare) {
                    l0 | 1
                } else {
                    l0
                },
                r0 < 312,
                self.raster_compare == old(self).raster_compare,
                self.regs == old(self).regs,
                self.irq_enable == old(self).irq_enable,
            decreases self.line_cycles,
        {
            self.line_cycles = self.line_cycles - CYCLES_PER_LINE;
            self.raster = self.raster + 1;
            if self.raster >= LINES_PER_FRAME {
                self.raster = 0;
            }
            proof {
                j = j + 1;
            }
            if self.raster == self.raster_compare {
                self.irq_latch = self.irq_latch | 0x01;  // raster compare source
            }
            proof {
                if self.raster == self.raster_compare {
                    assert((r0 + j) % 312 == self.raster_compare);
                    assert(compare_hit(r0, j, self.raster_compare));
                    if compare_hit(r0, j - 1, self.raster_compare) {
                        assert((l0 | 1) | 1 == l0 | 1) by (bit_vector);
                    }
                } else {
                    if compare_hit(r0, j, self.raster_compare) {
                        let w = choose|w: int| 1 <= w <= j && #[trigger] ((r0 + w) % 312) == self.raster_compare;
                        assert(w != j);
                        assert(compare_hit(r0, j - 1, self.raster_compare));
                    }
                    if compare_hit(r0, j - 1, self.raster_compare) {
                        let w = choose|w: int| 1 <= w <= j - 1 && #[trigger] ((r0 + w) % 312) == self.raster_compare;
                        assert(1 <= w <= j);
                    }
                }
            }
        }
        proof {
            assert(j == total / 63);
            crate::bits::lemma_byte_masks();
        }
        self.irq()
    }

    /// Read register `addr` (mirrored every 64 bytes).
    pub fn read(&mut self, addr: u16) -> (v: u8)
        ensures
            v == spec_vic_read(*old(self), addr),
            *final(self) == *old(self),
    {
        let r = addr & 0x3F;
        proof {
            crate::bits::lemma_word_masks();
        }
        if r == 0x11 {
            let raster = self.raster;
            let hi = ((raster >> 8) as u8 & 0x01) << 7;
            assert(hi == (if (raster / 256) % 2 == 1 { 0x80u8 } else { 0u8 })) by (bit_vector)
                requires
                    hi == ((raster >> 8) as u8 & 0x01) << 7,
            ;
            (self.regs[0x11] & 0x7F) | hi
        } else if r == 0x12 {
            (self.raster % 256) as u8
        } else if r == 0x19 {
            let mut v = self.irq_latch | 0x70;
            if self.irq() {
                v = v | 0x80;
            }
            v
        } else if r == 0x1A {
            self.irq_enable | 0xF0
        } else if r >= 0x2F {
            0xFF
        } else {
            self.regs[r as usize]
        }
    }

    /// Write `value` to register `addr` (mirrored every 64 bytes).
    pub fn write(&mut self, addr: u16, value: u8)
        ensures
            *final(self) == spec_vic_write(*old(self), addr, value),
            old(self).wf() ==> final(self).wf(),
    {
        let r = addr & 0x3F;
        proof {
            crate::bits::lemma_word_masks();
            crate::bits::lemma_byte_masks();
        }
        if r == 0x11 {
            self.regs[0x11] = value;
            self.raster_compare = self.raster_compare % 256 + (if value >= 0x80 {
                256
            } else {
                0
            });
        } else if r == 0x12 {
            self.raster_compare = (if (self.raster_compare / 256) % 2 == 1 {
                256
            } else {
                0
            }) + value as u16;
        } else if r == 0x19 {
            self.irq_latch = self.irq_latch & !(value & 0x0F);
        } else if r == 0x1A {
            self.irq_enable = value & 0x0F;
        } else {
            self.regs[r as usize] = value;
        }
    }
}


// ---------------------------------------------------------------------------
// Laws
// ---------------------------------------------------------------------------

/// A whole PAL frame of clocks (312 lines of 63 cycles) brings the raster
/// back to the same line and cycle, and on the way it passes every line, so
/// the raster-compare source latches whenever the compare line exists.
pub proof fn law_frame_wraps(v: Vic)
    requires
        v.raster < 312,
        v.line_cycles < 63,
    ensures
        spec_vic_tick(v, 19656u64).raster == v.raster,
        spec_vic_tick(v, 19656u64).line_cycles == v.line_cycles,
        v.raster_compare < 312 ==> spec_vic_tick(v, 19656u64).irq_latch & 1 != 0,
{
    let total = v.line_cycles + 312 * 63;
    vstd::arithmetic::div_mod::lemma_fundamental_div_mod_converse(total, 63, 312, v.line_cycles as int);
    vstd::arithmetic::div_mod::lemma_fundamental_div_mod_converse(v.raster + 312, 312, 1, v.raster as int);
    if v.raster_compare < 312 {
        let target: int = v.raster_compare as int;
        let j: int = if target > v.raster { target - v.raster } else { target + 312 - v.raster };
        if target > v.raster {
            vstd::arithmetic::div_mod::lemma_fundamental_div_mod_converse(v.raster + j, 312, 0, target);
        } else {
            vstd::arithmetic::div_mod::lemma_fundamental_div_mod_converse(v.raster + j, 312, 1, target);
        }
        assert(compare_hit(v.raster, 312, v.raster_compare));
        let l = v.irq_latch;
        assert((l | 1) & 1 != 0) by (bit_vector);
    }
}


/// Register reads as the VIC presents them: registers mirror every 64 bytes
/// across $D000-$D3FF; $D012 reads the raster line's low byte and bit 7 of
/// $D011 its bit 8; $D019 reads the unused bits 4-6 as 1 and bit 7 set
/// exactly while the IRQ line is asserted; $D01A reads its unused high
/// nybble as 1; the unconnected registers $2F-$3F read $FF.
pub proof fn law_register_reads(v: Vic, addr: u16)
    requires
        v.wf(),
    ensures
        ({
            let r = addr % 64;
            let x = spec_vic_read(v, addr);
            &&& x == spec_vic_read(v, (0xD000 + r) as u16)
            &&& (r == 0x12 ==> x == v.raster % 256)
            &&& (r == 0x11 ==> ((x & 0x80) != 0) == (v.raster >= 256))
            &&& (r == 0x19 ==> x & 0x70 == 0x70 && ((x & 0x80) != 0) == vic_irq(v))
            &&& (r == 0x1A ==> x & 0xF0 == 0xF0)
            &&& (r >= 0x2F ==> x == 0xFF)
        }),
{
    let l = v.irq_latch;
    let e = v.irq_enable;
    let g = v.regs[0x11];
    assert(l < 16 ==> ((l | 0x70 | 0x80) & 0x70 == 0x70 && (l | 0x70 | 0x80) & 0x80 != 0 && (l | 0x70) & 0x70
        == 0x70 && (l | 0x70) & 0x80 == 0) && (e | 0xF0) & 0xF0 == 0xF0 && ((g & 0x7F) | 0x80u8) & 0x80 != 0 && ((g
        & 0x7F) | 0u8) & 0x80 == 0) by (bit_vector);
}

} // verus!
