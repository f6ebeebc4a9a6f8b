//! MOS 6526 CIA (Complex Interface Adapter).
//!
//! The C64 has two: CIA #1 at `$DC00` (keyboard/joystick; its IRQ line drives
//! the CPU IRQ) and CIA #2 at `$DD00` (serial bus, VIC bank select, user port;
//! its IRQ line drives the CPU NMI).
//!
//! Modelled: both 16-bit timers counting phi2 clocks (continuous and one-shot,
//! force-load), the interrupt control register, the data ports with their
//! direction registers, a keyboard matrix on port B, and joystick lines.
//! Timer B chaining, the serial shift register and the TOD clock are stored
//! but not clocked.
use vstd::prelude::*;

verus! {

/// Register offsets within a CIA's 16-byte block.
pub const REG_PRA: u8 = 0x0;
pub const REG_PRB: u8 = 0x1;
pub const REG_DDRA: u8 = 0x2;
pub const REG_DDRB: u8 = 0x3;
pub const REG_TA_LO: u8 = 0x4;
pub const REG_TA_HI: u8 = 0x5;
pub const REG_TB_LO: u8 = 0x6;
pub const REG_TB_HI: u8 = 0x7;
pub const REG_TOD_10TH: u8 = 0x8;
pub const REG_TOD_SEC: u8 = 0x9;
pub const REG_TOD_MIN: u8 = 0xA;
pub const REG_TOD_HR: u8 = 0xB;
pub const REG_SDR: u8 = 0xC;
pub const REG_ICR: u8 = 0xD;
pub const REG_CRA: u8 = 0xE;
pub const REG_CRB: u8 = 0xF;

/// Interrupt sources in the ICR.
pub const ICR_TA: u8 = 0x01;
pub const ICR_TB: u8 = 0x02;
/// Set in a read of the ICR when an enabled interrupt has occurred.
pub const ICR_IRQ: u8 = 0x80;

/// Control-register bits.
pub const CR_START: u8 = 0x01;
pub const CR_ONESHOT: u8 = 0x08;
/// Strobe: load the latch into the counter.
pub const CR_FORCELOAD: u8 = 0x10;
/// Timer A input mode: 0 counts phi2 clocks.
pub const CRA_INMODE: u8 = 0x20;

pub struct Cia {
    /// Data ports and their direction registers.
    pub pra: u8,
    pub prb: u8,
    pub ddra: u8,
    pub ddrb: u8,
    /// Timer counters and their reload latches.
    pub timer_a: u16,
    pub timer_b: u16,
    pub latch_a: u16,
    pub latch_b: u16,
    /// Control registers.
    pub cra: u8,
    pub crb: u8,
    /// Interrupt sources that have fired (latched) and those that are enabled.
    pub icr_data: u8,
    pub icr_mask: u8,
    pub irq_line: bool,
    /// Serial data register and time-of-day registers (stored only).
    pub sdr: u8,
    pub tod: [u8; 4],
    /// When true, port B reads the keyboard matrix selected by port A (CIA #1).
    /// `keyboard[col]` holds the 8 row bits of that column; a 0 bit means the
    /// key in that row is pressed.
    pub keyboard_enabled: bool,
    pub keyboard: [u8; 8],
    /// Joystick lines, active low (bit clear = pressed). `joy_a` overlays port A
    /// (control port 2), `joy_b` port B (control port 1). Bits: 0 up, 1 down,
    /// 2 left, 3 right, 4 fire. $FF = nothing pressed.
    pub joy_a: u8,
    pub joy_b: u8,
}

/// The IRQ line follows the latched sources that are enabled.
pub open spec fn irq_of(icr_data: u8, icr_mask: u8) -> bool {
    icr_data & icr_mask & 0x7F != 0
}

/// The CIA's power-on state (keyboard scanning off).
pub open spec fn spec_cia_new() -> Cia {
    Cia {
        pra: 0xFF,
        prb: 0xFF,
        ddra: 0,
        ddrb: 0,
        timer_a: 0xFFFF,
        timer_b: 0xFFFF,
        latch_a: 0xFFFF,
        latch_b: 0xFFFF,
        cra: 0,
        crb: 0,
        icr_data: 0,
        icr_mask: 0,
        irq_line: false,
        sdr: 0,
        tod: vstd::array::spec_array_fill_for_copy_type::<u8, 4>(0u8),
        keyboard_enabled: false,
        keyboard: vstd::array::spec_array_fill_for_copy_type::<u8, 8>(0xFFu8),
        joy_a: 0xFF,
        joy_b: 0xFF,
    }
}

/// Port B as the keyboard matrix: the AND of the row bytes of the first `n`
/// columns whose port-A select bit is driven low.
pub open spec fn matrix_rows(pra: u8, keyboard: Seq<u8>, n: int) -> u8
    decreases n,
{
    if n <= 0 {
        0xFF
    } else {
        let r = matrix_rows(pra, keyboard, n - 1);
        if pra & (1u8 << (n - 1) as u8) == 0 {
            r & keyboard[n - 1]
        } else {
            r
        }
    }
}

/// What reading register `offset` (low 4 bits) returns, and the CIA after.
/// Only the ICR read has a side effect: it clears the latched sources and the
/// IRQ line.
pub open spec fn spec_cia_read(c: Cia, offset: u8) -> (Cia, u8) {
    let r = offset % 16;
    if r == 0xD {
        (
            Cia { icr_data: 0, irq_line: false, ..c },
            if c.irq_line {
                (c.icr_data & 0x7F) | ICR_IRQ
            } else {
                c.icr_data & 0x7F
            },
        )
    } else {
        let v = if r == 0 {
            // Output bits read their latch, inputs float high; the joystick can
            // only pull lines low.
            (c.pra | !c.ddra) & c.joy_a
        } else if r == 1 {
            (if c.keyboard_enabled {
                matrix_rows(c.pra, c.keyboard@, 8)
            } else {
                c.prb | !c.ddrb
            }) & c.joy_b
        } else if r == 2 {
            c.ddra
        } else if r == 3 {
            c.ddrb
        } else if r == 4 {
            (c.timer_a % 256) as u8
        } else if r == 5 {
            (c.timer_a / 256) as u8
        } else if r == 6 {
            (c.timer_b % 256) as u8
        } else if r == 7 {
            (c.timer_b / 256) as u8
        } else if 8 <= r <= 11 {
            c.tod[r - 8]
        } else if r == 0xC {
            c.sdr
        } else if r == 0xE {
            c.cra
        } else {
            c.crb
        };
        (c, v)
    }
}

/// The CIA after writing `value` to register `offset` (low 4 bits).
pub open spec fn spec_cia_write(c: Cia, offset: u8, value: u8) -> Cia {
    let r = offset % 16;
    if r == 0 {
        Cia { pra: value, ..c }
    } else if r == 1 {
        Cia { prb: value, ..c }
    } else if r == 2 {
        Cia { ddra: value, ..c }
    } else if r == 3 {
        Cia { ddrb: value, ..c }
    } else if r == 4 {
        Cia { latch_a: ((c.latch_a / 256) * 256 + value) as u16, ..c }
    } else if r == 5 {
        // Writing the high byte while the timer is stopped also loads the counter.
        let latch = (value * 256 + c.latch_a % 256) as u16;
        Cia {
            latch_a: latch,
            timer_a: if c.cra & CR_START == 0 { latch } else { c.timer_a },
            ..c
        }
    } else if r == 6 {
        Cia { latch_b: ((c.latch_b / 256) * 256 + value) as u16, ..c }
    } else if r == 7 {
        let latch = (value * 256 + c.latch_b % 256) as u16;
        Cia {
            latch_b: latch,
            timer_b: if c.crb & CR_START == 0 { latch } else { c.timer_b },
            ..c
        }
    } else if 8 <= r <= 11 {
        Cia { tod: vstd::array::spec_array_update(c.tod, r - 8, value), ..c }
    } else if r == 0xC {
        Cia { sdr: value, ..c }
    } else if r == 0xD {
        // Bit 7 set: the low bits name mask bits to set; clear: to clear.
        let mask = if value & 0x80 != 0 {
            c.icr_mask | (value & 0x7F)
        } else {
            c.icr_mask & !(value & 0x7F)
        };
        Cia { icr_mask: mask, irq_line: irq_of(c.icr_data, mask), ..c }
    } else if r == 0xE {
        Cia {
            timer_a: if value & CR_FORCELOAD != 0 { c.latch_a } else { c.timer_a },
            cra: value & !CR_FORCELOAD,
            ..c
        }
    } else {
        Cia {
            timer_b: if value & CR_FORCELOAD != 0 { c.latch_b } else { c.timer_b },
            crb: value & !CR_FORCELOAD,
            ..c
        }
    }
}

/// One phi2 clock: a running timer counts down; at zero it reloads from its
/// latch, latches its interrupt source, and a one-shot timer stops. Timer A
/// counts only in phi2 input mode. The IRQ line is then recomputed.
pub open spec fn spec_tick_one(c: Cia) -> Cia {
    let c1 = if c.cra & CR_START != 0 && c.cra & CRA_INMODE == 0 {
        if c.timer_a == 0 {
            Cia {
                timer_a: c.latch_a,
                icr_data: c.icr_data | ICR_TA,
                cra: if c.cra & CR_ONESHOT != 0 { c.cra & !CR_START } else { c.cra },
                ..c
            }
        } else {
            Cia { timer_a: (c.timer_a - 1) as u16, ..c }
        }
    } else {
        c
    };
    let c2 = if c1.crb & CR_START != 0 {
        if c1.timer_b == 0 {
            Cia {
                timer_b: c1.latch_b,
                icr_data: c1.icr_data | ICR_TB,
                crb: if c1.crb & CR_ONESHOT != 0 { c1.crb & !CR_START } else { c1.crb },
                ..c1
            }
        } else {
            Cia { timer_b: (c1.timer_b - 1) as u16, ..c1 }
        }
    } else {
        c1
    };
    Cia { irq_line: irq_of(c2.icr_data, c2.icr_mask), ..c2 }
}

/// `n` phi2 clocks.
pub open spec fn spec_tick_n(c: Cia, n: nat) -> Cia
    decreases n,
{
    if n == 0 {
        c
    } else {
        spec_tick_one(spec_tick_n(c, (n - 1) as nat))
    }
}

impl Default for Cia {
    fn default() -> (c: Cia)
        ensures
            c == spec_cia_new(),
            c.inv(),
    {
        Cia::new()
    }
}

impl Cia {
    /// The IRQ line always equals "some enabled source has latched".
    pub open spec fn inv(&self) -> bool {
        self.irq_line == irq_of(self.icr_data, self.icr_mask)
    }

    /// A CIA in its power-on state.
    pub fn new() -> (c: Cia)
        ensures
            c == spec_cia_new(),
            c.inv(),
    {
        let c = Cia {
            pra: 0xFF,
            prb: 0xFF,
            ddra: 0,
            ddrb: 0,
            timer_a: 0xFFFF,
            timer_b: 0xFFFF,
            latch_a: 0xFFFF,
            latch_b: 0xFFFF,
            cra: 0,
            crb: 0,
            icr_data: 0,
            icr_mask: 0,
            irq_line: false,
            sdr: 0,
            tod: [0u8; 4],
            keyboard_enabled: false,
            keyboard: [0xFFu8; 8],
            joy_a: 0xFF,
            joy_b: 0xFF,
        };
        assert(0u8 & 0u8 & 0x7Fu8 == 0) by (bit_vector);
        c
    }

    /// CIA #1: keyboard scanning on port B enabled.
    pub fn cia1() -> (c: Cia)
        ensures
            c == (Cia { keyboard_enabled: true, ..spec_cia_new() }),
            c.inv(),
    {
        let mut c = Self::new();
        c.keyboard_enabled = true;
        c
    }

    /// Current state of the IRQ output line (high = asserted).
    pub fn irq(&self) -> (r: bool)
        ensures
            r == self.irq_line,
    {
        self.irq_line
    }

    fn recompute_irq(&mut self)
        ensures
            *final(self) == (Cia { irq_line: irq_of(old(self).icr_data, old(self).icr_mask), ..*old(self) }),
    {
        self.irq_line = self.icr_data & self.icr_mask & 0x7F != 0;
    }

    /// Port B in keyboard mode: AND together the matrix columns selected
    /// (driven low) by port A. Bits with no selected column read high.
    fn read_keyboard_portb(&self) -> (r: u8)
        ensures
            r == matrix_rows(self.pra, self.keyboard@, 8),
    {
        let mut result = 0xFFu8;
        let mut col: usize = 0;
        while col < 8
            invariant
                col <= 8,
                result == matrix_rows(self.pra, self.keyboard@, col as int),
            decreases 8 - col,
        {
            if self.pra & (1u8 << col as u8) == 0 {
                result = result & self.keyboard[col];
            }
            col = col + 1;
        }
        result
    }

    /// Read register `offset` (only the low 4 bits matter).
    #[verifier::spinoff_prover]
    pub fn read(&mut self, offset: u8) -> (v: u8)
        ensures
            (*final(self), v) == spec_cia_read(*old(self), offset),
            old(self).inv() ==> final(self).inv(),
    {
        let r = offset & 0x0F;
        proof {
            crate::bits::lemma_byte_masks();
        }
        match r {
            0x0 => (self.pra | !self.ddra) & self.joy_a,
            0x1 => {
                let base = if self.keyboard_enabled {
                    self.read_keyboard_portb()
                } else {
                    self.prb | !self.ddrb
                };
                base & self.joy_b
            },
            0x2 => self.ddra,
            0x3 => self.ddrb,
            0x4 => (self.timer_a % 256) as u8,
            0x5 => (self.timer_a / 256) as u8,
            0x6 => (self.timer_b % 256) as u8,
            0x7 => (self.timer_b / 256) as u8,
            0x8 => self.tod[0],
            0x9 => self.tod[1],
            0xA => self.tod[2],
            0xB => self.tod[3],
            0xC => self.sdr,
            0xD => {
                // Reading the ICR returns the latched sources (bit 7 = IRQ
                // asserted) and clears them, deasserting the line.
                let mut v = self.icr_data & 0x7F;
                if self.irq_line {
                    v = v | ICR_IRQ;
                }
                self.icr_data = 0;
                self.irq_line = false;
                let m = self.icr_mask;
                assert(0u8 & m & 0x7F == 0) by (bit_vector);
                v
            },
            0xE => self.cra,
            _ => self.crb,
        }
    }

    /// Write `value` to register `offset` (only the low 4 bits matter).
    #[verifier::spinoff_prover]
    pub fn write(&mut self, offset: u8, value: u8)
        ensures
            *final(self) == spec_cia_write(*old(self), offset, value),
            old(self).inv() ==> final(self).inv(),
    {
        let r = offset & 0x0F;
        proof {
            crate::bits::lemma_byte_masks();
        }
        match r {
            0x0 => self.pra = value,
            0x1 => self.prb = value,
            0x2 => self.ddra = value,
            0x3 => self.ddrb = value,
            0x4 => self.latch_a = (self.latch_a / 256) * 256 + value as u16,
            0x5 => {
                self.latch_a = (value as u16) * 256 + self.latch_a % 256;
                // Writing the high byte while the timer is stopped also loads
                // the counter.
                if self.cra & CR_START == 0 {
                    self.timer_a = self.latch_a;
                }
            },
            0x6 => self.latch_b = (self.latch_b / 256) * 256 + value as u16,
            0x7 => {
                self.latch_b = (value as u16) * 256 + self.latch_b % 256;
                if self.crb & CR_START == 0 {
                    self.timer_b = self.latch_b;
                }
            },
            0x8 => self.tod[0] = value,
            0x9 => self.tod[1] = value,
            0xA => self.tod[2] = value,
            0xB => self.tod[3] = value,
            0xC => self.sdr = value,
            0xD => {
                // Bit 7 = set/clear; the low bits select which mask bits change.
                if value & 0x80 != 0 {
                    self.icr_mask = self.icr_mask | (value & 0x7F);
                } else {
                    self.icr_mask = self.icr_mask & !(value & 0x7F);
                }
                self.recompute_irq();
            },
            0xE => {
                if value & CR_FORCELOAD != 0 {
                    self.timer_a = self.latch_a;
                }
                self.cra = value & !CR_FORCELOAD;  // the force-load bit is a strobe
            },
            _ => {
                if value & CR_FORCELOAD != 0 {
                    self.timer_b = self.latch_b;
                }
                self.crb = value & !CR_FORCELOAD;
            },
        }
    }

    /// Advance the timers by `cycles` phi2 clocks. Returns the IRQ line state.
    pub fn tick(&mut self, cycles: u64) -> (irq: bool)
        ensures
            *final(self) == spec_tick_n(*old(self), cycles as nat),
            irq == final(self).irq_line,
            old(self).inv() ==> final(self).inv(),
    {
        let mut i: u64 = 0;
        while i < cycles
            invariant
                i <= cycles,
                *self == spec_tick_n(*old(self), i as nat),
                old(self).inv() ==> self.inv(),
            decreases cycles - i,
        {
            self.tick_one();
            i = i + 1;
        }
        self.irq_line
    }

    fn tick_one(&mut self)
        ensures
            *final(self) == spec_tick_one(*old(self)),
            final(self).inv(),
    {
        // Timer A: count phi2 when started and in phi2 input mode.
        if self.cra & CR_START != 0 && self.cra & CRA_INMODE == 0 {
            if self.timer_a == 0 {
                self.timer_a = self.latch_a;
                self.icr_data = self.icr_data | ICR_TA;
                if self.cra & CR_ONESHOT != 0 {
                    self.cra = self.cra & !CR_START;
                }
            } else {
                self.timer_a = self.timer_a - 1;
            }
        }
        // Timer B: phi2 mode only (chaining to Timer A underflows is not modelled).
        if self.crb & CR_START != 0 {
            if self.timer_b == 0 {
                self.timer_b = self.latch_b;
                self.icr_data = self.icr_data | ICR_TB;
                if self.crb & CR_ONESHOT != 0 {
                    self.crb = self.crb & !CR_START;
                }
            } else {
                self.timer_b = self.timer_b - 1;
            }
        }
        self.recompute_irq();
    }
}


// ---------------------------------------------------------------------------
// Laws
// ---------------------------------------------------------------------------

/// Reading the ICR acknowledges the interrupt: the read reports the latched
/// sources (bit 7 when the IRQ line was asserted), and a second read right
/// after reports nothing, with the IRQ line released.
pub proof fn law_icr_read_acknowledges(c: Cia)
    ensures
        ({
            let (c1, v1) = spec_cia_read(c, REG_ICR);
            let (c2, v2) = spec_cia_read(c1, REG_ICR);
            &&& v1 & 0x7F == c.icr_data & 0x7F
            &&& (v1 & ICR_IRQ != 0) == c.irq_line
            &&& !c1.irq_line
            &&& c1.icr_data == 0
            &&& c1.inv()
            &&& v2 == 0
        }),
{
    let d = c.icr_data;
    let m = c.icr_mask;
    assert(((d & 0x7F) | 0x80) & 0x7F == d & 0x7F && ((d & 0x7F) | 0x80) & 0x80 != 0 && (d & 0x7F) & 0x80 == 0
        && (d & 0x7F) & 0x7F == d & 0x7F && 0u8 & 0x7F == 0 && 0u8 & m & 0x7F == 0)
        by (bit_vector);
}

/// While timer A runs and has not reached zero, each clock takes one off it
/// and leaves its control, latch and enable mask alone.
proof fn lemma_timer_a_runs(c: Cia, k: nat)
    requires
        c.cra & CR_START != 0,
        c.cra & CRA_INMODE == 0,
        k <= c.timer_a,
    ensures
        spec_tick_n(c, k).timer_a == c.timer_a - k,
        spec_tick_n(c, k).cra == c.cra,
        spec_tick_n(c, k).latch_a == c.latch_a,
        spec_tick_n(c, k).icr_mask == c.icr_mask,
    decreases k,
{
    if k > 0 {
        lemma_timer_a_runs(c, (k - 1) as nat);
    }
}

/// A running timer A (counting phi2 clocks) that holds `t` counts down one
/// per clock and underflows on clock `t + 1`: it reloads from its latch,
/// latches its interrupt source (asserting IRQ when that source is enabled),
/// and a one-shot timer stops while a continuous one keeps running.
pub proof fn law_timer_a_underflow(c: Cia)
    requires
        c.cra & CR_START != 0,
        c.cra & CRA_INMODE == 0,
    ensures
        forall|k: nat| k <= c.timer_a ==> #[trigger] spec_tick_n(c, k).timer_a == c.timer_a - k,
        ({
            let d = spec_tick_n(c, (c.timer_a + 1) as nat);
            &&& d.timer_a == c.latch_a
            &&& d.icr_data & ICR_TA != 0
            &&& (c.icr_mask & ICR_TA != 0 ==> d.irq_line)
            &&& (c.cra & CR_ONESHOT != 0 ==> d.cra & CR_START == 0)
            &&& (c.cra & CR_ONESHOT == 0 ==> d.cra == c.cra)
        }),
{
    assert forall|k: nat| k <= c.timer_a implies #[trigger] spec_tick_n(c, k).timer_a == c.timer_a - k by {
        lemma_timer_a_runs(c, k);
    }
    let t = c.timer_a as nat;
    lemma_timer_a_runs(c, t);
    let p = spec_tick_n(c, t);
    let cra = c.cra;
    let x = p.icr_data;
    let m = c.icr_mask;
    assert((cra & !CR_START) & CR_START == 0 && (x | ICR_TA) & ICR_TA != 0 && (forall|y: u8|
        #[trigger] ((y | ICR_TB) & ICR_TA) == ((y & ICR_TA) | (ICR_TB & ICR_TA))) && (forall|y: u8|
        y & ICR_TA != 0 ==> #[trigger] ((y | ICR_TB) & ICR_TA) != 0) && (forall|y: u8|
        y & ICR_TA != 0 && m & ICR_TA != 0 ==> #[trigger] (y & m & 0x7F) != 0)) by (bit_vector);
}

/// With keyboard scanning on, no joystick on port B, and only column `col`
/// selected (its port-A bit low, the others high), port B reads that
/// column's row byte: a pressed key reads as a 0 in its row bit.
pub proof fn law_keyboard_column(c: Cia, col: u8)
    requires
        c.keyboard_enabled,
        c.joy_b == 0xFF,
        col < 8,
        c.pra == !(1u8 << col),
    ensures
        spec_cia_read(c, REG_PRB).1 == c.keyboard[col as int],
{
    reveal_with_fuel(matrix_rows, 9);
    let pra = c.pra;
    let kb = c.keyboard@;
    assert(forall|j: u8| j < 8 ==> ((pra & (1u8 << j) == 0) <==> j == col)) by (bit_vector)
        requires
            pra == !(1u8 << col),
            col < 8,
    ;
    assert(pra & (1u8 << 0u8) == 0 <==> col == 0);
    assert(pra & (1u8 << 1u8) == 0 <==> col == 1);
    assert(pra & (1u8 << 2u8) == 0 <==> col == 2);
    assert(pra & (1u8 << 3u8) == 0 <==> col == 3);
    assert(pra & (1u8 << 4u8) == 0 <==> col == 4);
    assert(pra & (1u8 << 5u8) == 0 <==> col == 5);
    assert(pra & (1u8 << 6u8) == 0 <==> col == 6);
    assert(pra & (1u8 << 7u8) == 0 <==> col == 7);
    let r = kb[col as int];
    assert(0xFFu8 & r == r && r & 0xFF == r) by (bit_vector);
    vstd::array::lemma_array_index(c.keyboard, col as int);
}

/// Port B bit `row` of the first `n` columns' matrix reads 0 exactly when
/// some selected column below `n` has that row bit 0.
proof fn lemma_matrix_row_bit(pra: u8, kb: Seq<u8>, n: int, row: u8)
    requires
        0 <= n <= 8,
        row < 8,
    ensures
        (matrix_rows(pra, kb, n) & (1u8 << row) == 0) <==> exists|col: u8|
            col < n && #[trigger] (pra & (1u8 << col)) == 0 && kb[col as int] & (1u8 << row) == 0,
    decreases n,
{
    crate::bits::lemma_bit_tests();
    if n > 0 {
        lemma_matrix_row_bit(pra, kb, n - 1, row);
        let j = (n - 1) as u8;
        assert(j as int == n - 1);
        if pra & (1u8 << j) == 0 && kb[n - 1] & (1u8 << row) == 0 {
            assert(j < n && pra & (1u8 << j) == 0 && kb[j as int] & (1u8 << row) == 0);
        }
        if exists|col: u8| col < n && #[trigger] (pra & (1u8 << col)) == 0 && kb[col as int] & (1u8 << row) == 0 {
            let col = choose|col: u8|
                col < n && #[trigger] (pra & (1u8 << col)) == 0 && kb[col as int] & (1u8 << row) == 0;
            if col < n - 1 {
                assert(col < n - 1 && pra & (1u8 << col) == 0 && kb[col as int] & (1u8 << row) == 0);
            } else {
                assert(col == j);
            }
        }
    }
}

/// With keyboard scanning on and no joystick on port B, port B is the AND of
/// the row bytes of every column selected (driven low) on port A: row bit
/// `row` reads 0 exactly when some selected column has a key pressed in that
/// row, so several columns can be scanned at once, and with no column
/// selected port B reads $FF.
pub proof fn law_keyboard_rows(c: Cia, row: u8)
    requires
        c.keyboard_enabled,
        c.joy_b == 0xFF,
        row < 8,
    ensures
        (spec_cia_read(c, REG_PRB).1 & (1u8 << row) == 0) <==> exists|col: u8|
            col < 8 && #[trigger] (c.pra & (1u8 << col)) == 0 && c.keyboard[col as int] & (1u8 << row) == 0,
        c.pra == 0xFF ==> spec_cia_read(c, REG_PRB).1 == 0xFF,
{
    crate::bits::lemma_bit_tests();
    lemma_matrix_row_bit(c.pra, c.keyboard@, 8, row);
    let m = matrix_rows(c.pra, c.keyboard@, 8);
    assert(spec_cia_read(c, REG_PRB).1 == m & 0xFF);
    assert forall|col: u8| col < 8 implies #[trigger] c.keyboard[col as int] == c.keyboard@[col as int] by {
        vstd::array::lemma_array_index(c.keyboard, col as int);
    }
    if c.pra == 0xFF {
        reveal_with_fuel(matrix_rows, 9);
        assert(0xFFu8 & (1u8 << 0u8) != 0);
        assert(0xFFu8 & (1u8 << 1u8) != 0);
        assert(0xFFu8 & (1u8 << 2u8) != 0);
        assert(0xFFu8 & (1u8 << 3u8) != 0);
        assert(0xFFu8 & (1u8 << 4u8) != 0);
        assert(0xFFu8 & (1u8 << 5u8) != 0);
        assert(0xFFu8 & (1u8 << 6u8) != 0);
        assert(0xFFu8 & (1u8 << 7u8) != 0);
    }
}

} // verus!
