//! MOS 6510 CPU core.
//!
//! The documented NMOS 6502 instruction set (the 6510 is a 6502 with an added
//! I/O port, handled by the bus), including decimal mode, page-cross and
//! taken-branch cycle penalties, and NMI/IRQ servicing. Undocumented opcodes
//! behave as NOPs of the appropriate length and cycle count.
//!
//! The behaviour of one instruction step is stated by `spec_step`, which threads
//! the bus state through every read and write in the order the CPU makes them.
use vstd::prelude::*;
use crate::bus::{Bus, FlatRam, w16, w8, bus_read_word, bus_read_word_bug};

verus! {

/// Status register flag bits.
pub const FLAG_CARRY: u8 = 0x01;
pub const FLAG_ZERO: u8 = 0x02;
pub const FLAG_IRQ_DISABLE: u8 = 0x04;
pub const FLAG_DECIMAL: u8 = 0x08;
pub const FLAG_BREAK: u8 = 0x10;
/// Always reads as 1.
pub const FLAG_UNUSED: u8 = 0x20;
pub const FLAG_OVERFLOW: u8 = 0x40;
pub const FLAG_NEGATIVE: u8 = 0x80;

/// Interrupt vector addresses.
pub const VEC_NMI: u16 = 0xFFFA;
pub const VEC_RESET: u16 = 0xFFFC;
pub const VEC_IRQ: u16 = 0xFFFE;

pub struct Cpu {
    pub a: u8,
    pub x: u8,
    pub y: u8,
    pub sp: u8,
    pub pc: u16,
    pub status: u8,
    /// Total cycles elapsed since reset.
    pub cycles: u64,
    /// Pending interrupt lines.
    pub irq_pending: bool,
    pub nmi_pending: bool,
    /// NMI line level seen at the previous step, for edge detection.
    pub prev_nmi: bool,
}

// ---------------------------------------------------------------------------
// Flag and state specifications
// ---------------------------------------------------------------------------

/// `s` with the bits of `mask` set (`on`) or cleared.
pub open spec fn set_bit(s: u8, mask: u8, on: bool) -> u8 {
    if on {
        s | mask
    } else {
        s & !mask
    }
}

/// True when any bit of `mask` is set in `s`.
pub open spec fn has_bit(s: u8, mask: u8) -> bool {
    s & mask != 0
}

/// Status `s` with Z and N describing the value `v`.
pub open spec fn zn(s: u8, v: u8) -> u8 {
    set_bit(set_bit(s, FLAG_ZERO, v == 0), FLAG_NEGATIVE, v >= 0x80)
}

/// The register state at power-on.
pub open spec fn spec_power_on() -> Cpu {
    Cpu {
        a: 0,
        x: 0,
        y: 0,
        sp: 0xFD,
        pc: 0,
        status: FLAG_IRQ_DISABLE | FLAG_UNUSED,
        cycles: 0,
        irq_pending: false,
        nmi_pending: false,
        prev_nmi: false,
    }
}

/// Push `v` at `$0100 + sp`, then decrement sp.
pub open spec fn spec_push<B: Bus>(c: Cpu, b: B, v: u8) -> (Cpu, B) {
    (Cpu { sp: w8(c.sp - 1), ..c }, b.write_spec((0x0100 + c.sp) as u16, v))
}

/// Increment sp, then read `$0100 + sp`.
pub open spec fn spec_pop<B: Bus>(c: Cpu, b: B) -> (Cpu, B, u8) {
    let sp = w8(c.sp + 1);
    let (b1, v) = b.read_spec((0x0100 + sp) as u16);
    (Cpu { sp: sp, ..c }, b1, v)
}

/// Push the high byte, then the low byte.
pub open spec fn spec_push_word<B: Bus>(c: Cpu, b: B, v: u16) -> (Cpu, B) {
    let (c1, b1) = spec_push(c, b, (v / 256) as u8);
    spec_push(c1, b1, (v % 256) as u8)
}

/// Pop the low byte, then the high byte.
pub open spec fn spec_pop_word<B: Bus>(c: Cpu, b: B) -> (Cpu, B, u16) {
    let (c1, b1, lo) = spec_pop(c, b);
    let (c2, b2, hi) = spec_pop(c1, b1);
    (c2, b2, (hi * 256 + lo) as u16)
}

/// Read the byte at pc and advance pc.
pub open spec fn spec_fetch<B: Bus>(c: Cpu, b: B) -> (Cpu, B, u8) {
    let (b1, v) = b.read_spec(c.pc);
    (Cpu { pc: w16(c.pc + 1), ..c }, b1, v)
}

/// Two fetches, combined little-endian.
pub open spec fn spec_fetch_word<B: Bus>(c: Cpu, b: B) -> (Cpu, B, u16) {
    let (c1, b1, lo) = spec_fetch(c, b);
    let (c2, b2, hi) = spec_fetch(c1, b1);
    (c2, b2, (hi * 256 + lo) as u16)
}

/// Hardware interrupt entry: push pc and the status (B clear, bit 5 set), set
/// I, load pc from `vector`; 7 cycles.
pub open spec fn spec_interrupt<B: Bus>(c: Cpu, b: B, vector: u16) -> (Cpu, B) {
    let (c1, b1) = spec_push_word(c, b, c.pc);
    let (c2, b2) = spec_push(c1, b1, (c.status & !FLAG_BREAK) | FLAG_UNUSED);
    let (b3, pc) = bus_read_word(b2, vector);
    (
        Cpu {
            pc: pc,
            status: set_bit(c2.status, FLAG_IRQ_DISABLE, true),
            cycles: (c2.cycles + 7) as u64,
            ..c2
        },
        b3,
    )
}

/// Reset: sp = $FD, status = I | bit 5, pc from the reset vector; the cycle
/// count restarts at the 7 cycles the reset sequence takes.
pub open spec fn spec_reset<B: Bus>(c: Cpu, b: B) -> (Cpu, B) {
    let (b1, pc) = bus_read_word(b, VEC_RESET);
    (
        Cpu {
            sp: 0xFD,
            status: FLAG_IRQ_DISABLE | FLAG_UNUSED,
            pc: pc,
            cycles: 7,
            ..c
        },
        b1,
    )
}

proof fn lemma_stack_addr(sp: u8)
    ensures
        0x0100u16 | (sp as u16) == (0x0100 + sp) as u16,
{
    assert(0x0100u16 | (sp as u16) == 0x0100u16 + (sp as u16)) by (bit_vector);
}

proof fn lemma_word_bytes(v: u16)
    ensures
        (v >> 8) as u8 == (v / 256) as u8,
        (v & 0xFF) as u8 == (v % 256) as u8,
{
    crate::bits::lemma_word_masks();
    assert(v >> 8u16 == v / 256);
    assert(v & 0xFF == v % 256);
}

impl Default for Cpu {
    fn default() -> (c: Cpu)
        ensures
            c == spec_power_on(),
    {
        Cpu::new()
    }
}

impl Cpu {
    /// A CPU in its power-on state.
    pub fn new() -> (c: Cpu)
        ensures
            c == spec_power_on(),
    {
        Cpu {
            a: 0,
            x: 0,
            y: 0,
            sp: 0xFD,
            pc: 0,
            status: FLAG_IRQ_DISABLE | FLAG_UNUSED,
            cycles: 0,
            irq_pending: false,
            nmi_pending: false,
            prev_nmi: false,
        }
    }

    /// Set (`on`) or clear the status bits of `mask`.
    pub fn set_flag(&mut self, mask: u8, on: bool)
        ensures
            *final(self) == (Cpu { status: set_bit(old(self).status, mask, on), ..*old(self) }),
    {
        if on {
            self.status = self.status | mask;
        } else {
            self.status = self.status & !mask;
        }
    }

    /// True when any status bit of `mask` is set.
    pub fn get_flag(&self, mask: u8) -> (r: bool)
        ensures
            r == has_bit(self.status, mask),
    {
        self.status & mask != 0
    }

    fn set_zn(&mut self, v: u8)
        ensures
            *final(self) == (Cpu { status: zn(old(self).status, v), ..*old(self) }),
    {
        assert((v & 0x80 != 0) == (v >= 0x80)) by (bit_vector);
        self.set_flag(FLAG_ZERO, v == 0);
        self.set_flag(FLAG_NEGATIVE, v & 0x80 != 0);
    }

    fn push<B: Bus>(&mut self, bus: &mut B, v: u8)
        ensures
            old(bus).inv() ==> final(bus).inv(),
            (*final(self), *final(bus)) == spec_push(*old(self), *old(bus), v),
    {
        proof {
            lemma_stack_addr(self.sp);
        }
        bus.write(0x0100 | self.sp as u16, v);
        self.sp = self.sp.wrapping_sub(1);
    }

    fn pop<B: Bus>(&mut self, bus: &mut B) -> (v: u8)
        ensures
            old(bus).inv() ==> final(bus).inv(),
            (*final(self), *final(bus), v) == spec_pop(*old(self), *old(bus)),
    {
        self.sp = self.sp.wrapping_add(1);
        proof {
            lemma_stack_addr(self.sp);
        }
        bus.read(0x0100 | self.sp as u16)
    }

    fn push_word<B: Bus>(&mut self, bus: &mut B, v: u16)
        ensures
            old(bus).inv() ==> final(bus).inv(),
            (*final(self), *final(bus)) == spec_push_word(*old(self), *old(bus), v),
    {
        proof {
            lemma_word_bytes(v);
        }
        self.push(bus, (v >> 8) as u8);
        self.push(bus, (v & 0xFF) as u8);
    }

    fn pop_word<B: Bus>(&mut self, bus: &mut B) -> (v: u16)
        ensures
            old(bus).inv() ==> final(bus).inv(),
            (*final(self), *final(bus), v) == spec_pop_word(*old(self), *old(bus)),
    {
        let lo = self.pop(bus);
        let hi = self.pop(bus);
        proof {
            crate::bus::lemma_combine_bytes(hi, lo);
        }
        ((hi as u16) << 8) | (lo as u16)
    }

    fn fetch<B: Bus>(&mut self, bus: &mut B) -> (v: u8)
        ensures
            old(bus).inv() ==> final(bus).inv(),
            (*final(self), *final(bus), v) == spec_fetch(*old(self), *old(bus)),
    {
        let v = bus.read(self.pc);
        self.pc = self.pc.wrapping_add(1);
        v
    }

    fn fetch_word<B: Bus>(&mut self, bus: &mut B) -> (v: u16)
        ensures
            old(bus).inv() ==> final(bus).inv(),
            (*final(self), *final(bus), v) == spec_fetch_word(*old(self), *old(bus)),
    {
        let lo = self.fetch(bus);
        let hi = self.fetch(bus);
        proof {
            crate::bus::lemma_combine_bytes(hi, lo);
        }
        ((hi as u16) << 8) | (lo as u16)
    }

    /// Reset: load pc from the reset vector and set the documented register state.
    pub fn reset<B: Bus>(&mut self, bus: &mut B)
        ensures
            old(bus).inv() ==> final(bus).inv(),
            (*final(self), *final(bus)) == spec_reset(*old(self), *old(bus)),
    {
        self.sp = 0xFD;
        self.status = FLAG_IRQ_DISABLE | FLAG_UNUSED;
        self.pc = bus.read_word(VEC_RESET);
        self.cycles = 7;
    }

    /// Signal the NMI line. The 6502 NMI is edge-triggered.
    pub fn nmi(&mut self)
        ensures
            *final(self) == (Cpu { nmi_pending: true, ..*old(self) }),
    {
        self.nmi_pending = true;
    }

    /// Signal the IRQ line (level-triggered; honoured when I is clear).
    pub fn irq(&mut self)
        ensures
            *final(self) == (Cpu { irq_pending: true, ..*old(self) }),
    {
        self.irq_pending = true;
    }

    /// Push pc and status, set I, and jump through `vector`.
    fn service_interrupt<B: Bus>(&mut self, bus: &mut B, vector: u16)
        requires
            old(self).cycles + 7 <= u64::MAX,
        ensures
            old(bus).inv() ==> final(bus).inv(),
            (*final(self), *final(bus)) == spec_interrupt(*old(self), *old(bus), vector),
    {
        let pc = self.pc;
        self.push_word(bus, pc);
        let pushed = (self.status & !FLAG_BREAK) | FLAG_UNUSED;
        self.push(bus, pushed);
        self.set_flag(FLAG_IRQ_DISABLE, true);
        self.pc = bus.read_word(vector);
        self.cycles = self.cycles + 7;
    }
}


// ---------------------------------------------------------------------------
// ALU specifications
// ---------------------------------------------------------------------------

/// A byte read as a two's-complement signed value.
pub open spec fn sx(v: u8) -> int {
    if v >= 0x80 {
        v - 256
    } else {
        v as int
    }
}

/// The carry flag as 0 or 1.
pub open spec fn carry_in(s: u8) -> int {
    if has_bit(s, FLAG_CARRY) {
        1
    } else {
        0
    }
}

/// Binary ADC: A + v + C; C is the unsigned carry out, V the signed overflow.
pub open spec fn spec_adc_binary(c: Cpu, v: u8) -> Cpu {
    let cin = carry_in(c.status);
    let sum = c.a + v + cin;
    let ssum = sx(c.a) + sx(v) + cin;
    let r = w8(sum);
    let s1 = set_bit(c.status, FLAG_CARRY, sum > 255);
    let s2 = set_bit(s1, FLAG_OVERFLOW, ssum < -128 || ssum > 127);
    Cpu { a: r, status: zn(s2, r), ..c }
}

/// Decimal ADC as the NMOS 6502 computes it: digit-wise BCD addition with the
/// low digit adjusted first; Z comes from the binary sum, N and V from the high
/// digit before its adjustment.
pub open spec fn spec_adc_decimal(c: Cpu, v: u8) -> Cpu {
    let cin = carry_in(c.status);
    let lo0 = c.a % 16 + v % 16 + cin;
    let lo = if lo0 > 9 {
        lo0 + 6
    } else {
        lo0
    };
    let hi0 = c.a / 16 + v / 16 + (if lo0 > 9 {
        1int
    } else {
        0
    });
    let n = hi0 % 16 >= 8;
    let s1 = set_bit(c.status, FLAG_ZERO, (c.a + v + cin) % 256 == 0);
    let s2 = set_bit(s1, FLAG_NEGATIVE, n);
    let s3 = set_bit(s2, FLAG_OVERFLOW, (c.a >= 0x80) == (v >= 0x80) && (c.a >= 0x80) != n);
    let hi = if hi0 > 9 {
        hi0 + 6
    } else {
        hi0
    };
    let s4 = set_bit(s3, FLAG_CARRY, hi > 15);
    Cpu { a: w8(hi * 16 + lo % 16), status: s4, ..c }
}

pub open spec fn spec_adc(c: Cpu, v: u8) -> Cpu {
    if has_bit(c.status, FLAG_DECIMAL) {
        spec_adc_decimal(c, v)
    } else {
        spec_adc_binary(c, v)
    }
}

/// Decimal SBC as the NMOS 6502 computes it: digit-wise BCD subtraction, with
/// C, Z, N and V taken from the binary subtraction.
pub open spec fn spec_sbc_decimal(c: Cpu, v: u8) -> Cpu {
    let cin = carry_in(c.status);
    let bin = c.a - v - (1 - cin);
    let sdiff = sx(c.a) - sx(v) - (1 - cin);
    let rb = w8(bin);
    let s1 = set_bit(c.status, FLAG_CARRY, bin >= 0);
    let s2 = zn(s1, rb);
    let s3 = set_bit(s2, FLAG_OVERFLOW, sdiff < -128 || sdiff > 127);
    Cpu { a: bcd_sub(c.a, v, cin), status: s3, ..c }
}

/// The accumulator after a decimal SBC: each digit is subtracted with borrow
/// and a negative digit is corrected by adding 10 (a still-negative high digit
/// wraps modulo 16).
pub open spec fn bcd_sub(a: u8, v: u8, cin: int) -> u8 {
    let lo0 = a % 16 - v % 16 + cin - 1;
    let hi0 = a / 16 - v / 16;
    let lo = if lo0 < 0 {
        lo0 + 10
    } else {
        lo0
    };
    let hi1 = if lo0 < 0 {
        hi0 - 1
    } else {
        hi0
    };
    let hi = if hi1 < 0 {
        hi1 + 10
    } else {
        hi1
    };
    w8(hi * 16 + lo % 16)
}

/// SBC: in binary mode, ADC of the one's complement.
pub open spec fn spec_sbc(c: Cpu, v: u8) -> Cpu {
    if has_bit(c.status, FLAG_DECIMAL) {
        spec_sbc_decimal(c, v)
    } else {
        spec_adc_binary(c, (255 - v) as u8)
    }
}

/// Compare: C when `reg >= v`, Z and N from `reg - v`.
pub open spec fn spec_compare(c: Cpu, reg: u8, v: u8) -> Cpu {
    Cpu { status: zn(set_bit(c.status, FLAG_CARRY, reg >= v), w8(reg - v)), ..c }
}

/// Shift left: bit 7 into C.
pub open spec fn spec_asl(c: Cpu, v: u8) -> (Cpu, u8) {
    let r = w8(v * 2);
    (Cpu { status: zn(set_bit(c.status, FLAG_CARRY, v >= 0x80), r), ..c }, r)
}

/// Shift right: bit 0 into C.
pub open spec fn spec_lsr(c: Cpu, v: u8) -> (Cpu, u8) {
    let r = (v / 2) as u8;
    (Cpu { status: zn(set_bit(c.status, FLAG_CARRY, v % 2 == 1), r), ..c }, r)
}

/// Rotate left through carry.
pub open spec fn spec_rol(c: Cpu, v: u8) -> (Cpu, u8) {
    let r = w8(v * 2 + carry_in(c.status));
    (Cpu { status: zn(set_bit(c.status, FLAG_CARRY, v >= 0x80), r), ..c }, r)
}

/// Rotate right through carry.
pub open spec fn spec_ror(c: Cpu, v: u8) -> (Cpu, u8) {
    let r = (v / 2 + carry_in(c.status) * 128) as u8;
    (Cpu { status: zn(set_bit(c.status, FLAG_CARRY, v % 2 == 1), r), ..c }, r)
}

/// BIT: Z from A AND v, V and N copied from bits 6 and 7 of v.
pub open spec fn spec_bit(c: Cpu, v: u8) -> Cpu {
    let s1 = set_bit(c.status, FLAG_ZERO, c.a & v == 0);
    let s2 = set_bit(s1, FLAG_OVERFLOW, v & 0x40 != 0);
    Cpu { status: set_bit(s2, FLAG_NEGATIVE, v >= 0x80), ..c }
}

proof fn lemma_bcd_sub_offsets(a8: u8, v8: u8, cin: int, lo_q: int, hi_q: int)
    requires
        0 <= cin <= 1,
        lo_q == (if a8 % 16 + 16 + cin - v8 % 16 - 1 < 16 {
            a8 % 16 + 16 + cin - v8 % 16 - 1 + 10
        } else {
            a8 % 16 + 16 + cin - v8 % 16 - 1
        }),
        hi_q == (if a8 / 16 + 16 - v8 / 16 - (if a8 % 16 + 16 + cin - v8 % 16 - 1 < 16 {
            1int
        } else {
            0
        }) < 16 {
            a8 / 16 + 16 - v8 / 16 - (if a8 % 16 + 16 + cin - v8 % 16 - 1 < 16 {
                1int
            } else {
                0
            }) + 10
        } else {
            a8 / 16 + 16 - v8 / 16 - (if a8 % 16 + 16 + cin - v8 % 16 - 1 < 16 {
                1int
            } else {
                0
            })
        }),
    ensures
        (hi_q * 16 + lo_q % 16) % 256 == bcd_sub(a8, v8, cin),
{
    let lo0 = a8 % 16 - v8 % 16 + cin - 1;
    let hi0 = a8 / 16 - v8 / 16;
    let lo = if lo0 < 0 {
        lo0 + 10
    } else {
        lo0
    };
    let hi1 = if lo0 < 0 {
        hi0 - 1
    } else {
        hi0
    };
    let hi = if hi1 < 0 {
        hi1 + 10
    } else {
        hi1
    };
    assert(lo_q == lo + 16);
    assert(hi_q == hi + 16);
    vstd::arithmetic::div_mod::lemma_mod_add_multiples_vanish(lo, 16);
    assert(lo_q % 16 == lo % 16);
    let t = hi * 16 + lo % 16;
    assert(hi_q * 16 + lo_q % 16 == t + 256);
    vstd::arithmetic::div_mod::lemma_mod_add_multiples_vanish(t, 256);
}

proof fn lemma_sub_flags(a: u8, v: u8, cin: int)
    requires
        0 <= cin <= 1,
    ensures
        (a + 256 + cin - v - 1) % 256 == w8(a - v - (1 - cin)) as int,
        ((a >= 0x80) != (v >= 0x80) && (a >= 0x80) != ((a + 256 + cin - v - 1) % 256 >= 0x80))
            == (sx(a) - sx(v) - (1 - cin) < -128 || sx(a) - sx(v) - (1 - cin) > 127),
{
    let d = a - v - (1 - cin);
    vstd::arithmetic::div_mod::lemma_mod_add_multiples_vanish(d, 256);
    let r = (d + 256) % 256;
    if d >= 0 {
        assert(r == d);
    } else {
        assert(r == d + 256);
    }
}

proof fn lemma_add_overflow(a: u8, v: u8, cin: int)
    requires
        0 <= cin <= 1,
    ensures
        ((a >= 0x80) == (v >= 0x80) && (a >= 0x80) != ((a + v + cin) % 256 >= 0x80))
            == (sx(a) + sx(v) + cin < -128 || sx(a) + sx(v) + cin > 127),
{
    let sum = a + v + cin;
    if sum >= 256 {
        assert(sum % 256 == sum - 256);
    } else {
        assert(sum % 256 == sum);
    }
}

/// Digit-wise BCD subtraction; digits are kept offset by 16 so that borrows
/// stay non-negative.
fn bcd_sub_exec(a8: u8, v8: u8, cin: u16) -> (r: u8)
    requires
        cin <= 1,
    ensures
        r == bcd_sub(a8, v8, cin as int),
{
    let a = a8 as u16;
    let v = v8 as u16;
    let lo_p = a % 16 + 16 + cin - v % 16 - 1;
    let borrow = lo_p < 16;
    let lo_q = if borrow {
        lo_p + 10
    } else {
        lo_p
    };
    let hi_p = a / 16 + 16 - v / 16 - (if borrow {
        1
    } else {
        0
    });
    let hi_q = if hi_p < 16 {
        hi_p + 10
    } else {
        hi_p
    };
    proof {
        lemma_bcd_sub_offsets(a8, v8, cin as int, lo_q as int, hi_q as int);
    }
    ((hi_q * 16 + lo_q % 16) % 256) as u8
}

impl Cpu {
    fn carry_value(&self) -> (r: u8)
        ensures
            r == carry_in(self.status),
    {
        if self.get_flag(FLAG_CARRY) {
            1
        } else {
            0
        }
    }

    fn adc(&mut self, value: u8)
        ensures
            *final(self) == spec_adc(*old(self), value),
    {
        let cin = self.carry_value() as u16;
        let a = self.a as u16;
        let v = value as u16;
        if self.get_flag(FLAG_DECIMAL) {
            // BCD addition (NMOS 6502 behaviour).
            let mut lo = a % 16 + v % 16 + cin;
            let mut hi = a / 16 + v / 16;
            if lo > 9 {
                lo = lo + 6;
                hi = hi + 1;
            }
            // Z comes from the binary sum, N and V from the unadjusted high digit.
            let bin = a + v + cin;
            self.set_flag(FLAG_ZERO, bin % 256 == 0);
            let n = hi % 16 >= 8;
            self.set_flag(FLAG_NEGATIVE, n);
            self.set_flag(FLAG_OVERFLOW, (a >= 0x80) == (v >= 0x80) && (a >= 0x80) != n);
            if hi > 9 {
                hi = hi + 6;
            }
            self.set_flag(FLAG_CARRY, hi > 0x0F);
            self.a = ((hi * 16 + lo % 16) % 256) as u8;
        } else {
            let sum = a + v + cin;
            let result = (sum % 256) as u8;
            proof {
                lemma_add_overflow(self.a, value, cin as int);
            }
            self.set_flag(FLAG_CARRY, sum > 0xFF);
            self.set_flag(
                FLAG_OVERFLOW,
                (a >= 0x80) == (v >= 0x80) && (a >= 0x80) != (result >= 0x80),
            );
            self.a = result;
            self.set_zn(result);
        }
    }

    fn sbc(&mut self, value: u8)
        ensures
            *final(self) == spec_sbc(*old(self), value),
    {
        if self.get_flag(FLAG_DECIMAL) {
            let cin = self.carry_value() as u16;
            let a = self.a as u16;
            let v = value as u16;
            // Flags come from the binary subtraction (NMOS quirk).
            let result_bin = ((a + 256 + cin - v - 1) % 256) as u8;
            proof {
                lemma_sub_flags(self.a, value, cin as int);
            }
            self.set_flag(FLAG_CARRY, a + cin >= v + 1);
            self.set_zn(result_bin);
            self.set_flag(
                FLAG_OVERFLOW,
                (a >= 0x80) != (v >= 0x80) && (a >= 0x80) != (result_bin >= 0x80),
            );
            self.a = bcd_sub_exec(self.a, value, cin);
        } else {
            // Binary SBC is ADC of the one's complement.
            self.adc(255 - value);
        }
    }

    fn compare_reg(&mut self, reg: u8, value: u8)
        ensures
            *final(self) == spec_compare(*old(self), reg, value),
    {
        let r = reg.wrapping_sub(value);
        self.set_flag(FLAG_CARRY, reg >= value);
        self.set_zn(r);
    }

    fn asl(&mut self, value: u8) -> (r: u8)
        ensures
            (*final(self), r) == spec_asl(*old(self), value),
    {
        self.set_flag(FLAG_CARRY, value >= 0x80);
        let r = ((value as u16 * 2) % 256) as u8;
        self.set_zn(r);
        r
    }

    fn lsr(&mut self, value: u8) -> (r: u8)
        ensures
            (*final(self), r) == spec_lsr(*old(self), value),
    {
        self.set_flag(FLAG_CARRY, value % 2 == 1);
        let r = value / 2;
        self.set_zn(r);
        r
    }

    fn rol(&mut self, value: u8) -> (r: u8)
        ensures
            (*final(self), r) == spec_rol(*old(self), value),
    {
        let carry = self.carry_value() as u16;
        self.set_flag(FLAG_CARRY, value >= 0x80);
        let r = ((value as u16 * 2 + carry) % 256) as u8;
        self.set_zn(r);
        r
    }

    fn ror(&mut self, value: u8) -> (r: u8)
        ensures
            (*final(self), r) == spec_ror(*old(self), value),
    {
        let carry = self.carry_value();
        self.set_flag(FLAG_CARRY, value % 2 == 1);
        let r = value / 2 + carry * 128;
        self.set_zn(r);
        r
    }

    fn bit(&mut self, value: u8)
        ensures
            *final(self) == spec_bit(*old(self), value),
    {
        let a = self.a;
        self.set_flag(FLAG_ZERO, a & value == 0);
        self.set_flag(FLAG_OVERFLOW, value & 0x40 != 0);
        self.set_flag(FLAG_NEGATIVE, value >= 0x80);
    }
}


// ---------------------------------------------------------------------------
// Instruction decoding
// ---------------------------------------------------------------------------

/// Addressing modes. `Imp` covers implied and accumulator operands.
#[derive(Clone, Copy)]
pub enum Mode {
    Imp,
    Imm,
    Zp,
    Zpx,
    Zpy,
    Abs,
    Abx,
    Aby,
    Ind,
    Izx,
    Izy,
    Rel,
}

/// Operations. Branches and flag instructions carry the status bit they test
/// or change.
#[derive(Clone, Copy)]
pub enum Op {
    Lda,
    Ldx,
    Ldy,
    Sta,
    Stx,
    Sty,
    Tax,
    Tay,
    Txa,
    Tya,
    Tsx,
    Txs,
    Pha,
    Pla,
    Php,
    Plp,
    And,
    Ora,
    Eor,
    Bit,
    Adc,
    Sbc,
    Cmp,
    Cpx,
    Cpy,
    Inc,
    Dec,
    Inx,
    Dex,
    Iny,
    Dey,
    Asl,
    Lsr,
    Rol,
    Ror,
    Jmp,
    Jsr,
    Rts,
    Rti,
    Brk,
    Branch { mask: u8, set: bool },
    Flag { mask: u8, on: bool },
    Nop,
}

/// A decoded opcode: operation, addressing mode, base cycle count, and whether
/// a page crossing in the effective address costs one more cycle.
#[derive(Clone, Copy)]
pub struct Instr {
    pub op: Op,
    pub mode: Mode,
    pub cycles: u8,
    pub penalty: bool,
}

pub open spec fn ins(op: Op, mode: Mode, cycles: u8, penalty: bool) -> Instr {
    Instr { op: op, mode: mode, cycles: cycles, penalty: penalty }
}

/// What every undocumented opcode without an operand does: a 2-cycle NOP.
pub open spec fn nop_imp() -> Instr {
    ins(Op::Nop, Mode::Imp, 2, false)
}

/// Addressing mode chosen by bits 2-4 in the `cc = 01` group.
pub open spec fn group1_mode(b: u8) -> Mode {
    if b == 0 {
        Mode::Izx
    } else if b == 1 {
        Mode::Zp
    } else if b == 2 {
        Mode::Imm
    } else if b == 3 {
        Mode::Abs
    } else if b == 4 {
        Mode::Izy
    } else if b == 5 {
        Mode::Zpx
    } else if b == 6 {
        Mode::Aby
    } else {
        Mode::Abx
    }
}

/// The `cc = 01` group: ORA AND EOR ADC STA LDA CMP SBC over eight modes.
/// Reads cost 6,3,2,4,5(+1),4,4(+1),4(+1) cycles by mode; stores 6,3,-,4,6,4,5,5.
pub open spec fn decode_group1(a: u8, b: u8) -> Instr {
    let mode = group1_mode(b);
    if a == 4 {
        if b == 2 {
            ins(Op::Nop, Mode::Imm, 2, false)
        } else {
            ins(Op::Sta, mode, if b == 0 || b == 4 { 6 } else if b == 1 { 3 } else if b == 3
                || b == 5 { 4 } else { 5 }, false)
        }
    } else {
        let op = if a == 0 {
            Op::Ora
        } else if a == 1 {
            Op::And
        } else if a == 2 {
            Op::Eor
        } else if a == 3 {
            Op::Adc
        } else if a == 5 {
            Op::Lda
        } else if a == 6 {
            Op::Cmp
        } else {
            Op::Sbc
        };
        let cycles: u8 = if b == 0 {
            6
        } else if b == 1 {
            3
        } else if b == 2 {
            2
        } else if b == 4 {
            5
        } else {
            4
        };
        ins(op, mode, cycles, b == 4 || b == 6 || b == 7)
    }
}

/// The `cc = 10` group: ASL ROL LSR ROR (STX LDX) DEC INC, the register
/// transfers through X, DEX and NOP in the implied row.
pub open spec fn decode_group2(a: u8, b: u8) -> Instr {
    if a == 4 {
        if b == 0 {
            ins(Op::Nop, Mode::Imm, 2, false)
        } else if b == 1 {
            ins(Op::Stx, Mode::Zp, 3, false)
        } else if b == 2 {
            ins(Op::Txa, Mode::Imp, 2, false)
        } else if b == 3 {
            ins(Op::Stx, Mode::Abs, 4, false)
        } else if b == 5 {
            ins(Op::Stx, Mode::Zpy, 4, false)
        } else if b == 6 {
            ins(Op::Txs, Mode::Imp, 2, false)
        } else {
            nop_imp()
        }
    } else if a == 5 {
        if b == 0 {
            ins(Op::Ldx, Mode::Imm, 2, false)
        } else if b == 1 {
            ins(Op::Ldx, Mode::Zp, 3, false)
        } else if b == 2 {
            ins(Op::Tax, Mode::Imp, 2, false)
        } else if b == 3 {
            ins(Op::Ldx, Mode::Abs, 4, false)
        } else if b == 5 {
            ins(Op::Ldx, Mode::Zpy, 4, false)
        } else if b == 6 {
            ins(Op::Tsx, Mode::Imp, 2, false)
        } else if b == 7 {
            ins(Op::Ldx, Mode::Aby, 4, true)
        } else {
            nop_imp()
        }
    } else {
        let op = if a == 0 {
            Op::Asl
        } else if a == 1 {
            Op::Rol
        } else if a == 2 {
            Op::Lsr
        } else if a == 3 {
            Op::Ror
        } else if a == 6 {
            Op::Dec
        } else {
            Op::Inc
        };
        if b == 2 {
            if a < 4 {
                ins(op, Mode::Imp, 2, false)
            } else if a == 6 {
                ins(Op::Dex, Mode::Imp, 2, false)
            } else {
                nop_imp()
            }
        } else if b == 1 {
            ins(op, Mode::Zp, 5, false)
        } else if b == 3 {
            ins(op, Mode::Abs, 6, false)
        } else if b == 5 {
            ins(op, Mode::Zpx, 6, false)
        } else if b == 7 {
            ins(op, Mode::Abx, 7, false)
        } else if b == 0 && a >= 6 {
            ins(Op::Nop, Mode::Imm, 2, false)
        } else {
            nop_imp()
        }
    }
}

/// The status bit tested by the branch pair `p` (0 BPL/BMI, 1 BVC/BVS,
/// 2 BCC/BCS, 3 BNE/BEQ).
pub open spec fn branch_mask(p: u8) -> u8 {
    if p == 0 {
        FLAG_NEGATIVE
    } else if p == 1 {
        FLAG_OVERFLOW
    } else if p == 2 {
        FLAG_CARRY
    } else {
        FLAG_ZERO
    }
}

/// The `cc = 00` group: branches, flag instructions, stack and Y-register
/// instructions, BIT, JMP, and the control-flow opcodes BRK JSR RTI RTS.
pub open spec fn decode_group0(a: u8, b: u8) -> Instr {
    if b == 4 {
        ins(Op::Branch { mask: branch_mask(a / 2), set: a % 2 == 1 }, Mode::Rel, 2, false)
    } else if b == 6 {
        if a == 4 {
            ins(Op::Tya, Mode::Imp, 2, false)
        } else {
            let mask = if a <= 1 {
                FLAG_CARRY
            } else if a <= 3 {
                FLAG_IRQ_DISABLE
            } else if a == 5 {
                FLAG_OVERFLOW
            } else {
                FLAG_DECIMAL
            };
            ins(Op::Flag { mask: mask, on: a % 2 == 1 && a != 5 }, Mode::Imp, 2, false)
        }
    } else if b == 2 {
        if a == 0 {
            ins(Op::Php, Mode::Imp, 3, false)
        } else if a == 1 {
            ins(Op::Plp, Mode::Imp, 4, false)
        } else if a == 2 {
            ins(Op::Pha, Mode::Imp, 3, false)
        } else if a == 3 {
            ins(Op::Pla, Mode::Imp, 4, false)
        } else if a == 4 {
            ins(Op::Dey, Mode::Imp, 2, false)
        } else if a == 5 {
            ins(Op::Tay, Mode::Imp, 2, false)
        } else if a == 6 {
            ins(Op::Iny, Mode::Imp, 2, false)
        } else {
            ins(Op::Inx, Mode::Imp, 2, false)
        }
    } else if b == 0 {
        if a == 0 {
            ins(Op::Brk, Mode::Imp, 7, false)
        } else if a == 1 {
            ins(Op::Jsr, Mode::Abs, 6, false)
        } else if a == 2 {
            ins(Op::Rti, Mode::Imp, 6, false)
        } else if a == 3 {
            ins(Op::Rts, Mode::Imp, 6, false)
        } else if a == 4 {
            ins(Op::Nop, Mode::Imm, 2, false)
        } else if a == 5 {
            ins(Op::Ldy, Mode::Imm, 2, false)
        } else if a == 6 {
            ins(Op::Cpy, Mode::Imm, 2, false)
        } else {
            ins(Op::Cpx, Mode::Imm, 2, false)
        }
    } else if b == 1 || b == 3 {
        let mode = if b == 1 {
            Mode::Zp
        } else {
            Mode::Abs
        };
        let cycles: u8 = if b == 1 {
            3
        } else {
            4
        };
        if a == 1 {
            ins(Op::Bit, mode, cycles, false)
        } else if a == 2 && b == 3 {
            ins(Op::Jmp, Mode::Abs, 3, false)
        } else if a == 3 && b == 3 {
            ins(Op::Jmp, Mode::Ind, 5, false)
        } else if a == 4 {
            ins(Op::Sty, mode, cycles, false)
        } else if a == 5 {
            ins(Op::Ldy, mode, cycles, false)
        } else if a == 6 {
            ins(Op::Cpy, mode, cycles, false)
        } else if a == 7 {
            ins(Op::Cpx, mode, cycles, false)
        } else {
            ins(Op::Nop, mode, cycles, false)
        }
    } else if b == 5 {
        if a == 4 {
            ins(Op::Sty, Mode::Zpx, 4, false)
        } else if a == 5 {
            ins(Op::Ldy, Mode::Zpx, 4, false)
        } else {
            ins(Op::Nop, Mode::Zpx, 4, false)
        }
    } else {
        if a == 4 {
            nop_imp()
        } else if a == 5 {
            ins(Op::Ldy, Mode::Abx, 4, true)
        } else {
            ins(Op::Nop, Mode::Abx, 4, true)
        }
    }
}

/// The instruction an opcode `aaabbbcc` encodes, by the 6502's grouping on
/// `cc` (bits 0-1), with `aaa` (bits 5-7) selecting the operation and `bbb`
/// (bits 2-4) the addressing mode. Group `cc = 11` holds only undocumented
/// opcodes.
pub open spec fn spec_decode(opcode: u8) -> Instr {
    let a = opcode / 32;
    let b = (opcode / 4) % 8;
    let c = opcode % 4;
    if c == 1 {
        decode_group1(a, b)
    } else if c == 2 {
        decode_group2(a, b)
    } else if c == 0 {
        decode_group0(a, b)
    } else {
        nop_imp()
    }
}

/// Decode an opcode through the instruction table.
#[verifier::rlimit(50)]
pub fn decode(opcode: u8) -> (r: Instr)
    ensures
        r == spec_decode(opcode),
        2 <= r.cycles <= 7,
        r.penalty ==> r.cycles <= 5,
        r.op is Branch ==> r.cycles == 2 && !r.penalty,
{
    match opcode {
        0x00 => Instr { op: Op::Brk, mode: Mode::Imp, cycles: 7, penalty: false },
        0x01 => Instr { op: Op::Ora, mode: Mode::Izx, cycles: 6, penalty: false },
        0x04 => Instr { op: Op::Nop, mode: Mode::Zp, cycles: 3, penalty: false },
        0x05 => Instr { op: Op::Ora, mode: Mode::Zp, cycles: 3, penalty: false },
        0x06 => Instr { op: Op::Asl, mode: Mode::Zp, cycles: 5, penalty: false },
        0x08 => Instr { op: Op::Php, mode: Mode::Imp, cycles: 3, penalty: false },
        0x09 => Instr { op: Op::Ora, mode: Mode::Imm, cycles: 2, penalty: false },
        0x0A => Instr { op: Op::Asl, mode: Mode::Imp, cycles: 2, penalty: false },
        0x0C => Instr { op: Op::Nop, mode: Mode::Abs, cycles: 4, penalty: false },
        0x0D => Instr { op: Op::Ora, mode: Mode::Abs, cycles: 4, penalty: false },
        0x0E => Instr { op: Op::Asl, mode: Mode::Abs, cycles: 6, penalty: false },
        0x10 => Instr { op: Op::Branch { mask: FLAG_NEGATIVE, set: false }, mode: Mode::Rel, cycles: 2, penalty: false },
        0x11 => Instr { op: Op::Ora, mode: Mode::Izy, cycles: 5, penalty: true },
        0x14 => Instr { op: Op::Nop, mode: Mode::Zpx, cycles: 4, penalty: false },
        0x15 => Instr { op: Op::Ora, mode: Mode::Zpx, cycles: 4, penalty: false },
        0x16 => Instr { op: Op::Asl, mode: Mode::Zpx, cycles: 6, penalty: false },
        0x18 => Instr { op: Op::Flag { mask: FLAG_CARRY, on: false }, mode: Mode::Imp, cycles: 2, penalty: false },
        0x19 => Instr { op: Op::Ora, mode: Mode::Aby, cycles: 4, penalty: true },
        0x1A => Instr { op: Op::Nop, mode: Mode::Imp, cycles: 2, penalty: false },
        0x1C => Instr { op: Op::Nop, mode: Mode::Abx, cycles: 4, penalty: true },
        0x1D => Instr { op: Op::Ora, mode: Mode::Abx, cycles: 4, penalty: true },
        0x1E => Instr { op: Op::Asl, mode: Mode::Abx, cycles: 7, penalty: false },
        0x20 => Instr { op: Op::Jsr, mode: Mode::Abs, cycles: 6, penalty: false },
        0x21 => Instr { op: Op::And, mode: Mode::Izx, cycles: 6, penalty: false },
        0x24 => Instr { op: Op::Bit, mode: Mode::Zp, cycles: 3, penalty: false },
        0x25 => Instr { op: Op::And, mode: Mode::Zp, cycles: 3, penalty: false },
        0x26 => Instr { op: Op::Rol, mode: Mode::Zp, cycles: 5, penalty: false },
        0x28 => Instr { op: Op::Plp, mode: Mode::Imp, cycles: 4, penalty: false },
        0x29 => Instr { op: Op::And, mode: Mode::Imm, cycles: 2, penalty: false },
        0x2A => Instr { op: Op::Rol, mode: Mode::Imp, cycles: 2, penalty: false },
        0x2C => Instr { op: Op::Bit, mode: Mode::Abs, cycles: 4, penalty: false },
        0x2D => Instr { op: Op::And, mode: Mode::Abs, cycles: 4, penalty: false },
        0x2E => Instr { op: Op::Rol, mode: Mode::Abs, cycles: 6, penalty: false },
        0x30 => Instr { op: Op::Branch { mask: FLAG_NEGATIVE, set: true }, mode: Mode::Rel, cycles: 2, penalty: false },
        0x31 => Instr { op: Op::And, mode: Mode::Izy, cycles: 5, penalty: true },
        0x34 => Instr { op: Op::Nop, mode: Mode::Zpx, cycles: 4, penalty: false },
        0x35 => Instr { op: Op::And, mode: Mode::Zpx, cycles: 4, penalty: false },
        0x36 => Instr { op: Op::Rol, mode: Mode::Zpx, cycles: 6, penalty: false },
        0x38 => Instr { op: Op::Flag { mask: FLAG_CARRY, on: true }, mode: Mode::Imp, cycles: 2, penalty: false },
        0x39 => Instr { op: Op::And, mode: Mode::Aby, cycles: 4, penalty: true },
        0x3A => Instr { op: Op::Nop, mode: Mode::Imp, cycles: 2, penalty: false },
        0x3C => Instr { op: Op::Nop, mode: Mode::Abx, cycles: 4, penalty: true },
        0x3D => Instr { op: Op::And, mode: Mode::Abx, cycles: 4, penalty: true },
        0x3E => Instr { op: Op::Rol, mode: Mode::Abx, cycles: 7, penalty: false },
        0x40 => Instr { op: Op::Rti, mode: Mode::Imp, cycles: 6, penalty: false },
        0x41 => Instr { op: Op::Eor, mode: Mode::Izx, cycles: 6, penalty: false },
        0x44 => Instr { op: Op::Nop, mode: Mode::Zp, cycles: 3, penalty: false },
        0x45 => Instr { op: Op::Eor, mode: Mode::Zp, cycles: 3, penalty: false },
        0x46 => Instr { op: Op::Lsr, mode: Mode::Zp, cycles: 5, penalty: false },
        0x48 => Instr { op: Op::Pha, mode: Mode::Imp, cycles: 3, penalty: false },
        0x49 => Instr { op: Op::Eor, mode: Mode::Imm, cycles: 2, penalty: false },
        0x4A => Instr { op: Op::Lsr, mode: Mode::Imp, cycles: 2, penalty: false },
        0x4C => Instr { op: Op::Jmp, mode: Mode::Abs, cycles: 3, penalty: false },
        0x4D => Instr { op: Op::Eor, mode: Mode::Abs, cycles: 4, penalty: false },
        0x4E => Instr { op: Op::Lsr, mode: Mode::Abs, cycles: 6, penalty: false },
        0x50 => Instr { op: Op::Branch { mask: FLAG_OVERFLOW, set: false }, mode: Mode::Rel, cycles: 2, penalty: false },
        0x51 => Instr { op: Op::Eor, mode: Mode::Izy, cycles: 5, penalty: true },
        0x54 => Instr { op: Op::Nop, mode: Mode::Zpx, cycles: 4, penalty: false },
        0x55 => Instr { op: Op::Eor, mode: Mode::Zpx, cycles: 4, penalty: false },
        0x56 => Instr { op: Op::Lsr, mode: Mode::Zpx, cycles: 6, penalty: false },
        0x58 => Instr { op: Op::Flag { mask: FLAG_IRQ_DISABLE, on: false }, mode: Mode::Imp, cycles: 2, penalty: false },
        0x59 => Instr { op: Op::Eor, mode: Mode::Aby, cycles: 4, penalty: true },
        0x5A => Instr { op: Op::Nop, mode: Mode::Imp, cycles: 2, penalty: false },
        0x5C => Instr { op: Op::Nop, mode: Mode::Abx, cycles: 4, penalty: true },
        0x5D => Instr { op: Op::Eor, mode: Mode::Abx, cycles: 4, penalty: true },
        0x5E => Instr { op: Op::Lsr, mode: Mode::Abx, cycles: 7, penalty: false },
        0x60 => Instr { op: Op::Rts, mode: Mode::Imp, cycles: 6, penalty: false },
        0x61 => Instr { op: Op::Adc, mode: Mode::Izx, cycles: 6, penalty: false },
        0x64 => Instr { op: Op::Nop, mode: Mode::Zp, cycles: 3, penalty: false },
        0x65 => Instr { op: Op::Adc, mode: Mode::Zp, cycles: 3, penalty: false },
        0x66 => Instr { op: Op::Ror, mode: Mode::Zp, cycles: 5, penalty: false },
        0x68 => Instr { op: Op::Pla, mode: Mode::Imp, cycles: 4, penalty: false },
        0x69 => Instr { op: Op::Adc, mode: Mode::Imm, cycles: 2, penalty: false },
        0x6A => Instr { op: Op::Ror, mode: Mode::Imp, cycles: 2, penalty: false },
        0x6C => Instr { op: Op::Jmp, mode: Mode::Ind, cycles: 5, penalty: false },
        0x6D => Instr { op: Op::Adc, mode: Mode::Abs, cycles: 4, penalty: false },
        0x6E => Instr { op: Op::Ror, mode: Mode::Abs, cycles: 6, penalty: false },
        0x70 => Instr { op: Op::Branch { mask: FLAG_OVERFLOW, set: true }, mode: Mode::Rel, cycles: 2, penalty: false },
        0x71 => Instr { op: Op::Adc, mode: Mode::Izy, cycles: 5, penalty: true },
        0x74 => Instr { op: Op::Nop, mode: Mode::Zpx, cycles: 4, penalty: false },
        0x75 => Instr { op: Op::Adc, mode: Mode::Zpx, cycles: 4, penalty: false },
        0x76 => Instr { op: Op::Ror, mode: Mode::Zpx, cycles: 6, penalty: false },
        0x78 => Instr { op: Op::Flag { mask: FLAG_IRQ_DISABLE, on: true }, mode: Mode::Imp, cycles: 2, penalty: false },
        0x79 => Instr { op: Op::Adc, mode: Mode::Aby, cycles: 4, penalty: true },
        0x7A => Instr { op: Op::Nop, mode: Mode::Imp, cycles: 2, penalty: false },
        0x7C => Instr { op: Op::Nop, mode: Mode::Abx, cycles: 4, penalty: true },
        0x7D => Instr { op: Op::Adc, mode: Mode::Abx, cycles: 4, penalty: true },
        0x7E => Instr { op: Op::Ror, mode: Mode::Abx, cycles: 7, penalty: false },
        0x80 => Instr { op: Op::Nop, mode: Mode::Imm, cycles: 2, penalty: false },
        0x81 => Instr { op: Op::Sta, mode: Mode::Izx, cycles: 6, penalty: false },
        0x82 => Instr { op: Op::Nop, mode: Mode::Imm, cycles: 2, penalty: false },
        0x84 => Instr { op: Op::Sty, mode: Mode::Zp, cycles: 3, penalty: false },
        0x85 => Instr { op: Op::Sta, mode: Mode::Zp, cycles: 3, penalty: false },
        0x86 => Instr { op: Op::Stx, mode: Mode::Zp, cycles: 3, penalty: false },
        0x88 => Instr { op: Op::Dey, mode: Mode::Imp, cycles: 2, penalty: false },
        0x89 => Instr { op: Op::Nop, mode: Mode::Imm, cycles: 2, penalty: false },
        0x8A => Instr { op: Op::Txa, mode: Mode::Imp, cycles: 2, penalty: false },
        0x8C => Instr { op: Op::Sty, mode: Mode::Abs, cycles: 4, penalty: false },
        0x8D => Instr { op: Op::Sta, mode: Mode::Abs, cycles: 4, penalty: false },
        0x8E => Instr { op: Op::Stx, mode: Mode::Abs, cycles: 4, penalty: false },
        0x90 => Instr { op: Op::Branch { mask: FLAG_CARRY, set: false }, mode: Mode::Rel, cycles: 2, penalty: false },
        0x91 => Instr { op: Op::Sta, mode: Mode::Izy, cycles: 6, penalty: false },
        0x94 => Instr { op: Op::Sty, mode: Mode::Zpx, cycles: 4, penalty: false },
        0x95 => Instr { op: Op::Sta, mode: Mode::Zpx, cycles: 4, penalty: false },
        0x96 => Instr { op: Op::Stx, mode: Mode::Zpy, cycles: 4, penalty: false },
        0x98 => Instr { op: Op::Tya, mode: Mode::Imp, cycles: 2, penalty: false },
        0x99 => Instr { op: Op::Sta, mode: Mode::Aby, cycles: 5, penalty: false },
        0x9A => Instr { op: Op::Txs, mode: Mode::Imp, cycles: 2, penalty: false },
        0x9D => Instr { op: Op::Sta, mode: Mode::Abx, cycles: 5, penalty: false },
        0xA0 => Instr { op: Op::Ldy, mode: Mode::Imm, cycles: 2, penalty: false },
        0xA1 => Instr { op: Op::Lda, mode: Mode::Izx, cycles: 6, penalty: false },
        0xA2 => Instr { op: Op::Ldx, mode: Mode::Imm, cycles: 2, penalty: false },
        0xA4 => Instr { op: Op::Ldy, mode: Mode::Zp, cycles: 3, penalty: false },
        0xA5 => Instr { op: Op::Lda, mode: Mode::Zp, cycles: 3, penalty: false },
        0xA6 => Instr { op: Op::Ldx, mode: Mode::Zp, cycles: 3, penalty: false },
        0xA8 => Instr { op: Op::Tay, mode: Mode::Imp, cycles: 2, penalty: false },
        0xA9 => Instr { op: Op::Lda, mode: Mode::Imm, cycles: 2, penalty: false },
        0xAA => Instr { op: Op::Tax, mode: Mode::Imp, cycles: 2, penalty: false },
        0xAC => Instr { op: Op::Ldy, mode: Mode::Abs, cycles: 4, penalty: false },
        0xAD => Instr { op: Op::Lda, mode: Mode::Abs, cycles: 4, penalty: false },
        0xAE => Instr { op: Op::Ldx, mode: Mode::Abs, cycles: 4, penalty: false },
        0xB0 => Instr { op: Op::Branch { mask: FLAG_CARRY, set: true }, mode: Mode::Rel, cycles: 2, penalty: false },
        0xB1 => Instr { op: Op::Lda, mode: Mode::Izy, cycles: 5, penalty: true },
        0xB4 => Instr { op: Op::Ldy, mode: Mode::Zpx, cycles: 4, penalty: false },
        0xB5 => Instr { op: Op::Lda, mode: Mode::Zpx, cycles: 4, penalty: false },
        0xB6 => Instr { op: Op::Ldx, mode: Mode::Zpy, cycles: 4, penalty: false },
        0xB8 => Instr { op: Op::Flag { mask: FLAG_OVERFLOW, on: false }, mode: Mode::Imp, cycles: 2, penalty: false },
        0xB9 => Instr { op: Op::Lda, mode: Mode::Aby, cycles: 4, penalty: true },
        0xBA => Instr { op: Op::Tsx, mode: Mode::Imp, cycles: 2, penalty: false },
        0xBC => Instr { op: Op::Ldy, mode: Mode::Abx, cycles: 4, penalty: true },
        0xBD => Instr { op: Op::Lda, mode: Mode::Abx, cycles: 4, penalty: true },
        0xBE => Instr { op: Op::Ldx, mode: Mode::Aby, cycles: 4, penalty: true },
        0xC0 => Instr { op: Op::Cpy, mode: Mode::Imm, cycles: 2, penalty: false },
        0xC1 => Instr { op: Op::Cmp, mode: Mode::Izx, cycles: 6, penalty: false },
        0xC2 => Instr { op: Op::Nop, mode: Mode::Imm, cycles: 2, penalty: false },
        0xC4 => Instr { op: Op::Cpy, mode: Mode::Zp, cycles: 3, penalty: false },
        0xC5 => Instr { op: Op::Cmp, mode: Mode::Zp, cycles: 3, penalty: false },
        0xC6 => Instr { op: Op::Dec, mode: Mode::Zp, cycles: 5, penalty: false },
        0xC8 => Instr { op: Op::Iny, mode: Mode::Imp, cycles: 2, penalty: false },
        0xC9 => Instr { op: Op::Cmp, mode: Mode::Imm, cycles: 2, penalty: false },
        0xCA => Instr { op: Op::Dex, mode: Mode::Imp, cycles: 2, penalty: false },
        0xCC => Instr { op: Op::Cpy, mode: Mode::Abs, cycles: 4, penalty: false },
        0xCD => Instr { op: Op::Cmp, mode: Mode::Abs, cycles: 4, penalty: false },
        0xCE => Instr { op: Op::Dec, mode: Mode::Abs, cycles: 6, penalty: false },
        0xD0 => Instr { op: Op::Branch { mask: FLAG_ZERO, set: false }, mode: Mode::Rel, cycles: 2, penalty: false },
        0xD1 => Instr { op: Op::Cmp, mode: Mode::Izy, cycles: 5, penalty: true },
        0xD4 => Instr { op: Op::Nop, mode: Mode::Zpx, cycles: 4, penalty: false },
        0xD5 => Instr { op: Op::Cmp, mode: Mode::Zpx, cycles: 4, penalty: false },
        0xD6 => Instr { op: Op::Dec, mode: Mode::Zpx, cycles: 6, penalty: false },
        0xD8 => Instr { op: Op::Flag { mask: FLAG_DECIMAL, on: false }, mode: Mode::Imp, cycles: 2, penalty: false },
        0xD9 => Instr { op: Op::Cmp, mode: Mode::Aby, cycles: 4, penalty: true },
        0xDA => Instr { op: Op::Nop, mode: Mode::Imp, cycles: 2, penalty: false },
        0xDC => Instr { op: Op::Nop, mode: Mode::Abx, cycles: 4, penalty: true },
        0xDD => Instr { op: Op::Cmp, mode: Mode::Abx, cycles: 4, penalty: true },
        0xDE => Instr { op: Op::Dec, mode: Mode::Abx, cycles: 7, penalty: false },
        0xE0 => Instr { op: Op::Cpx, mode: Mode::Imm, cycles: 2, penalty: false },
        0xE1 => Instr { op: Op::Sbc, mode: Mode::Izx, cycles: 6, penalty: false },
        0xE2 => Instr { op: Op::Nop, mode: Mode::Imm, cycles: 2, penalty: false },
        0xE4 => Instr { op: Op::Cpx, mode: Mode::Zp, cycles: 3, penalty: false },
        0xE5 => Instr { op: Op::Sbc, mode: Mode::Zp, cycles: 3, penalty: false },
        0xE6 => Instr { op: Op::Inc, mode: Mode::Zp, cycles: 5, penalty: false },
        0xE8 => Instr { op: Op::Inx, mode: Mode::Imp, cycles: 2, penalty: false },
        0xE9 => Instr { op: Op::Sbc, mode: Mode::Imm, cycles: 2, penalty: false },
        0xEA => Instr { op: Op::Nop, mode: Mode::Imp, cycles: 2, penalty: false },
        0xEC => Instr { op: Op::Cpx, mode: Mode::Abs, cycles: 4, penalty: false },
        0xED => Instr { op: Op::Sbc, mode: Mode::Abs, cycles: 4, penalty: false },
        0xEE => Instr { op: Op::Inc, mode: Mode::Abs, cycles: 6, penalty: false },
        0xF0 => Instr { op: Op::Branch { mask: FLAG_ZERO, set: true }, mode: Mode::Rel, cycles: 2, penalty: false },
        0xF1 => Instr { op: Op::Sbc, mode: Mode::Izy, cycles: 5, penalty: true },
        0xF4 => Instr { op: Op::Nop, mode: Mode::Zpx, cycles: 4, penalty: false },
        0xF5 => Instr { op: Op::Sbc, mode: Mode::Zpx, cycles: 4, penalty: false },
        0xF6 => Instr { op: Op::Inc, mode: Mode::Zpx, cycles: 6, penalty: false },
        0xF8 => Instr { op: Op::Flag { mask: FLAG_DECIMAL, on: true }, mode: Mode::Imp, cycles: 2, penalty: false },
        0xF9 => Instr { op: Op::Sbc, mode: Mode::Aby, cycles: 4, penalty: true },
        0xFA => Instr { op: Op::Nop, mode: Mode::Imp, cycles: 2, penalty: false },
        0xFC => Instr { op: Op::Nop, mode: Mode::Abx, cycles: 4, penalty: true },
        0xFD => Instr { op: Op::Sbc, mode: Mode::Abx, cycles: 4, penalty: true },
        0xFE => Instr { op: Op::Inc, mode: Mode::Abx, cycles: 7, penalty: false },
        0x02 | 0x03 | 0x07 | 0x0B | 0x0F | 0x12 | 0x13 | 0x17 |
        0x1B | 0x1F | 0x22 | 0x23 | 0x27 | 0x2B | 0x2F | 0x32 |
        0x33 | 0x37 | 0x3B | 0x3F | 0x42 | 0x43 | 0x47 | 0x4B |
        0x4F | 0x52 | 0x53 | 0x57 | 0x5B | 0x5F | 0x62 | 0x63 |
        0x67 | 0x6B | 0x6F | 0x72 | 0x73 | 0x77 | 0x7B | 0x7F |
        0x83 | 0x87 | 0x8B | 0x8F | 0x92 | 0x93 | 0x97 | 0x9B |
        0x9C | 0x9E | 0x9F | 0xA3 | 0xA7 | 0xAB | 0xAF | 0xB2 |
        0xB3 | 0xB7 | 0xBB | 0xBF | 0xC3 | 0xC7 | 0xCB | 0xCF |
        0xD2 | 0xD3 | 0xD7 | 0xDB | 0xDF | 0xE3 | 0xE7 | 0xEB |
        0xEF | 0xF2 | 0xF3 | 0xF7 | 0xFB | 0xFF => Instr {
            op: Op::Nop,
            mode: Mode::Imp,
            cycles: 2,
            penalty: false,
        },
    }
}


// ---------------------------------------------------------------------------
// Addressing
// ---------------------------------------------------------------------------

/// True if `a` and `b` lie in different 256-byte pages.
pub fn page_crossed(a: u16, b: u16) -> (r: bool)
    ensures
        r == (a / 256 != b / 256),
{
    proof {
        crate::bits::lemma_word_masks();
    }
    (a & 0xFF00) != (b & 0xFF00)
}

/// Effective address `base + index`, and whether that crosses a page.
pub open spec fn indexed(base: u16, index: u8) -> (u16, bool) {
    let a = w16(base + index);
    (a, base / 256 != a / 256)
}

/// The effective address of an operand in `mode`, with the bus reads that
/// resolving it performs (operand bytes at pc, then any pointer bytes) and
/// whether indexing crossed a page. For `Rel` the address is the branch target.
pub open spec fn spec_resolve<B: Bus>(c: Cpu, b: B, mode: Mode) -> (Cpu, B, u16, bool) {
    match mode {
        Mode::Imp => (c, b, 0, false),
        Mode::Imm => (Cpu { pc: w16(c.pc + 1), ..c }, b, c.pc, false),
        Mode::Zp => spec_resolve_zp(c, b, 0),
        Mode::Zpx => spec_resolve_zp(c, b, c.x),
        Mode::Zpy => spec_resolve_zp(c, b, c.y),
        Mode::Abs => spec_resolve_abs(c, b),
        Mode::Abx => spec_resolve_abs_indexed(c, b, c.x),
        Mode::Aby => spec_resolve_abs_indexed(c, b, c.y),
        Mode::Ind => spec_resolve_ind(c, b),
        Mode::Izx => spec_resolve_izx(c, b),
        Mode::Izy => spec_resolve_izy(c, b),
        Mode::Rel => spec_resolve_rel(c, b),
    }
}

/// Zero page, indexed by `index` with wrap-around inside page 0.
pub open spec fn spec_resolve_zp<B: Bus>(c: Cpu, b: B, index: u8) -> (Cpu, B, u16, bool) {
    let (c1, b1, z) = spec_fetch(c, b);
    (c1, b1, w8(z + index) as u16, false)
}

/// Absolute: the 16-bit operand.
pub open spec fn spec_resolve_abs<B: Bus>(c: Cpu, b: B) -> (Cpu, B, u16, bool) {
    let (c1, b1, w) = spec_fetch_word(c, b);
    (c1, b1, w, false)
}

/// Absolute indexed: the 16-bit operand plus `index`.
pub open spec fn spec_resolve_abs_indexed<B: Bus>(c: Cpu, b: B, index: u8) -> (Cpu, B, u16, bool) {
    let (c1, b1, base) = spec_fetch_word(c, b);
    let (a, crossed) = indexed(base, index);
    (c1, b1, a, crossed)
}

/// Indirect (JMP only): the pointer at the 16-bit operand, with the page-wrap bug.
pub open spec fn spec_resolve_ind<B: Bus>(c: Cpu, b: B) -> (Cpu, B, u16, bool) {
    let (c1, b1, ptr) = spec_fetch_word(c, b);
    let (b2, a) = bus_read_word_bug(b1, ptr);
    (c1, b2, a, false)
}

/// `(zp,X)`: the pointer at zero-page `operand + X` (wrapping within page 0).
pub open spec fn spec_resolve_izx<B: Bus>(c: Cpu, b: B) -> (Cpu, B, u16, bool) {
    let (c1, b1, z) = spec_fetch(c, b);
    let zp = w8(z + c.x);
    let (b2, lo) = b1.read_spec(zp as u16);
    let (b3, hi) = b2.read_spec(w8(zp + 1) as u16);
    (c1, b3, (hi * 256 + lo) as u16, false)
}

/// `(zp),Y`: the pointer at zero-page `operand`, plus Y.
pub open spec fn spec_resolve_izy<B: Bus>(c: Cpu, b: B) -> (Cpu, B, u16, bool) {
    let (c1, b1, z) = spec_fetch(c, b);
    let (b2, lo) = b1.read_spec(z as u16);
    let (b3, hi) = b2.read_spec(w8(z + 1) as u16);
    let (a, crossed) = indexed((hi * 256 + lo) as u16, c.y);
    (c1, b3, a, crossed)
}

/// Relative: the following instruction's address plus the signed operand.
pub open spec fn spec_resolve_rel<B: Bus>(c: Cpu, b: B) -> (Cpu, B, u16, bool) {
    let (c1, b1, off) = spec_fetch(c, b);
    let a = w16(c1.pc + sx(off));
    (c1, b1, a, c1.pc / 256 != a / 256)
}

impl Cpu {
    fn index_addr(base: u16, index: u8) -> (r: (u16, bool))
        ensures
            r == indexed(base, index),
    {
        let a = base.wrapping_add(index as u16);
        (a, page_crossed(base, a))
    }

    #[verifier::rlimit(40)]
    #[verifier::spinoff_prover]
    fn resolve<B: Bus>(&mut self, bus: &mut B, mode: Mode) -> (r: (u16, bool))
        ensures
            old(bus).inv() ==> final(bus).inv(),
            ({
                let (c1, b1, a, crossed) = spec_resolve(*old(self), *old(bus), mode);
                *final(self) == c1 && *final(bus) == b1 && r == (a, crossed)
            }),
    {
        match mode {
            Mode::Imp => (0, false),
            Mode::Imm => {
                let a = self.pc;
                self.pc = self.pc.wrapping_add(1);
                (a, false)
            },
            Mode::Zp => self.resolve_zp(bus, 0),
            Mode::Zpx => {
                let x = self.x;
                self.resolve_zp(bus, x)
            },
            Mode::Zpy => {
                let y = self.y;
                self.resolve_zp(bus, y)
            },
            Mode::Abs => self.resolve_abs(bus),
            Mode::Abx => {
                let x = self.x;
                self.resolve_abs_indexed(bus, x)
            },
            Mode::Aby => {
                let y = self.y;
                self.resolve_abs_indexed(bus, y)
            },
            Mode::Ind => self.resolve_ind(bus),
            Mode::Izx => self.resolve_izx(bus),
            Mode::Izy => self.resolve_izy(bus),
            Mode::Rel => self.resolve_rel(bus),
        }
    }

    fn resolve_zp<B: Bus>(&mut self, bus: &mut B, index: u8) -> (r: (u16, bool))
        ensures
            old(bus).inv() ==> final(bus).inv(),
            ({
                let (c1, b1, a, crossed) = spec_resolve_zp(*old(self), *old(bus), index);
                *final(self) == c1 && *final(bus) == b1 && r == (a, crossed)
            }),
    {
        let z = self.fetch(bus);
        (z.wrapping_add(index) as u16, false)
    }

    fn resolve_abs<B: Bus>(&mut self, bus: &mut B) -> (r: (u16, bool))
        ensures
            old(bus).inv() ==> final(bus).inv(),
            ({
                let (c1, b1, a, crossed) = spec_resolve_abs(*old(self), *old(bus));
                *final(self) == c1 && *final(bus) == b1 && r == (a, crossed)
            }),
    {
        (self.fetch_word(bus), false)
    }

    fn resolve_abs_indexed<B: Bus>(&mut self, bus: &mut B, index: u8) -> (r: (u16, bool))
        ensures
            old(bus).inv() ==> final(bus).inv(),
            ({
                let (c1, b1, a, crossed) = spec_resolve_abs_indexed(*old(self), *old(bus), index);
                *final(self) == c1 && *final(bus) == b1 && r == (a, crossed)
            }),
    {
        let base = self.fetch_word(bus);
        Self::index_addr(base, index)
    }

    fn resolve_ind<B: Bus>(&mut self, bus: &mut B) -> (r: (u16, bool))
        ensures
            old(bus).inv() ==> final(bus).inv(),
            ({
                let (c1, b1, a, crossed) = spec_resolve_ind(*old(self), *old(bus));
                *final(self) == c1 && *final(bus) == b1 && r == (a, crossed)
            }),
    {
        let ptr = self.fetch_word(bus);
        (bus.read_word_bug(ptr), false)
    }

    fn resolve_izx<B: Bus>(&mut self, bus: &mut B) -> (r: (u16, bool))
        ensures
            old(bus).inv() ==> final(bus).inv(),
            ({
                let (c1, b1, a, crossed) = spec_resolve_izx(*old(self), *old(bus));
                *final(self) == c1 && *final(bus) == b1 && r == (a, crossed)
            }),
    {
        let zp = self.fetch(bus).wrapping_add(self.x);
        let lo = bus.read(zp as u16);
        let hi = bus.read(zp.wrapping_add(1) as u16);
        proof {
            crate::bus::lemma_combine_bytes(hi, lo);
        }
        ((((hi as u16) << 8) | (lo as u16)), false)
    }

    fn resolve_izy<B: Bus>(&mut self, bus: &mut B) -> (r: (u16, bool))
        ensures
            old(bus).inv() ==> final(bus).inv(),
            ({
                let (c1, b1, a, crossed) = spec_resolve_izy(*old(self), *old(bus));
                *final(self) == c1 && *final(bus) == b1 && r == (a, crossed)
            }),
    {
        let zp = self.fetch(bus);
        let lo = bus.read(zp as u16);
        let hi = bus.read(zp.wrapping_add(1) as u16);
        proof {
            crate::bus::lemma_combine_bytes(hi, lo);
        }
        let base = ((hi as u16) << 8) | (lo as u16);
        Self::index_addr(base, self.y)
    }

    fn resolve_rel<B: Bus>(&mut self, bus: &mut B) -> (r: (u16, bool))
        ensures
            old(bus).inv() ==> final(bus).inv(),
            ({
                let (c1, b1, a, crossed) = spec_resolve_rel(*old(self), *old(bus));
                *final(self) == c1 && *final(bus) == b1 && r == (a, crossed)
            }),
    {
        // The operand is a signed displacement from the following instruction.
        let off = self.fetch(bus);
        let pc = self.pc;
        let a = if off < 0x80 {
            pc.wrapping_add(off as u16)
        } else {
            pc.wrapping_sub(256 - off as u16)
        };
        (a, page_crossed(pc, a))
    }
}


// ---------------------------------------------------------------------------
// Execution
// ---------------------------------------------------------------------------

/// Read the operand byte at `addr`.
pub open spec fn rd<B: Bus>(b: B, addr: u16) -> (B, u8) {
    b.read_spec(addr)
}

/// Load `v` into A, X or Y (selected by `op`) and set Z and N.
pub open spec fn with_loaded(c: Cpu, op: Op, v: u8) -> Cpu {
    match op {
        Op::Ldx => Cpu { x: v, status: zn(c.status, v), ..c },
        Op::Ldy => Cpu { y: v, status: zn(c.status, v), ..c },
        _ => Cpu { a: v, status: zn(c.status, v), ..c },
    }
}

/// Shift or rotate `v` by the operation `op`.
pub open spec fn spec_shift(c: Cpu, op: Op, v: u8) -> (Cpu, u8) {
    match op {
        Op::Asl => spec_asl(c, v),
        Op::Lsr => spec_lsr(c, v),
        Op::Rol => spec_rol(c, v),
        _ => spec_ror(c, v),
    }
}

/// Loads and stores.
pub open spec fn spec_load_store<B: Bus>(c: Cpu, b: B, op: Op, addr: u16) -> (Cpu, B) {
    match op {
        Op::Sta => (c, b.write_spec(addr, c.a)),
        Op::Stx => (c, b.write_spec(addr, c.x)),
        Op::Sty => (c, b.write_spec(addr, c.y)),
        _ => {
            let (b1, v) = rd(b, addr);
            (with_loaded(c, op, v), b1)
        },
    }
}

/// Register transfers, increments and decrements, flag instructions and NOP.
pub open spec fn spec_register(c: Cpu, op: Op) -> Cpu {
    match op {
        Op::Tax => Cpu { x: c.a, status: zn(c.status, c.a), ..c },
        Op::Tay => Cpu { y: c.a, status: zn(c.status, c.a), ..c },
        Op::Txa => Cpu { a: c.x, status: zn(c.status, c.x), ..c },
        Op::Tya => Cpu { a: c.y, status: zn(c.status, c.y), ..c },
        Op::Tsx => Cpu { x: c.sp, status: zn(c.status, c.sp), ..c },
        Op::Txs => Cpu { sp: c.x, ..c },
        Op::Inx => Cpu { x: w8(c.x + 1), status: zn(c.status, w8(c.x + 1)), ..c },
        Op::Dex => Cpu { x: w8(c.x - 1), status: zn(c.status, w8(c.x - 1)), ..c },
        Op::Iny => Cpu { y: w8(c.y + 1), status: zn(c.status, w8(c.y + 1)), ..c },
        Op::Dey => Cpu { y: w8(c.y - 1), status: zn(c.status, w8(c.y - 1)), ..c },
        Op::Flag { mask, on } => Cpu { status: set_bit(c.status, mask, on), ..c },
        _ => c,
    }
}

/// Stack instructions: PHA PLA PHP (B and bit 5 set) PLP (B ignored, bit 5 set).
pub open spec fn spec_stack<B: Bus>(c: Cpu, b: B, op: Op) -> (Cpu, B) {
    match op {
        Op::Pha => spec_push(c, b, c.a),
        Op::Pla => {
            let (c1, b1, v) = spec_pop(c, b);
            (Cpu { a: v, status: zn(c1.status, v), ..c1 }, b1)
        },
        Op::Php => spec_push(c, b, c.status | FLAG_BREAK | FLAG_UNUSED),
        _ => {
            let (c1, b1, v) = spec_pop(c, b);
            (Cpu { status: (v & !FLAG_BREAK) | FLAG_UNUSED, ..c1 }, b1)
        },
    }
}

/// Logic, arithmetic, BIT and compares on the byte at `addr`.
pub open spec fn spec_alu<B: Bus>(c: Cpu, b: B, op: Op, addr: u16) -> (Cpu, B) {
    let (b1, v) = rd(b, addr);
    let c1 = match op {
        Op::And => Cpu { a: c.a & v, status: zn(c.status, c.a & v), ..c },
        Op::Ora => Cpu { a: c.a | v, status: zn(c.status, c.a | v), ..c },
        Op::Eor => Cpu { a: c.a ^ v, status: zn(c.status, c.a ^ v), ..c },
        Op::Bit => spec_bit(c, v),
        Op::Adc => spec_adc(c, v),
        Op::Sbc => spec_sbc(c, v),
        Op::Cmp => spec_compare(c, c.a, v),
        Op::Cpx => spec_compare(c, c.x, v),
        _ => spec_compare(c, c.y, v),
    };
    (c1, b1)
}

/// Read-modify-write: INC and DEC on memory; shifts and rotates on memory, or
/// on A when the mode is `Imp`.
pub open spec fn spec_rmw<B: Bus>(c: Cpu, b: B, op: Op, mode: Mode, addr: u16) -> (Cpu, B) {
    match op {
        Op::Inc => {
            let (b1, v) = rd(b, addr);
            let r = w8(v + 1);
            (Cpu { status: zn(c.status, r), ..c }, b1.write_spec(addr, r))
        },
        Op::Dec => {
            let (b1, v) = rd(b, addr);
            let r = w8(v - 1);
            (Cpu { status: zn(c.status, r), ..c }, b1.write_spec(addr, r))
        },
        _ => {
            if mode is Imp {
                let (c1, r) = spec_shift(c, op, c.a);
                (Cpu { a: r, ..c1 }, b)
            } else {
                let (b1, v) = rd(b, addr);
                let (c1, r) = spec_shift(c, op, v);
                (c1, b1.write_spec(addr, r))
            }
        },
    }
}

/// Jumps, subroutine calls and returns, BRK, and conditional branches.
pub open spec fn spec_control<B: Bus>(c: Cpu, b: B, op: Op, addr: u16, crossed: bool) -> (Cpu, B) {
    match op {
        Op::Jmp => (Cpu { pc: addr, ..c }, b),
        Op::Jsr => {
            // Push (return address - 1), then jump.
            let (c1, b1) = spec_push_word(c, b, w16(c.pc - 1));
            (Cpu { pc: addr, ..c1 }, b1)
        },
        Op::Rts => {
            let (c1, b1, v) = spec_pop_word(c, b);
            (Cpu { pc: w16(v + 1), ..c1 }, b1)
        },
        Op::Rti => {
            let (c1, b1, p) = spec_pop(c, b);
            let c2 = Cpu { status: (p & !FLAG_BREAK) | FLAG_UNUSED, ..c1 };
            let (c3, b2, pc) = spec_pop_word(c2, b1);
            (Cpu { pc: pc, ..c3 }, b2)
        },
        Op::Brk => {
            // Skip the padding byte, push pc and status with B set, vector through IRQ.
            let (c1, b1) = spec_push_word(c, b, w16(c.pc + 1));
            let (c2, b2) = spec_push(c1, b1, c.status | FLAG_BREAK | FLAG_UNUSED);
            let (b3, pc) = bus_read_word(b2, VEC_IRQ);
            (Cpu { pc: pc, status: set_bit(c2.status, FLAG_IRQ_DISABLE, true), ..c2 }, b3)
        },
        Op::Branch { mask, set } => {
            if has_bit(c.status, mask) == set {
                // Taken: one more cycle, and another if the target is on another page.
                (Cpu { pc: addr, cycles: (c.cycles + 1 + (if crossed { 1int } else { 0 })) as u64, ..c }, b)
            } else {
                (c, b)
            }
        },
        _ => (c, b),
    }
}

/// The effect of operation `i.op` once the operand address `addr` has been
/// resolved (`crossed` says whether a branch target lies on another page).
pub open spec fn spec_op<B: Bus>(c: Cpu, b: B, i: Instr, addr: u16, crossed: bool) -> (Cpu, B) {
    match i.op {
        Op::Lda | Op::Ldx | Op::Ldy | Op::Sta | Op::Stx | Op::Sty => spec_load_store(c, b, i.op, addr),
        Op::Tax | Op::Tay | Op::Txa | Op::Tya | Op::Tsx | Op::Txs | Op::Inx | Op::Dex
        | Op::Iny | Op::Dey | Op::Flag { .. } | Op::Nop => (spec_register(c, i.op), b),
        Op::Pha | Op::Pla | Op::Php | Op::Plp => spec_stack(c, b, i.op),
        Op::And | Op::Ora | Op::Eor | Op::Bit | Op::Adc | Op::Sbc | Op::Cmp | Op::Cpx
        | Op::Cpy => spec_alu(c, b, i.op, addr),
        Op::Inc | Op::Dec | Op::Asl | Op::Lsr | Op::Rol | Op::Ror => spec_rmw(c, b, i.op, i.mode, addr),
        _ => spec_control(c, b, i.op, addr, crossed),
    }
}

/// Resolve the operand, charge the base cycles (plus one for a page crossing
/// where the instruction has that penalty), then perform the operation.
pub open spec fn spec_execute<B: Bus>(c: Cpu, b: B, i: Instr) -> (Cpu, B) {
    let (c1, b1, addr, crossed) = spec_resolve(c, b, i.mode);
    let extra: int = if i.penalty && crossed {
        1
    } else {
        0
    };
    spec_op(Cpu { cycles: (c1.cycles + i.cycles + extra) as u64, ..c1 }, b1, i, addr, crossed)
}

/// Fetch, decode and execute the instruction at pc.
pub open spec fn spec_run_one<B: Bus>(c: Cpu, b: B) -> (Cpu, B) {
    let (c2, b2, opcode) = spec_fetch(c, b);
    spec_execute(c2, b2, spec_decode(opcode))
}

/// One CPU step: first service a pending NMI (on its rising edge) or an
/// enabled IRQ, then fetch, decode and execute one instruction (after an
/// interrupt, the first instruction of its handler).
#[verifier::opaque]
pub open spec fn spec_step<B: Bus>(c: Cpu, b: B) -> (Cpu, B) {
    let nmi_edge = c.nmi_pending && !c.prev_nmi;
    let c1 = Cpu { prev_nmi: c.nmi_pending, ..c };
    if nmi_edge {
        let (ci, bi) = spec_interrupt(Cpu { nmi_pending: false, ..c1 }, b, VEC_NMI);
        spec_run_one(ci, bi)
    } else if c1.irq_pending && !has_bit(c1.status, FLAG_IRQ_DISABLE) {
        let (ci, bi) = spec_interrupt(Cpu { irq_pending: false, ..c1 }, b, VEC_IRQ);
        spec_run_one(ci, bi)
    } else {
        spec_run_one(c1, b)
    }
}

impl Cpu {
    fn exec_load_store<B: Bus>(&mut self, bus: &mut B, i: Instr, addr: u16)
        requires
            i.op is Lda || i.op is Ldx || i.op is Ldy || i.op is Sta || i.op is Stx || i.op is Sty,
        ensures
            old(bus).inv() ==> final(bus).inv(),
            (*final(self), *final(bus)) == spec_load_store(*old(self), *old(bus), i.op, addr),
    {
        match i.op {
            Op::Lda => {
                let v = bus.read(addr);
                self.a = v;
                self.set_zn(v);
            },
            Op::Ldx => {
                let v = bus.read(addr);
                self.x = v;
                self.set_zn(v);
            },
            Op::Ldy => {
                let v = bus.read(addr);
                self.y = v;
                self.set_zn(v);
            },
            Op::Sta => bus.write(addr, self.a),
            Op::Stx => bus.write(addr, self.x),
            _ => bus.write(addr, self.y),
        }
    }

    fn exec_register(&mut self, i: Instr)
        requires
            i.op is Tax || i.op is Tay || i.op is Txa || i.op is Tya || i.op is Tsx || i.op is Txs
                || i.op is Inx || i.op is Dex || i.op is Iny || i.op is Dey || i.op is Flag
                || i.op is Nop,
        ensures
            *final(self) == spec_register(*old(self), i.op),
    {
        match i.op {
            Op::Tax => {
                self.x = self.a;
                self.set_zn(self.x);
            },
            Op::Tay => {
                self.y = self.a;
                self.set_zn(self.y);
            },
            Op::Txa => {
                self.a = self.x;
                self.set_zn(self.a);
            },
            Op::Tya => {
                self.a = self.y;
                self.set_zn(self.a);
            },
            Op::Tsx => {
                self.x = self.sp;
                self.set_zn(self.x);
            },
            Op::Txs => {
                self.sp = self.x;
            },
            Op::Inx => {
                self.x = self.x.wrapping_add(1);
                self.set_zn(self.x);
            },
            Op::Dex => {
                self.x = self.x.wrapping_sub(1);
                self.set_zn(self.x);
            },
            Op::Iny => {
                self.y = self.y.wrapping_add(1);
                self.set_zn(self.y);
            },
            Op::Dey => {
                self.y = self.y.wrapping_sub(1);
                self.set_zn(self.y);
            },
            Op::Flag { mask, on } => self.set_flag(mask, on),
            _ => {},
        }
    }

    fn exec_stack<B: Bus>(&mut self, bus: &mut B, i: Instr)
        requires
            i.op is Pha || i.op is Pla || i.op is Php || i.op is Plp,
        ensures
            old(bus).inv() ==> final(bus).inv(),
            (*final(self), *final(bus)) == spec_stack(*old(self), *old(bus), i.op),
    {
        match i.op {
            Op::Pha => {
                let a = self.a;
                self.push(bus, a);
            },
            Op::Pla => {
                let v = self.pop(bus);
                self.a = v;
                self.set_zn(v);
            },
            Op::Php => {
                let p = self.status | FLAG_BREAK | FLAG_UNUSED;
                self.push(bus, p);
            },
            _ => {
                let v = self.pop(bus);
                self.status = (v & !FLAG_BREAK) | FLAG_UNUSED;
            },
        }
    }

    fn exec_alu<B: Bus>(&mut self, bus: &mut B, i: Instr, addr: u16)
        requires
            i.op is And || i.op is Ora || i.op is Eor || i.op is Bit || i.op is Adc || i.op is Sbc
                || i.op is Cmp || i.op is Cpx || i.op is Cpy,
        ensures
            old(bus).inv() ==> final(bus).inv(),
            (*final(self), *final(bus)) == spec_alu(*old(self), *old(bus), i.op, addr),
    {
        let v = bus.read(addr);
        match i.op {
            Op::And => {
                self.a = self.a & v;
                self.set_zn(self.a);
            },
            Op::Ora => {
                self.a = self.a | v;
                self.set_zn(self.a);
            },
            Op::Eor => {
                self.a = self.a ^ v;
                self.set_zn(self.a);
            },
            Op::Bit => self.bit(v),
            Op::Adc => self.adc(v),
            Op::Sbc => self.sbc(v),
            Op::Cmp => {
                let a = self.a;
                self.compare_reg(a, v);
            },
            Op::Cpx => {
                let x = self.x;
                self.compare_reg(x, v);
            },
            _ => {
                let y = self.y;
                self.compare_reg(y, v);
            },
        }
    }

    fn shift(&mut self, op: Op, v: u8) -> (r: u8)
        requires
            op is Asl || op is Lsr || op is Rol || op is Ror,
        ensures
            (*final(self), r) == spec_shift(*old(self), op, v),
    {
        match op {
            Op::Asl => self.asl(v),
            Op::Lsr => self.lsr(v),
            Op::Rol => self.rol(v),
            _ => self.ror(v),
        }
    }

    fn exec_rmw<B: Bus>(&mut self, bus: &mut B, i: Instr, addr: u16)
        requires
            i.op is Inc || i.op is Dec || i.op is Asl || i.op is Lsr || i.op is Rol || i.op is Ror,
        ensures
            old(bus).inv() ==> final(bus).inv(),
            (*final(self), *final(bus)) == spec_rmw(*old(self), *old(bus), i.op, i.mode, addr),
    {
        match i.op {
            Op::Inc => {
                let v = bus.read(addr).wrapping_add(1);
                bus.write(addr, v);
                self.set_zn(v);
            },
            Op::Dec => {
                let v = bus.read(addr).wrapping_sub(1);
                bus.write(addr, v);
                self.set_zn(v);
            },
            _ => {
                if let Mode::Imp = i.mode {
                    let a = self.a;
                    let r = self.shift(i.op, a);
                    self.a = r;
                } else {
                    let v = bus.read(addr);
                    let r = self.shift(i.op, v);
                    bus.write(addr, r);
                }
            },
        }
    }

    fn exec_control<B: Bus>(&mut self, bus: &mut B, i: Instr, addr: u16, crossed: bool)
        requires
            i.op is Jmp || i.op is Jsr || i.op is Rts || i.op is Rti || i.op is Brk || i.op is Branch,
            i.op is Branch ==> old(self).cycles + 2 <= u64::MAX,
        ensures
            old(bus).inv() ==> final(bus).inv(),
            (*final(self), *final(bus)) == spec_control(*old(self), *old(bus), i.op, addr, crossed),
    {
        match i.op {
            Op::Jmp => {
                self.pc = addr;
            },
            Op::Jsr => {
                let ret = self.pc.wrapping_sub(1);
                self.push_word(bus, ret);
                self.pc = addr;
            },
            Op::Rts => {
                let v = self.pop_word(bus);
                self.pc = v.wrapping_add(1);
            },
            Op::Rti => {
                let p = self.pop(bus);
                self.status = (p & !FLAG_BREAK) | FLAG_UNUSED;
                self.pc = self.pop_word(bus);
            },
            Op::Brk => {
                let ret = self.pc.wrapping_add(1);
                self.push_word(bus, ret);
                let p = self.status | FLAG_BREAK | FLAG_UNUSED;
                self.push(bus, p);
                self.set_flag(FLAG_IRQ_DISABLE, true);
                self.pc = bus.read_word(VEC_IRQ);
            },
            Op::Branch { mask, set } => {
                let take = self.get_flag(mask) == set;
                self.branch(take, addr, crossed);
            },
            _ => {},
        }
    }

    fn branch(&mut self, take: bool, target: u16, page_crossed: bool)
        requires
            old(self).cycles + 2 <= u64::MAX,
        ensures
            *final(self) == if take {
                Cpu {
                    pc: target,
                    cycles: (old(self).cycles + 1 + (if page_crossed { 1int } else { 0 })) as u64,
                    ..*old(self)
                }
            } else {
                *old(self)
            },
    {
        if take {
            self.cycles = self.cycles + 1;  // taken branch
            if page_crossed {
                self.cycles = self.cycles + 1;
            }
            self.pc = target;
        }
    }

    /// Perform a decoded instruction whose operand has been resolved.
    #[verifier::spinoff_prover]
    fn operate<B: Bus>(&mut self, bus: &mut B, i: Instr, addr: u16, crossed: bool)
        requires
            i.op is Branch ==> old(self).cycles + 2 <= u64::MAX,
        ensures
            old(bus).inv() ==> final(bus).inv(),
            (*final(self), *final(bus)) == spec_op(*old(self), *old(bus), i, addr, crossed),
            old(self).cycles <= final(self).cycles,
            final(self).cycles <= old(self).cycles + 2,
    {
        match i.op {
            Op::Lda | Op::Ldx | Op::Ldy | Op::Sta | Op::Stx | Op::Sty => {
                self.exec_load_store(bus, i, addr)
            },
            Op::Tax | Op::Tay | Op::Txa | Op::Tya | Op::Tsx | Op::Txs | Op::Inx | Op::Dex
            | Op::Iny | Op::Dey | Op::Flag { .. } | Op::Nop => self.exec_register(i),
            Op::Pha | Op::Pla | Op::Php | Op::Plp => self.exec_stack(bus, i),
            Op::And | Op::Ora | Op::Eor | Op::Bit | Op::Adc | Op::Sbc | Op::Cmp | Op::Cpx
            | Op::Cpy => self.exec_alu(bus, i, addr),
            Op::Inc | Op::Dec | Op::Asl | Op::Lsr | Op::Rol | Op::Ror => self.exec_rmw(bus, i, addr),
            _ => self.exec_control(bus, i, addr, crossed),
        }
    }
}


impl Cpu {
    /// Decode and execute `opcode` (already fetched; pc points past it).
    #[verifier::spinoff_prover]
    fn execute<B: Bus>(&mut self, bus: &mut B, opcode: u8)
        requires
            old(self).cycles + 7 <= u64::MAX,
        ensures
            old(bus).inv() ==> final(bus).inv(),
            (*final(self), *final(bus)) == spec_execute(*old(self), *old(bus), spec_decode(opcode)),
            old(self).cycles + 2 <= final(self).cycles,
            final(self).cycles <= old(self).cycles + 7,
    {
        let i = decode(opcode);
        let (addr, crossed) = self.resolve(bus, i.mode);
        let extra: u64 = if i.penalty && crossed {
            1
        } else {
            0
        };
        self.cycles = self.cycles + i.cycles as u64 + extra;
        self.operate(bus, i, addr, crossed);
    }

    /// Execute one instruction (after first servicing any pending interrupt).
    /// Returns the number of cycles the step consumed.
    #[verifier::spinoff_prover]
    pub fn step<B: Bus>(&mut self, bus: &mut B) -> (n: u64)
        requires
            old(self).cycles + 14 <= u64::MAX,
        ensures
            old(bus).inv() ==> final(bus).inv(),
            (*final(self), *final(bus)) == spec_step(*old(self), *old(bus)),
            n == final(self).cycles - old(self).cycles,
            2 <= n <= 14,
    {
        proof {
            reveal(spec_step);
        }
        let start = self.cycles;
        // NMI edge detection.
        let nmi_edge = self.nmi_pending && !self.prev_nmi;
        self.prev_nmi = self.nmi_pending;
        if nmi_edge {
            self.nmi_pending = false;
            self.service_interrupt(bus, VEC_NMI);
        } else if self.irq_pending && !self.get_flag(FLAG_IRQ_DISABLE) {
            self.irq_pending = false;
            self.service_interrupt(bus, VEC_IRQ);
        }
        let opcode = self.fetch(bus);
        self.execute(bus, opcode);
        self.cycles - start
    }
}


// ---------------------------------------------------------------------------
// Laws
// ---------------------------------------------------------------------------

/// The decimal value of a BCD byte.
pub open spec fn bcd_value(b: u8) -> int {
    (b / 16) * 10 + b % 16
}

/// Both digits of `b` are decimal digits.
pub open spec fn is_bcd(b: u8) -> bool {
    b / 16 <= 9 && b % 16 <= 9
}

/// The BCD byte of `n` (0-99).
pub open spec fn to_bcd(n: int) -> u8 {
    ((n / 10) * 16 + n % 10) as u8
}

/// A step that takes no NMI: the line level is recorded, then a pending IRQ
/// is entered if interrupts are enabled, then one instruction runs.
pub open spec fn step_without_nmi<B: Bus>(c: Cpu, b: B) -> (Cpu, B) {
    let c1 = Cpu { prev_nmi: c.nmi_pending, ..c };
    if c1.irq_pending && !has_bit(c1.status, FLAG_IRQ_DISABLE) {
        let (ci, bi) = spec_interrupt(Cpu { irq_pending: false, ..c1 }, b, VEC_IRQ);
        spec_run_one(ci, bi)
    } else {
        spec_run_one(c1, b)
    }
}

/// Executing an instruction leaves the interrupt lines and the recorded NMI
/// level alone.
#[verifier::spinoff_prover]
proof fn lemma_execute_keeps_lines<B: Bus>(c: Cpu, b: B, i: Instr)
    ensures
        spec_execute(c, b, i).0.prev_nmi == c.prev_nmi,
        spec_execute(c, b, i).0.nmi_pending == c.nmi_pending,
        spec_execute(c, b, i).0.irq_pending == c.irq_pending,
{
}

/// Pulling right after a push gives back the pushed byte and the stack
/// pointer as it was (flat RAM).
pub proof fn law_push_pop_flat(c: Cpu, b: FlatRam, v: u8)
    ensures
        ({
            let (c1, b1) = spec_push(c, b, v);
            let (c2, b2, r) = spec_pop(c1, b1);
            r == v && c2 == c && b2 == b1
        }),
{
    let (c1, b1) = spec_push(c, b, v);
    crate::bus::law_flat_read_after_write(b, (0x0100 + c.sp) as u16, v, (0x0100 + c.sp) as u16);
    assert(w8(w8(c.sp - 1) + 1) == c.sp);
}

/// Pulling right after a push gives back the pushed byte and the stack
/// pointer as it was (the C64 bus: page 1 is always RAM).
pub proof fn law_push_pop_c64(c: Cpu, b: crate::bus::C64Bus, v: u8)
    ensures
        ({
            let (c1, b1) = spec_push(c, b, v);
            let (c2, b2, r) = spec_pop(c1, b1);
            r == v && c2 == c && b2 == b1
        }),
{
    vstd::array::axiom_spec_array_update(*b.ram, (0x0100 + c.sp) as int, v);
    assert(w8(w8(c.sp - 1) + 1) == c.sp);
}

/// The decimal value `n` (0-99) as two digits.
proof fn lemma_decimal_digits(n: int, h: int, l: int)
    requires
        n == h * 10 + l,
        0 <= l < 10,
    ensures
        n / 10 == h,
        n % 10 == l,
{
    vstd::arithmetic::div_mod::lemma_fundamental_div_mod_converse(n, 10, h, l);
}

proof fn lemma_bcd_add_digits(ah: int, al: int, vh: int, vl: int, cin: int)
    requires
        0 <= ah <= 9,
        0 <= al <= 9,
        0 <= vh <= 9,
        0 <= vl <= 9,
        0 <= cin <= 1,
    ensures
        ({
            let lo0 = al + vl + cin;
            let lo = if lo0 > 9 { lo0 + 6 } else { lo0 };
            let hi0 = ah + vh + (if lo0 > 9 { 1int } else { 0 });
            let hi = if hi0 > 9 { hi0 + 6 } else { hi0 };
            let sum = (ah * 10 + al) + (vh * 10 + vl) + cin;
            &&& (hi * 16 + lo % 16) % 256 == ((sum % 100) / 10) * 16 + (sum % 100) % 10
            &&& (hi > 15 <==> sum >= 100)
        }),
{
    let lo0 = al + vl + cin;
    let lo = if lo0 > 9 { lo0 + 6 } else { lo0 };
    let hi0 = ah + vh + (if lo0 > 9 { 1int } else { 0 });
    let hi = if hi0 > 9 { hi0 + 6 } else { hi0 };
    let sum = (ah * 10 + al) + (vh * 10 + vl) + cin;
    let d = if lo0 > 9 { lo0 - 10 } else { lo0 };
    assert(lo % 16 == d) by {
        vstd::arithmetic::div_mod::lemma_fundamental_div_mod_converse(lo, 16, if lo0 > 9 { 1int } else { 0 }, d);
    }
    assert(sum == hi0 * 10 + d);
    let h = if hi0 > 9 { hi0 - 10 } else { hi0 };
    assert(sum % 100 == h * 10 + d) by {
        vstd::arithmetic::div_mod::lemma_fundamental_div_mod_converse(sum, 100, if hi0 > 9 { 1int } else { 0 }, h * 10 + d);
    }
    lemma_decimal_digits(sum % 100, h, d);
    assert((hi * 16 + d) % 256 == h * 16 + d) by {
        vstd::arithmetic::div_mod::lemma_fundamental_div_mod_converse(hi * 16 + d, 256, if hi0 > 9 { 1int } else { 0 }, h * 16 + d);
    }
}

/// BIT tests memory against the accumulator: N takes bit 7 of the operand, V
/// its bit 6, Z is set exactly when A AND the operand is zero, and the
/// registers and every other flag are left as they were.
pub proof fn law_bit_flags(c: Cpu, v: u8)
    ensures
        ({
            let r = spec_bit(c, v);
            &&& (r.status & 0x80 != 0) == (v & 0x80 != 0)
            &&& (r.status & 0x40 != 0) == (v & 0x40 != 0)
            &&& (r.status & 0x02 != 0) == (c.a & v == 0)
            &&& r.status & 0x3D == c.status & 0x3D
            &&& r == Cpu { status: r.status, ..c }
        }),
{
    let s = c.status;
    let a = c.a;
    let s1 = set_bit(s, FLAG_ZERO, a & v == 0);
    let s2 = set_bit(s1, FLAG_OVERFLOW, v & 0x40 != 0);
    let s3 = set_bit(s2, FLAG_NEGATIVE, v >= 0x80);
    assert({
        let t1 = if a & v == 0 { s | 0x02u8 } else { s & !0x02u8 };
        let t2 = if v & 0x40 != 0 { t1 | 0x40u8 } else { t1 & !0x40u8 };
        let t3 = if v >= 0x80 { t2 | 0x80u8 } else { t2 & !0x80u8 };
        &&& (t3 & 0x80 != 0) == (v & 0x80 != 0)
        &&& (t3 & 0x40 != 0) == (v & 0x40 != 0)
        &&& (t3 & 0x02 != 0) == (a & v == 0)
        &&& t3 & 0x3D == s & 0x3D
    }) by (bit_vector);
}

/// Decimal-mode ADC of two valid BCD bytes adds them as decimal numbers: the
/// accumulator holds the two low decimal digits of the sum, C the hundreds.
pub proof fn law_decimal_adc(c: Cpu, v: u8)
    requires
        has_bit(c.status, FLAG_DECIMAL),
        is_bcd(c.a),
        is_bcd(v),
    ensures
        ({
            let sum = bcd_value(c.a) + bcd_value(v) + carry_in(c.status);
            let r = spec_adc(c, v);
            r.a == to_bcd(sum % 100) && has_bit(r.status, FLAG_CARRY) == (sum >= 100)
        }),
{
    let cin = carry_in(c.status);
    lemma_bcd_add_digits((c.a / 16) as int, (c.a % 16) as int, (v / 16) as int, (v % 16) as int, cin);
    let lo0 = c.a % 16 + v % 16 + cin;
    let hi0 = c.a / 16 + v / 16 + (if lo0 > 9 { 1int } else { 0 });
    let hi = if hi0 > 9 { hi0 + 6 } else { hi0 };
    let n = hi0 % 16 >= 8;
    let s1 = set_bit(c.status, FLAG_ZERO, (c.a + v + cin) % 256 == 0);
    let s2 = set_bit(s1, FLAG_NEGATIVE, n);
    let s3 = set_bit(s2, FLAG_OVERFLOW, (c.a >= 0x80) == (v >= 0x80) && (c.a >= 0x80) != n);
    let on = hi > 15;
    assert(has_bit(set_bit(s3, FLAG_CARRY, on), FLAG_CARRY) <==> on) by (bit_vector);
}

proof fn lemma_bcd_sub_digits(ah: int, al: int, vh: int, vl: int, cin: int)
    requires
        0 <= ah <= 9,
        0 <= al <= 9,
        0 <= vh <= 9,
        0 <= vl <= 9,
        0 <= cin <= 1,
    ensures
        ({
            let lo0 = al - vl + cin - 1;
            let hi0 = ah - vh;
            let lo = if lo0 < 0 { lo0 + 10 } else { lo0 };
            let hi1 = if lo0 < 0 { hi0 - 1 } else { hi0 };
            let hi = if hi1 < 0 { hi1 + 10 } else { hi1 };
            let diff = (ah * 10 + al) - (vh * 10 + vl) - (1 - cin);
            &&& (hi * 16 + lo % 16) % 256 == (((diff + 100) % 100) / 10) * 16 + ((diff + 100) % 100) % 10
            &&& (hi1 >= 0 <==> diff >= 0)
        }),
{
    let lo0 = al - vl + cin - 1;
    let hi0 = ah - vh;
    let lo = if lo0 < 0 { lo0 + 10 } else { lo0 };
    let hi1 = if lo0 < 0 { hi0 - 1 } else { hi0 };
    let hi = if hi1 < 0 { hi1 + 10 } else { hi1 };
    let diff = (ah * 10 + al) - (vh * 10 + vl) - (1 - cin);
    assert(lo % 16 == lo) by {
        vstd::arithmetic::div_mod::lemma_fundamental_div_mod_converse(lo, 16, 0, lo);
    }
    assert(diff == hi1 * 10 + lo);
    assert((diff + 100) % 100 == hi * 10 + lo) by {
        vstd::arithmetic::div_mod::lemma_fundamental_div_mod_converse(diff + 100, 100, if hi1 < 0 { 0int } else { 1 }, hi * 10 + lo);
    }
    lemma_decimal_digits((diff + 100) % 100, hi, lo);
    assert((hi * 16 + lo) % 256 == hi * 16 + lo) by {
        vstd::arithmetic::div_mod::lemma_fundamental_div_mod_converse(hi * 16 + lo, 256, 0, hi * 16 + lo);
    }
}

/// Decimal-mode SBC of two valid BCD bytes subtracts them as decimal numbers
/// (with borrow = not C): the accumulator holds the difference modulo 100, C
/// is set when no borrow out occurred.
pub proof fn law_decimal_sbc(c: Cpu, v: u8)
    requires
        has_bit(c.status, FLAG_DECIMAL),
        is_bcd(c.a),
        is_bcd(v),
    ensures
        ({
            let diff = bcd_value(c.a) - bcd_value(v) - (1 - carry_in(c.status));
            let r = spec_sbc(c, v);
            r.a == to_bcd((diff + 100) % 100) && has_bit(r.status, FLAG_CARRY) == (diff >= 0)
        }),
{
    let cin = carry_in(c.status);
    lemma_bcd_sub_digits((c.a / 16) as int, (c.a % 16) as int, (v / 16) as int, (v % 16) as int, cin);
    // The binary borrow agrees with the decimal one on BCD operands.
    let bin = c.a - v - (1 - cin);
    assert(c.a == (c.a / 16) * 16 + c.a % 16);
    assert(v == (v / 16) * 16 + v % 16);
    assert((bin >= 0) == (bcd_value(c.a) - bcd_value(v) - (1 - cin) >= 0));
    let on = bin >= 0;
    let s = c.status;
    assert(has_bit(set_bit(s, FLAG_CARRY, on), FLAG_CARRY) <==> on) by (bit_vector);
    let s1 = set_bit(s, FLAG_CARRY, on);
    let rb = w8(bin);
    assert(has_bit(zn(s1, rb), FLAG_CARRY) == has_bit(s1, FLAG_CARRY)) by (bit_vector);
    let s2 = zn(s1, rb);
    let ov = (sx(c.a) - sx(v) - (1 - cin) < -128 || sx(c.a) - sx(v) - (1 - cin) > 127);
    assert(has_bit(set_bit(s2, FLAG_OVERFLOW, ov), FLAG_CARRY) == has_bit(s2, FLAG_CARRY)) by (bit_vector);
}

/// An NMI is taken on the rising edge of its line: the return address and
/// status are pushed, I is set, and the first instruction at the NMI vector
/// runs in the same step. Held high, the line is serviced only once: the next
/// step takes no NMI.
pub proof fn law_nmi_serviced_once<B: Bus>(c: Cpu, b: B)
    requires
        c.nmi_pending,
        !c.prev_nmi,
    ensures
        ({
            let (ci, bi) = spec_interrupt(Cpu { nmi_pending: false, prev_nmi: true, ..c }, b, VEC_NMI);
            let (c1, b1) = spec_step(c, b);
            &&& has_bit(ci.status, FLAG_IRQ_DISABLE)
            &&& ci.pc == bus_read_word(
                spec_push(
                    spec_push_word(Cpu { nmi_pending: false, prev_nmi: true, ..c }, b, c.pc).0,
                    spec_push_word(Cpu { nmi_pending: false, prev_nmi: true, ..c }, b, c.pc).1,
                    (c.status & !FLAG_BREAK) | FLAG_UNUSED,
                ).1,
                VEC_NMI,
            ).1
            &&& (c1, b1) == spec_run_one(ci, bi)
            &&& c1.prev_nmi
            &&& spec_step(Cpu { nmi_pending: true, ..c1 }, b1) == step_without_nmi(Cpu { nmi_pending: true, ..c1 }, b1)
        }),
{
    reveal(spec_step);
    let ci = spec_interrupt(Cpu { nmi_pending: false, prev_nmi: true, ..c }, b, VEC_NMI).0;
    let bi = spec_interrupt(Cpu { nmi_pending: false, prev_nmi: true, ..c }, b, VEC_NMI).1;
    let (c2, b2, opcode) = spec_fetch(ci, bi);
    lemma_execute_keeps_lines(c2, b2, spec_decode(opcode));
    let s = c.status;
    assert(has_bit(set_bit(s, FLAG_IRQ_DISABLE, true), FLAG_IRQ_DISABLE)) by (bit_vector);
}

/// While the NMI line stays at the level it had at the previous step, no NMI
/// is taken.
pub proof fn law_nmi_level_ignored<B: Bus>(c: Cpu, b: B)
    requires
        !(c.nmi_pending && !c.prev_nmi),
    ensures
        spec_step(c, b) == step_without_nmi(c, b),
{
    reveal(spec_step);
}

/// With I set (and no NMI edge) a pending IRQ is not taken: the step runs the
/// next instruction and the request stays pending.
pub proof fn law_irq_masked<B: Bus>(c: Cpu, b: B)
    requires
        has_bit(c.status, FLAG_IRQ_DISABLE),
        !(c.nmi_pending && !c.prev_nmi),
    ensures
        spec_step(c, b) == spec_run_one(Cpu { prev_nmi: c.nmi_pending, ..c }, b),
        spec_step(c, b).0.irq_pending == c.irq_pending,
{
    reveal(spec_step);
    let (c2, b2, opcode) = spec_fetch(Cpu { prev_nmi: c.nmi_pending, ..c }, b);
    lemma_execute_keeps_lines(c2, b2, spec_decode(opcode));
}

/// With I clear, a pending IRQ (and no NMI edge) is entered: the return
/// address and status are pushed, I is set, the request is acknowledged, and
/// the first instruction at the IRQ vector runs in the same step.
pub proof fn law_irq_taken<B: Bus>(c: Cpu, b: B)
    requires
        c.irq_pending,
        !has_bit(c.status, FLAG_IRQ_DISABLE),
        !(c.nmi_pending && !c.prev_nmi),
    ensures
        ({
            let (ci, bi) = spec_interrupt(Cpu { irq_pending: false, prev_nmi: c.nmi_pending, ..c }, b, VEC_IRQ);
            &&& spec_step(c, b) == spec_run_one(ci, bi)
            &&& !ci.irq_pending
            &&& has_bit(ci.status, FLAG_IRQ_DISABLE)
            &&& ci.pc == bus_read_word(
                spec_push(
                    spec_push_word(Cpu { irq_pending: false, prev_nmi: c.nmi_pending, ..c }, b, c.pc).0,
                    spec_push_word(Cpu { irq_pending: false, prev_nmi: c.nmi_pending, ..c }, b, c.pc).1,
                    (c.status & !FLAG_BREAK) | FLAG_UNUSED,
                ).1,
                VEC_IRQ,
            ).1
            &&& !spec_step(c, b).0.irq_pending
        }),
{
    reveal(spec_step);
    let ci = spec_interrupt(Cpu { irq_pending: false, prev_nmi: c.nmi_pending, ..c }, b, VEC_IRQ).0;
    let bi = spec_interrupt(Cpu { irq_pending: false, prev_nmi: c.nmi_pending, ..c }, b, VEC_IRQ).1;
    let (c2, b2, opcode) = spec_fetch(ci, bi);
    lemma_execute_keeps_lines(c2, b2, spec_decode(opcode));
    let s = c.status;
    assert(has_bit(set_bit(s, FLAG_IRQ_DISABLE, true), FLAG_IRQ_DISABLE)) by (bit_vector);
}

proof fn lemma_decode_jsr_rts()
    ensures
        spec_decode(0x20) == ins(Op::Jsr, Mode::Abs, 6, false),
        spec_decode(0x60) == ins(Op::Rts, Mode::Imp, 6, false),
{
}

/// With no interrupt requested, a step runs the instruction at pc.
proof fn lemma_step_plain<B: Bus>(c: Cpu, b: B)
    requires
        !c.nmi_pending,
        !c.irq_pending,
    ensures
        spec_step(c, b) == spec_run_one(Cpu { prev_nmi: false, ..c }, b),
{
    reveal(spec_step);
}

/// The stack address of stack pointer value `sp`.
pub open spec fn stack_addr(sp: u8) -> u16 {
    (0x0100 + sp) as u16
}

/// What a JSR at `c.pc` does on flat RAM.
#[verifier::spinoff_prover]
proof fn lemma_jsr_step(c: Cpu, b: FlatRam)
    requires
        !c.nmi_pending,
        !c.irq_pending,
        c.cycles + 6 <= u64::MAX,
        b.mem@[c.pc as int] == 0x20,
    ensures
        ({
            let target = (b.mem@[w16(c.pc + 2) as int] * 256 + b.mem@[w16(c.pc + 1) as int]) as u16;
            let ret = w16(c.pc + 2);
            spec_step(c, b) == (
                Cpu { pc: target, sp: w8(c.sp - 2), cycles: (c.cycles + 6) as u64, prev_nmi: false, ..c },
                b.write_spec(stack_addr(c.sp), (ret / 256) as u8).write_spec(stack_addr(w8(c.sp - 1)), (ret % 256) as u8),
            )
        }),
{
    lemma_step_plain(c, b);
    broadcast use vstd::array::lemma_array_index;

    lemma_decode_jsr_rts();
    let c0 = Cpu { prev_nmi: false, ..c };
    let (cf, bf, op) = spec_fetch(c0, b);
    assert(op == 0x20);
    assert(bf == b);
    assert(spec_run_one(c0, b) == spec_execute(cf, bf, spec_decode(0x20)));
    let (cr, br, target, crossed) = spec_resolve(cf, bf, Mode::Abs);
    assert(br == b);
    assert(cr.pc == w16(c.pc + 3));
    let cx = Cpu { cycles: (cr.cycles + 6) as u64, ..cr };
    assert(spec_execute(cf, bf, spec_decode(0x20)) == spec_control(cx, br, Op::Jsr, target, crossed));
}

/// What an RTS at `c.pc` does on flat RAM.
#[verifier::spinoff_prover]
proof fn lemma_rts_step(c: Cpu, b: FlatRam)
    requires
        !c.nmi_pending,
        !c.irq_pending,
        c.cycles + 6 <= u64::MAX,
        b.mem@[c.pc as int] == 0x60,
    ensures
        ({
            let lo = b.mem@[stack_addr(w8(c.sp + 1)) as int];
            let hi = b.mem@[stack_addr(w8(c.sp + 2)) as int];
            spec_step(c, b).0 == Cpu {
                pc: w16((hi * 256 + lo) as u16 + 1),
                sp: w8(c.sp + 2),
                cycles: (c.cycles + 6) as u64,
                prev_nmi: false,
                ..c
            }
        }),
{
    lemma_step_plain(c, b);
    broadcast use vstd::array::lemma_array_index;

    lemma_decode_jsr_rts();
    let c0 = Cpu { prev_nmi: false, ..c };
    let (cf, bf, op) = spec_fetch(c0, b);
    assert(op == 0x60);
    assert(bf == b);
    assert(spec_run_one(c0, b) == spec_execute(cf, bf, spec_decode(0x60)));
    let cx = Cpu { cycles: (cf.cycles + 6) as u64, ..cf };
    assert(spec_execute(cf, bf, spec_decode(0x60)) == spec_control(cx, b, Op::Rts, 0, false));
}

/// A subroutine call and its return: `JSR target` at `pc` enters `target`
/// with the return address pushed; an `RTS` there comes back to the
/// instruction after the JSR with the stack pointer as it was, 12 cycles
/// after the call started (flat RAM, no interrupt requested).
#[verifier::spinoff_prover]
#[verifier::rlimit(30)]
pub proof fn law_jsr_rts(c: Cpu, b: FlatRam)
    requires
        !c.nmi_pending,
        !c.irq_pending,
        c.cycles + 12 <= u64::MAX,
        b.mem@[c.pc as int] == 0x20,
    ensures
        ({
            let target = (b.mem@[w16(c.pc + 2) as int] * 256 + b.mem@[w16(c.pc + 1) as int]) as u16;
            let (c1, b1) = spec_step(c, b);
            &&& c1.pc == target
            &&& c1.sp == w8(c.sp - 2)
            &&& (b1.mem@[target as int] == 0x60 ==> {
                let (c2, b2) = spec_step(c1, b1);
                &&& c2.pc == w16(c.pc + 3)
                &&& c2.sp == c.sp
                &&& c2.cycles == c.cycles + 12
            })
        }),
{
    lemma_jsr_step(c, b);
    let (c1, b1) = spec_step(c, b);
    let ret = w16(c.pc + 2);
    let bh = b.write_spec(stack_addr(c.sp), (ret / 256) as u8);
    let target = (b.mem@[w16(c.pc + 2) as int] * 256 + b.mem@[w16(c.pc + 1) as int]) as u16;
    if b1.mem@[target as int] == 0x60 {
        lemma_rts_step(c1, b1);
        assert(w8(w8(c.sp - 2) + 1) == w8(c.sp - 1));
        assert(w8(w8(c.sp - 2) + 2) == c.sp);
        crate::bus::law_flat_read_after_write(bh, stack_addr(w8(c.sp - 1)), (ret % 256) as u8, stack_addr(w8(c.sp - 1)));
        crate::bus::law_flat_read_after_write(bh, stack_addr(w8(c.sp - 1)), (ret % 256) as u8, stack_addr(c.sp));
        crate::bus::law_flat_read_after_write(b, stack_addr(c.sp), (ret / 256) as u8, stack_addr(c.sp));
        let lo = b1.mem@[stack_addr(w8(c1.sp + 1)) as int];
        let hi = b1.mem@[stack_addr(w8(c1.sp + 2)) as int];
        assert(lo == (ret % 256) as u8);
        assert(hi == (ret / 256) as u8);
        assert((hi * 256 + lo) as u16 == ret);
    }
}


/// A write to flat RAM changes exactly the written address.
proof fn lemma_flat_write(b: FlatRam, a: u16, v: u8)
    ensures
        forall|x: int|
            0 <= x < 0x10000 ==> #[trigger] b.write_spec(a, v).mem@[x] == if x == a as int {
                v
            } else {
                b.mem@[x]
            },
{
    assert forall|x: int| 0 <= x < 0x10000 implies #[trigger] b.write_spec(a, v).mem@[x] == if x == a as int {
        v
    } else {
        b.mem@[x]
    } by {
        crate::bus::law_flat_read_after_write(b, a, v, x as u16);
    }
}

proof fn lemma_decode_brk_rti()
    ensures
        spec_decode(0x00) == ins(Op::Brk, Mode::Imp, 7, false),
        spec_decode(0x40) == ins(Op::Rti, Mode::Imp, 6, false),
{
}

/// Executing the instruction with opcode `opcode` once it has been fetched.
#[verifier::opaque]
pub open spec fn spec_exec_opcode<B: Bus>(c: Cpu, b: B, opcode: u8) -> (Cpu, B) {
    spec_execute(c, b, spec_decode(opcode))
}

/// What a BRK (already fetched) does on flat RAM.
#[verifier::spinoff_prover]
proof fn lemma_brk_exec(c: Cpu, b: FlatRam)
    requires
        c.cycles + 7 <= u64::MAX,
    ensures
        ({
            let ret = w16(c.pc + 1);
            let b3 = b.write_spec(stack_addr(c.sp), (ret / 256) as u8).write_spec(
                stack_addr(w8(c.sp - 1)),
                (ret % 256) as u8,
            ).write_spec(stack_addr(w8(c.sp - 2)), c.status | FLAG_BREAK | FLAG_UNUSED);
            spec_exec_opcode(c, b, 0x00) == (
                Cpu {
                    pc: bus_read_word(b3, VEC_IRQ).1,
                    sp: w8(c.sp - 3),
                    status: set_bit(c.status, FLAG_IRQ_DISABLE, true),
                    cycles: (c.cycles + 7) as u64,
                    ..c
                },
                b3,
            )
        }),
{
    reveal(spec_exec_opcode);
    lemma_decode_brk_rti();
    assert(w8(w8(w8(c.sp - 1) - 1) - 1) == w8(c.sp - 3));
}

/// What an RTI (already fetched) does on flat RAM.
#[verifier::spinoff_prover]
proof fn lemma_rti_exec(c: Cpu, b: FlatRam)
    requires
        c.cycles + 6 <= u64::MAX,
    ensures
        ({
            let p = b.mem@[stack_addr(w8(c.sp + 1)) as int];
            let lo = b.mem@[stack_addr(w8(c.sp + 2)) as int];
            let hi = b.mem@[stack_addr(w8(c.sp + 3)) as int];
            spec_exec_opcode(c, b, 0x40).0 == Cpu {
                status: (p & !FLAG_BREAK) | FLAG_UNUSED,
                pc: (hi * 256 + lo) as u16,
                sp: w8(c.sp + 3),
                cycles: (c.cycles + 6) as u64,
                ..c
            }
        }),
{
    broadcast use vstd::array::lemma_array_index;

    reveal(spec_exec_opcode);
    lemma_decode_brk_rti();
    assert(w8(w8(w8(c.sp + 1) + 1) + 1) == w8(c.sp + 3));
    assert(w8(w8(c.sp + 1) + 1) == w8(c.sp + 2));
}

/// The frame a BRK leaves on flat RAM: the three stack bytes, with the IRQ
/// vector and the handler's first byte untouched.
proof fn lemma_brk_frame(c: Cpu, b: FlatRam)
    requires
        !(0x0100 <= b.mem@[0xFFFF] * 256 + b.mem@[0xFFFE] <= 0x01FF),
    ensures
        ({
            let ret = w16(c.pc + 1);
            let b3 = b.write_spec(stack_addr(c.sp), (ret / 256) as u8).write_spec(
                stack_addr(w8(c.sp - 1)),
                (ret % 256) as u8,
            ).write_spec(stack_addr(w8(c.sp - 2)), c.status | FLAG_BREAK | FLAG_UNUSED);
            let h = (b.mem@[0xFFFF] * 256 + b.mem@[0xFFFE]) as u16;
            &&& b3.mem@[stack_addr(c.sp) as int] == (ret / 256) as u8
            &&& b3.mem@[stack_addr(w8(c.sp - 1)) as int] == (ret % 256) as u8
            &&& b3.mem@[stack_addr(w8(c.sp - 2)) as int] == c.status | FLAG_BREAK | FLAG_UNUSED
            &&& bus_read_word(b3, VEC_IRQ).1 == h
            &&& b3.mem@[h as int] == b.mem@[h as int]
        }),
{
    let ret = w16(c.pc + 1);
    let s0 = stack_addr(c.sp);
    let s1 = stack_addr(w8(c.sp - 1));
    let s2 = stack_addr(w8(c.sp - 2));
    let hiv = (ret / 256) as u8;
    let lov = (ret % 256) as u8;
    let st = c.status | FLAG_BREAK | FLAG_UNUSED;
    let ba = b.write_spec(s0, hiv);
    let bb = ba.write_spec(s1, lov);
    let b3 = bb.write_spec(s2, st);
    lemma_flat_write(b, s0, hiv);
    lemma_flat_write(ba, s1, lov);
    lemma_flat_write(bb, s2, st);
    crate::bus::lemma_combine_bytes(b.mem@[0xFFFF], b.mem@[0xFFFE]);
    assert(b3.mem@[0xFFFE] == b.mem@[0xFFFE]);
    assert(b3.mem@[0xFFFF] == b.mem@[0xFFFF]);
}

/// A BRK and the RTI of its handler. BRK (already fetched from `b`, so pc is
/// b + 1) pushes b + 2 and the status with B and bit 5 set, sets I and
/// continues at the IRQ vector; an RTI there restores the status (B clear,
/// bit 5 set) and returns to b + 2, skipping the padding byte, with the stack
/// pointer as it was: 13 cycles in all (flat RAM, handler outside page 1).
#[verifier::spinoff_prover]
pub proof fn law_brk_rti(c: Cpu, b: FlatRam)
    requires
        c.cycles + 13 <= u64::MAX,
        b.mem@[(b.mem@[0xFFFF] * 256 + b.mem@[0xFFFE]) as int] == 0x40,
        !(0x0100 <= b.mem@[0xFFFF] * 256 + b.mem@[0xFFFE] <= 0x01FF),
    ensures
        ({
            let h = (b.mem@[0xFFFF] * 256 + b.mem@[0xFFFE]) as u16;
            let ret = w16(c.pc + 1);
            let (c1, b1) = spec_exec_opcode(c, b, 0x00);
            let (c2, b2, op) = spec_fetch(c1, b1);
            let c3 = spec_exec_opcode(c2, b2, op).0;
            &&& c1.pc == h
            &&& c1.sp == w8(c.sp - 3)
            &&& has_bit(c1.status, FLAG_IRQ_DISABLE)
            &&& c1.cycles == c.cycles + 7
            &&& b1.mem@[stack_addr(c.sp) as int] == (ret / 256) as u8
            &&& b1.mem@[stack_addr(w8(c.sp - 1)) as int] == (ret % 256) as u8
            &&& b1.mem@[stack_addr(w8(c.sp - 2)) as int] == c.status | 0x30
            &&& op == 0x40
            &&& c3.pc == ret
            &&& c3.sp == c.sp
            &&& c3.status == (c.status & !FLAG_BREAK) | FLAG_UNUSED
            &&& c3.cycles == c.cycles + 13
        }),
{
    let ret = w16(c.pc + 1);
    lemma_brk_exec(c, b);
    lemma_brk_frame(c, b);
    let (c1, b1) = spec_exec_opcode(c, b, 0x00);
    let (c2, b2, op) = spec_fetch(c1, b1);
    vstd::array::lemma_array_index(*b1.mem, c1.pc as int);
    assert(op == 0x40);
    assert(b2 == b1);
    lemma_rti_exec(c2, b2);
    assert(w8(w8(c.sp - 3) + 1) == w8(c.sp - 2));
    assert(w8(w8(c.sp - 3) + 2) == w8(c.sp - 1));
    assert(w8(w8(c.sp - 3) + 3) == c.sp);
    let t = c.status;
    assert(((t | 0x10 | 0x20) & !0x10u8) | 0x20 == (t & !0x10u8) | 0x20 && t | 0x10 | 0x20 == t | 0x30
        && (set_bit(t, FLAG_IRQ_DISABLE, true) & FLAG_IRQ_DISABLE != 0)) by (bit_vector);
    crate::bus::lemma_combine_bytes((ret / 256) as u8, (ret % 256) as u8);
}

/// In binary mode SBC is ADC of the complement: the accumulator becomes
/// A - v - borrow modulo 256 (borrow = not C), C is set when no borrow occurs,
/// V when the signed difference leaves -128..127, and Z and N describe the
/// result.
pub proof fn law_binary_sbc(c: Cpu, v: u8)
    requires
        !has_bit(c.status, FLAG_DECIMAL),
    ensures
        spec_sbc(c, v) == spec_adc_binary(c, !v),
        ({
            let borrow = 1 - carry_in(c.status);
            let r = spec_sbc(c, v);
            &&& r.a == w8(c.a - v - borrow)
            &&& has_bit(r.status, FLAG_CARRY) == (c.a >= v + borrow)
            &&& has_bit(r.status, FLAG_OVERFLOW) == (sx(c.a) - sx(v) - borrow < -128 || sx(c.a) - sx(v)
                - borrow > 127)
            &&& has_bit(r.status, FLAG_ZERO) == (r.a == 0)
            &&& has_bit(r.status, FLAG_NEGATIVE) == (r.a >= 0x80)
        }),
{
    assert(!v == 255 - v) by (bit_vector);
    let cin = carry_in(c.status);
    let nv = (255 - v) as u8;
    let sum = c.a + nv + cin;
    assert(sx(nv) == -sx(v) - 1);
    assert(w8(sum) == w8(c.a - v - (1 - cin))) by {
        vstd::arithmetic::div_mod::lemma_mod_add_multiples_vanish(c.a - v - (1 - cin), 256);
    }
    let s = c.status;
    let x = sum > 255;
    let y = sx(c.a) + sx(nv) + cin < -128 || sx(c.a) + sx(nv) + cin > 127;
    let r = w8(sum);
    assert({
        let st = zn(set_bit(set_bit(s, FLAG_CARRY, x), FLAG_OVERFLOW, y), r);
        &&& has_bit(st, FLAG_CARRY) == x
        &&& has_bit(st, FLAG_OVERFLOW) == y
        &&& has_bit(st, FLAG_ZERO) == (r == 0)
        &&& has_bit(st, FLAG_NEGATIVE) == (r >= 0x80)
    }) by (bit_vector);
}

} // verus!
