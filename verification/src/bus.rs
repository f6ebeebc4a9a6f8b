//! Memory bus: the `Bus` trait the CPU talks through, and a flat 64 KB RAM.
use vstd::prelude::*;
use crate::cia::{Cia, spec_cia_read, spec_cia_write, spec_tick_n};
use crate::sid::{Sid, spec_waveform, spec_sid_write, spec_clock_n};
use crate::vic::{Vic, spec_vic_read, spec_vic_write, spec_vic_tick, vic_irq, LINES_PER_FRAME};

verus! {

/// Reduce an integer to a 16-bit address (wrapping at 64 KB).
pub open spec fn w16(x: int) -> u16 {
    (x % 65536) as u16
}

/// Reduce an integer to a byte (wrapping at 256).
pub open spec fn w8(x: int) -> u8 {
    (x % 256) as u8
}

/// Anything the CPU can read bytes from and write bytes to.
///
/// Reads take `&mut self` because real device reads can have side effects
/// (clearing interrupt flags, advancing latches). The behaviour of a bus is
/// described by two spec functions: what a read returns and the state it leaves
/// behind, and the state a write leaves behind.
pub trait Bus: Sized {
    /// The bus state after reading `addr`, and the byte that read returns.
    spec fn read_spec(&self, addr: u16) -> (Self, u8);

    /// The bus state after writing `value` to `addr`.
    spec fn write_spec(&self, addr: u16, value: u8) -> Self;

    /// An invariant of the bus state that reads and writes keep.
    spec fn inv(&self) -> bool;

    fn read(&mut self, addr: u16) -> (v: u8)
        ensures
            (*final(self), v) == old(self).read_spec(addr),
            old(self).inv() ==> final(self).inv(),
    ;

    fn write(&mut self, addr: u16, value: u8)
        ensures
            *final(self) == old(self).write_spec(addr, value),
            old(self).inv() ==> final(self).inv(),
    ;

    /// Little-endian 16-bit read: the byte at `addr`, then the byte at `addr + 1`.
    fn read_word(&mut self, addr: u16) -> (w: u16)
        ensures
            ({
                let (b1, lo) = old(self).read_spec(addr);
                let (b2, hi) = b1.read_spec(w16(addr + 1));
                *final(self) == b2 && w == (hi * 256 + lo) as u16
            }),
            old(self).inv() ==> final(self).inv(),
    {
        let lo8 = self.read(addr);
        let hi8 = self.read(addr.wrapping_add(1));
        proof {
            lemma_combine_bytes(hi8, lo8);
        }
        ((hi8 as u16) << 8) | (lo8 as u16)
    }

    /// 16-bit read with the 6502 page-wrap bug used by indirect `JMP`: the high
    /// byte is fetched from the same page as the low byte.
    fn read_word_bug(&mut self, addr: u16) -> (w: u16)
        ensures
            ({
                let (b1, lo) = old(self).read_spec(addr);
                let (b2, hi) = b1.read_spec(bug_hi_addr(addr));
                *final(self) == b2 && w == (hi * 256 + lo) as u16
            }),
            old(self).inv() ==> final(self).inv(),
    {
        let lo8 = self.read(addr);
        let hi_addr = (addr & 0xFF00) | ((addr.wrapping_add(1)) & 0x00FF);
        proof {
            lemma_bug_hi_addr(addr);
        }
        let hi8 = self.read(hi_addr);
        proof {
            lemma_combine_bytes(hi8, lo8);
        }
        ((hi8 as u16) << 8) | (lo8 as u16)
    }
}

/// The address that holds the high byte of a bugged indirect pointer: same page
/// as `addr`, low byte incremented with wrap-around inside the page.
pub open spec fn bug_hi_addr(addr: u16) -> u16 {
    ((addr / 256) * 256 + ((addr % 256) + 1) % 256) as u16
}

/// Two byte reads, low then high, combined little-endian.
pub open spec fn bus_read_word<B: Bus>(b: B, addr: u16) -> (B, u16) {
    let (b1, lo) = b.read_spec(addr);
    let (b2, hi) = b1.read_spec(w16(addr + 1));
    (b2, (hi * 256 + lo) as u16)
}

/// Two byte reads where the high byte comes from `bug_hi_addr(addr)`.
pub open spec fn bus_read_word_bug<B: Bus>(b: B, addr: u16) -> (B, u16) {
    let (b1, lo) = b.read_spec(addr);
    let (b2, hi) = b1.read_spec(bug_hi_addr(addr));
    (b2, (hi * 256 + lo) as u16)
}

pub proof fn lemma_combine_bytes(hi: u8, lo: u8)
    ensures
        ((hi as u16) << 8) | (lo as u16) == (hi * 256 + lo) as u16,
        hi * 256 + lo < 65536,
{
    assert(((hi as u16) << 8) | (lo as u16) == (hi as u16) * 256 + (lo as u16)) by (bit_vector);
}

pub proof fn lemma_bug_hi_addr(addr: u16)
    ensures
        (addr & 0xFF00) | ((addr.wrapping_add(1)) & 0x00FF) == bug_hi_addr(addr),
{
    let n = addr.wrapping_add(1);
    assert(n == w16(addr + 1));
    assert((addr & 0xFF00) | (n & 0x00FF) == (addr / 256) * 256 + n % 256) by (bit_vector);
}

/// A flat 64 KB RAM, used for CPU tests.
pub struct FlatRam {
    pub mem: Box<[u8; 0x10000]>,
}

impl Default for FlatRam {
    fn default() -> (r: FlatRam)
        ensures
            r.mem@ == Seq::new(0x10000, |i: int| 0u8),
    {
        FlatRam::new()
    }
}

impl FlatRam {
    /// A RAM filled with zeroes.
    pub fn new() -> (r: FlatRam)
        ensures
            r.mem@ == Seq::new(0x10000, |i: int| 0u8),
    {
        let r = FlatRam { mem: Box::new([0u8; 0x10000]) };
        assert(r.mem@ =~= Seq::new(0x10000, |i: int| 0u8));
        r
    }

    /// Copy `data` into memory starting at `addr`, wrapping at 64 KB.
    pub fn load(&mut self, addr: u16, data: &[u8])
        ensures
            final(self).mem@ == loaded(old(self).mem@, addr, data@),
    {
        let mut i: usize = 0;
        while i < data.len()
            invariant
                i <= data@.len(),
                self.mem@ == loaded(old(self).mem@, addr, data@.take(i as int)),
            decreases data@.len() - i,
        {
            let dest = wrap_index(addr, i);
            self.mem[dest] = data[i];
            assert(data@.take(i + 1).drop_last() =~= data@.take(i as int));
            i = i + 1;
        }
        assert(data@.take(i as int) =~= data@);
    }
}

/// `(addr + i) mod 64 KB`, computed without overflow.
pub fn wrap_index(addr: u16, i: usize) -> (a: usize)
    ensures
        a == (addr + i) % 0x10000,
{
    let l = addr as usize;
    let lo = i & 0xFFFF;
    assert(lo <= 0xFFFF) by (bit_vector)
        requires
            lo == i & 0xFFFF,
    ;
    let sum = l + lo;
    let a = sum & 0xFFFF;
    assert(a == (l + i) % 0x10000) by (bit_vector)
        requires
            lo == i & 0xFFFF,
            sum == l + lo,
            a == sum & 0xFFFF,
            l < 0x10000,
    ;
    a
}

/// Memory after the bytes of `data` are written, in order, from `addr` on,
/// wrapping at 64 KB (a later byte overwrites an earlier one at the same
/// address).
pub open spec fn loaded(mem: Seq<u8>, addr: u16, data: Seq<u8>) -> Seq<u8>
    decreases data.len(),
{
    if data.len() == 0 {
        mem
    } else {
        loaded(mem, addr, data.drop_last()).update((addr + data.len() - 1) % 0x10000, data.last())
    }
}

/// Byte `i` of memory `mem` after copying `data` to `addr` with wrap-around:
/// the data byte at offset `(i - addr) mod 64K` if that offset is inside `data`.
pub open spec fn flat_load_byte(mem: Seq<u8>, addr: u16, data: Seq<u8>, i: int) -> u8 {
    let off = (i - addr) % 0x10000;
    if off < data.len() {
        data[off]
    } else {
        mem[i]
    }
}

impl Bus for FlatRam {
    open spec fn inv(&self) -> bool {
        true
    }

    open spec fn read_spec(&self, addr: u16) -> (Self, u8) {
        (*self, self.mem@[addr as int])
    }

    open spec fn write_spec(&self, addr: u16, value: u8) -> Self {
        FlatRam { mem: Box::new(vstd::array::spec_array_update(*self.mem, addr as int, value)) }
    }

    fn read(&mut self, addr: u16) -> (v: u8) {
        self.mem[addr as usize]
    }

    fn write(&mut self, addr: u16, value: u8) {
        let ghost before = *self.mem;
        self.mem[addr as usize] = value;
        proof {
            vstd::array::axiom_spec_array_update(before, addr as int, value);
            vstd::array::axiom_array_ext_equal(*self.mem, vstd::array::spec_array_update(before, addr as int, value));
            assert(*self.mem =~= vstd::array::spec_array_update(before, addr as int, value));
        }
    }
}

} // verus!

verus! {

/// Reduce an integer to 64 bits (wrapping).
pub open spec fn w64(x: int) -> u64 {
    (x % 0x1_0000_0000_0000_0000) as u64
}


// ---------------------------------------------------------------------------
// C64 system bus
// ---------------------------------------------------------------------------

/// The I/O devices that live in the `$D000-$DFFF` window.
pub struct IoDevices {
    /// Colour RAM: 1 KB of nybbles at `$D800-$DBFF`.
    pub color_ram: [u8; 0x0400],
    /// Backing for the I/O expansion area ($DE00-$DFFF), indexed by `addr - $D000`.
    pub io_scratch: [u8; 0x1000],
    pub vic: Vic,
    pub sid: Sid,
    pub cia1: Cia,
    pub cia2: Cia,
}

/// What reading I/O address `addr` ($D000-$DFFF) returns, and the devices after.
pub open spec fn spec_io_read(io: IoDevices, addr: u16) -> (IoDevices, u8) {
    if addr <= 0xD3FF {
        (io, spec_vic_read(io.vic, addr))
    } else if addr <= 0xD7FF {
        let r = addr % 32;
        (io, if r == 0x1B {
            (spec_waveform(io.sid.voices[2], 0) / 16) as u8
        } else if r == 0x1C {
            (io.sid.voices[2].env % 256) as u8
        } else {
            0
        })
    } else if addr <= 0xDBFF {
        (io, io.color_ram[addr - 0xD800] | 0xF0)
    } else if addr <= 0xDCFF {
        let (c, v) = spec_cia_read(io.cia1, (addr % 16) as u8);
        (IoDevices { cia1: c, ..io }, v)
    } else if addr <= 0xDDFF {
        let (c, v) = spec_cia_read(io.cia2, (addr % 16) as u8);
        (IoDevices { cia2: c, ..io }, v)
    } else {
        (io, io.io_scratch[addr - 0xD000])
    }
}

/// The devices after writing `value` to I/O address `addr` ($D000-$DFFF).
/// Colour RAM keeps only the low nybble.
pub open spec fn spec_io_write(io: IoDevices, addr: u16, value: u8) -> IoDevices {
    if addr <= 0xD3FF {
        IoDevices { vic: spec_vic_write(io.vic, addr, value), ..io }
    } else if addr <= 0xD7FF {
        IoDevices { sid: spec_sid_write(io.sid, (addr % 32) as u8, value), ..io }
    } else if addr <= 0xDBFF {
        IoDevices { color_ram: vstd::array::spec_array_update(io.color_ram, addr - 0xD800, value % 16), ..io }
    } else if addr <= 0xDCFF {
        IoDevices { cia1: spec_cia_write(io.cia1, (addr % 16) as u8, value), ..io }
    } else if addr <= 0xDDFF {
        IoDevices { cia2: spec_cia_write(io.cia2, (addr % 16) as u8, value), ..io }
    } else {
        IoDevices { io_scratch: vstd::array::spec_array_update(io.io_scratch, addr - 0xD000, value), ..io }
    }
}

/// The devices at power-on: colour RAM and the expansion area cleared, a
/// silent SID, the VIC at line 0, CIA #1 scanning the keyboard.
pub open spec fn io_power_on(io: IoDevices) -> bool {
    &&& io.color_ram@ == Seq::new(0x0400, |i: int| 0u8)
    &&& io.io_scratch@ == Seq::new(0x1000, |i: int| 0u8)
    &&& io.vic == crate::vic::spec_vic_new()
    &&& io.sid.regs@ == Seq::new(0x20, |i: int| 0u8)
    &&& io.sid.voices[0] == crate::sid::spec_voice_new()
    &&& io.sid.voices[1] == crate::sid::spec_voice_new()
    &&& io.sid.voices[2] == crate::sid::spec_voice_new()
    &&& io.sid.sample_phase == 0
    &&& io.sid.samples@.len() == 0
    &&& io.cia1 == (Cia { keyboard_enabled: true, ..crate::cia::spec_cia_new() })
    &&& io.cia2 == crate::cia::spec_cia_new()
}

/// The bus at power-on: RAM and ROM images zeroed, the devices at power-on,
/// and the processor port set so that BASIC, KERNAL and I/O are visible.
pub open spec fn bus_power_on(b: C64Bus) -> bool {
    &&& b.ram@ == Seq::new(0x10000, |i: int| 0u8)
    &&& b.basic_rom@ == Seq::new(0x2000, |i: int| 0u8)
    &&& b.kernal_rom@ == Seq::new(0x2000, |i: int| 0u8)
    &&& b.char_rom@ == Seq::new(0x1000, |i: int| 0u8)
    &&& io_power_on(b.io)
    &&& b.port_dir == 0x2F
    &&& b.port_data == 0x37
}

impl IoDevices {
    /// The devices at power-on: CIA #1 scans the keyboard.
    pub fn new() -> (io: IoDevices)
        ensures
            io.wf(),
            io_power_on(io),
    {
        let io = IoDevices {
            color_ram: [0u8; 0x0400],
            io_scratch: [0u8; 0x1000],
            vic: Vic::new(),
            sid: Sid::new(),
            cia1: Cia::cia1(),
            cia2: Cia::new(),
        };
        assert(io.color_ram@ =~= Seq::new(0x0400, |i: int| 0u8));
        assert(io.io_scratch@ =~= Seq::new(0x1000, |i: int| 0u8));
        io
    }
}

impl Default for IoDevices {
    fn default() -> (io: IoDevices)
        ensures
            io.wf(),
            io_power_on(io),
    {
        IoDevices::new()
    }
}

impl IoDevices {
    /// Device invariants the timing code relies on.
    pub open spec fn wf(&self) -> bool {
        &&& self.vic.raster < LINES_PER_FRAME
        &&& self.vic.line_cycles < crate::vic::CYCLES_PER_LINE
        &&& self.sid.inv()
        &&& self.cia1.inv()
        &&& self.cia2.inv()
    }

    fn read(&mut self, addr: u16) -> (v: u8)
        requires
            0xD000 <= addr <= 0xDFFF,
        ensures
            (*final(self), v) == spec_io_read(*old(self), addr),
            old(self).wf() ==> final(self).wf(),
    {
        if addr <= 0xD3FF {
            self.vic.read(addr)
        } else if addr <= 0xD7FF {
            let reg = (addr & 0x1F) as u8;
            proof {
                crate::bits::lemma_word_masks();
            }
            self.sid.read(reg)
        } else if addr <= 0xDBFF {
            self.color_ram[(addr - 0xD800) as usize] | 0xF0
        } else if addr <= 0xDCFF {
            let reg = (addr & 0x0F) as u8;
            proof {
                crate::bits::lemma_word_masks();
            }
            self.cia1.read(reg)
        } else if addr <= 0xDDFF {
            let reg = (addr & 0x0F) as u8;
            proof {
                crate::bits::lemma_word_masks();
            }
            self.cia2.read(reg)
        } else {
            self.io_scratch[(addr - 0xD000) as usize]
        }
    }

    fn write(&mut self, addr: u16, value: u8)
        requires
            0xD000 <= addr <= 0xDFFF,
        ensures
            *final(self) == spec_io_write(*old(self), addr, value),
            old(self).wf() ==> final(self).wf(),
    {
        if addr <= 0xD3FF {
            self.vic.write(addr, value);
        } else if addr <= 0xD7FF {
            let reg = (addr & 0x1F) as u8;
            proof {
                crate::bits::lemma_word_masks();
            }
            self.sid.write(reg, value);
        } else if addr <= 0xDBFF {
            self.color_ram[(addr - 0xD800) as usize] = value % 16;
        } else if addr <= 0xDCFF {
            let reg = (addr & 0x0F) as u8;
            proof {
                crate::bits::lemma_word_masks();
            }
            self.cia1.write(reg, value);
        } else if addr <= 0xDDFF {
            let reg = (addr & 0x0F) as u8;
            proof {
                crate::bits::lemma_word_masks();
            }
            self.cia2.write(reg, value);
        } else {
            self.io_scratch[(addr - 0xD000) as usize] = value;
        }
    }
}


/// The full C64 memory system: 64 KB RAM overlaid with ROMs and I/O according
/// to the processor-port banking bits.
pub struct C64Bus {
    pub ram: Box<[u8; 0x10000]>,
    /// $A000-$BFFF.
    pub basic_rom: [u8; 0x2000],
    /// $E000-$FFFF.
    pub kernal_rom: [u8; 0x2000],
    /// $D000-$DFFF when CHAREN selects it.
    pub char_rom: [u8; 0x1000],
    pub io: IoDevices,
    /// 6510 data-direction register at $0000.
    pub port_dir: u8,
    /// 6510 output register at $0001 (only driven bits matter).
    pub port_data: u8,
}

/// What occupies $D000-$DFFF.
pub enum D000 {
    Io,
    CharRom,
    Ram,
}

/// The three banking lines (bit 0 LORAM, bit 1 HIRAM, bit 2 CHAREN): a line
/// reads high if it is an input (the C64 pull-ups) or its output bit is 1.
pub open spec fn banking_bits(port_dir: u8, port_data: u8) -> u8 {
    ((port_data & port_dir) | !port_dir) & 0x07
}

impl C64Bus {
    pub open spec fn loram(&self) -> bool {
        banking_bits(self.port_dir, self.port_data) & 0x01 != 0
    }

    pub open spec fn hiram(&self) -> bool {
        banking_bits(self.port_dir, self.port_data) & 0x02 != 0
    }

    pub open spec fn charen(&self) -> bool {
        banking_bits(self.port_dir, self.port_data) & 0x04 != 0
    }

    /// BASIC ROM is mapped at $A000-$BFFF when LORAM and HIRAM are both high.
    pub open spec fn spec_basic_mapped(&self) -> bool {
        self.loram() && self.hiram()
    }

    /// KERNAL ROM is mapped at $E000-$FFFF when HIRAM is high.
    pub open spec fn spec_kernal_mapped(&self) -> bool {
        self.hiram()
    }

    /// $D000-$DFFF holds I/O when CHAREN and one of LORAM/HIRAM are high, the
    /// character ROM when CHAREN is low and one of them is high, else RAM.
    pub open spec fn spec_d000_region(&self) -> D000 {
        if (self.loram() || self.hiram()) && self.charen() {
            D000::Io
        } else if self.loram() || self.hiram() {
            D000::CharRom
        } else {
            D000::Ram
        }
    }

    /// Reading $0001: driven output bits, input lines 0-2 floating high, and the
    /// stored data bits of the other inputs.
    pub open spec fn spec_port_read(&self) -> u8 {
        (self.port_data & self.port_dir) | (!self.port_dir & 0x07) | (self.port_data & !self.port_dir & 0xF8)
    }

    /// Invariants the device timing relies on.
    pub open spec fn wf(&self) -> bool {
        self.io.wf()
    }
}

impl Bus for C64Bus {
    open spec fn inv(&self) -> bool {
        self.wf()
    }

    open spec fn read_spec(&self, addr: u16) -> (Self, u8) {
        if addr == 0 {
            (*self, self.port_dir)
        } else if addr == 1 {
            (*self, self.spec_port_read())
        } else if 0xA000 <= addr <= 0xBFFF && self.spec_basic_mapped() {
            (*self, self.basic_rom[addr - 0xA000])
        } else if 0xD000 <= addr <= 0xDFFF {
            match self.spec_d000_region() {
                D000::Io => {
                    let (io, v) = spec_io_read(self.io, addr);
                    (C64Bus { io: io, ..*self }, v)
                },
                D000::CharRom => (*self, self.char_rom[addr - 0xD000]),
                D000::Ram => (*self, self.ram[addr as int]),
            }
        } else if 0xE000 <= addr && self.spec_kernal_mapped() {
            (*self, self.kernal_rom[addr - 0xE000])
        } else {
            (*self, self.ram[addr as int])
        }
    }

    /// Writes land in RAM underneath any ROM; only the I/O window (when banked
    /// in) and the processor port registers are not RAM.
    open spec fn write_spec(&self, addr: u16, value: u8) -> Self {
        if addr == 0 {
            C64Bus { port_dir: value, ..*self }
        } else if addr == 1 {
            C64Bus { port_data: value, ..*self }
        } else if 0xD000 <= addr <= 0xDFFF && self.spec_d000_region() is Io {
            C64Bus { io: spec_io_write(self.io, addr, value), ..*self }
        } else {
            C64Bus { ram: Box::new(vstd::array::spec_array_update(*self.ram, addr as int, value)), ..*self }
        }
    }

    fn read(&mut self, addr: u16) -> (v: u8) {
        if addr == 0x0000 {
            self.port_dir
        } else if addr == 0x0001 {
            // Reading the port returns driven output bits plus input lines
            // (which float high on a stock C64).
            (self.port_data & self.port_dir) | (!self.port_dir & 0x07) | (self.port_data & !self.port_dir & 0xF8)
        } else if 0xA000 <= addr && addr <= 0xBFFF && self.basic_mapped() {
            self.basic_rom[(addr - 0xA000) as usize]
        } else if 0xD000 <= addr && addr <= 0xDFFF {
            match self.d000_region() {
                D000::Io => self.io.read(addr),
                D000::CharRom => self.char_rom[(addr - 0xD000) as usize],
                D000::Ram => self.ram[addr as usize],
            }
        } else if 0xE000 <= addr && self.kernal_mapped() {
            self.kernal_rom[(addr - 0xE000) as usize]
        } else {
            self.ram[addr as usize]
        }
    }

    fn write(&mut self, addr: u16, value: u8) {
        // Writes always land in RAM underneath ROM (the C64 has no write-through
        // to ROM), except I/O writes go to devices.
        if addr == 0x0000 {
            self.port_dir = value;
        } else if addr == 0x0001 {
            self.port_data = value;
        } else if 0xD000 <= addr && addr <= 0xDFFF && self.is_io_mapped() {
            self.io.write(addr, value);
        } else {
            let ghost before = *self.ram;
            self.ram[addr as usize] = value;
            proof {
                vstd::array::axiom_spec_array_update(before, addr as int, value);
                vstd::array::axiom_array_ext_equal(*self.ram, vstd::array::spec_array_update(before, addr as int, value));
                assert(*self.ram =~= vstd::array::spec_array_update(before, addr as int, value));
            }
        }
    }
}

impl Default for C64Bus {
    fn default() -> (b: C64Bus)
        ensures
            b.wf(),
            bus_power_on(b),
    {
        C64Bus::new()
    }
}

impl C64Bus {
    /// A bus with zeroed RAM and ROMs. At reset the port reads as if LORAM,
    /// HIRAM and CHAREN are all high: BASIC, KERNAL and I/O are visible.
    pub fn new() -> (b: C64Bus)
        ensures
            b.wf(),
            bus_power_on(b),
    {
        let b = C64Bus {
            ram: Box::new([0u8; 0x10000]),
            basic_rom: [0u8; 0x2000],
            kernal_rom: [0u8; 0x2000],
            char_rom: [0u8; 0x1000],
            io: IoDevices::new(),
            port_dir: 0x2F,
            port_data: 0x37,
        };
        assert(b.ram@ =~= Seq::new(0x10000, |i: int| 0u8));
        assert(b.basic_rom@ =~= Seq::new(0x2000, |i: int| 0u8));
        assert(b.kernal_rom@ =~= Seq::new(0x2000, |i: int| 0u8));
        assert(b.char_rom@ =~= Seq::new(0x1000, |i: int| 0u8));
        b
    }

    fn banking(&self) -> (r: u8)
        ensures
            r == banking_bits(self.port_dir, self.port_data),
    {
        ((self.port_data & self.port_dir) | !self.port_dir) & 0x07
    }

    fn basic_mapped(&self) -> (r: bool)
        ensures
            r == self.spec_basic_mapped(),
    {
        let b = self.banking();
        b & 0x01 != 0 && b & 0x02 != 0
    }

    fn kernal_mapped(&self) -> (r: bool)
        ensures
            r == self.spec_kernal_mapped(),
    {
        self.banking() & 0x02 != 0
    }

    fn d000_region(&self) -> (r: D000)
        ensures
            r == self.spec_d000_region(),
    {
        let b = self.banking();
        let lo_or_hi = b & 0x01 != 0 || b & 0x02 != 0;
        // I/O appears when CHAREN is high and at least one of LORAM/HIRAM is high.
        if lo_or_hi && b & 0x04 != 0 {
            D000::Io
        } else if lo_or_hi {
            D000::CharRom
        } else {
            D000::Ram
        }
    }

    fn is_io_mapped(&self) -> (r: bool)
        ensures
            r == (self.spec_d000_region() is Io),
    {
        match self.d000_region() {
            D000::Io => true,
            _ => false,
        }
    }
}


/// `b1` is `b0` after `cycles` phi2 clocks: the VIC raster, both CIAs and the
/// SID oscillators, envelopes and sample output advance; memory, ROMs, the
/// processor port and the registers the CPU wrote stay as they were.
pub open spec fn bus_ticked(b0: C64Bus, b1: C64Bus, cycles: u64) -> bool {
    &&& b1.io.vic == spec_vic_tick(b0.io.vic, cycles)
    &&& b1.io.cia1 == spec_tick_n(b0.io.cia1, cycles as nat)
    &&& b1.io.cia2 == spec_tick_n(b0.io.cia2, cycles as nat)
    &&& ({
        let (vs, ph, out) = spec_clock_n(
            b0.io.sid.voices,
            b0.io.sid.sample_phase,
            b0.io.sid.regs[0x18],
            cycles as nat,
        );
        &&& b1.io.sid.voices == vs
        &&& b1.io.sid.sample_phase == ph
        &&& b1.io.sid.samples@ == b0.io.sid.samples@ + out
    })
    &&& b1.io.sid.regs == b0.io.sid.regs
    &&& b1.io.color_ram == b0.io.color_ram
    &&& b1.io.io_scratch == b0.io.io_scratch
    &&& b1.ram == b0.ram
    &&& b1.basic_rom == b0.basic_rom
    &&& b1.kernal_rom == b0.kernal_rom
    &&& b1.char_rom == b0.char_rom
    &&& b1.port_dir == b0.port_dir
    &&& b1.port_data == b0.port_data
}

impl C64Bus {
    /// Advance the time-dependent devices (VIC raster, both CIAs, SID) by
    /// `cycles` phi2 clocks and return the CPU interrupt lines `(irq, nmi)`:
    /// IRQ is the VIC raster IRQ OR CIA #1, NMI is CIA #2.
    pub fn tick(&mut self, cycles: u64) -> (lines: (bool, bool))
        requires
            old(self).wf(),
            old(self).io.vic.line_cycles + (cycles as u32) <= u32::MAX,
        ensures
            final(self).wf(),
            bus_ticked(*old(self), *final(self), cycles),
            lines == (vic_irq(final(self).io.vic) || final(self).io.cia1.irq_line, final(self).io.cia2.irq_line),
    {
        let vic_irq = self.io.vic.tick(cycles);
        let cia1_irq = self.io.cia1.tick(cycles);
        let nmi = self.io.cia2.tick(cycles);
        self.io.sid.clock(cycles);
        (vic_irq || cia1_irq, nmi)
    }
}


// ---------------------------------------------------------------------------
// Laws
// ---------------------------------------------------------------------------

/// Flat RAM: a read gives back the last byte written to that address, a write
/// leaves every other address as it was, and reads change nothing.
pub proof fn law_flat_read_after_write(m: FlatRam, addr: u16, value: u8, other: u16)
    ensures
        m.write_spec(addr, value).read_spec(addr).1 == value,
        other != addr ==> m.write_spec(addr, value).read_spec(other).1 == m.read_spec(other).1,
        m.read_spec(other).0 == m,
{
    vstd::array::axiom_spec_array_update(*m.mem, addr as int, value);
    vstd::array::lemma_array_index(vstd::array::spec_array_update(*m.mem, addr as int, value), addr as int);
    vstd::array::lemma_array_index(vstd::array::spec_array_update(*m.mem, addr as int, value), other as int);
    vstd::array::lemma_array_index(*m.mem, other as int);
}

/// Loading data that fits in 64 KB places byte `k` of it at `addr + k`
/// (wrapping) and leaves the other addresses as they were.
pub proof fn law_load_places_bytes(mem: Seq<u8>, addr: u16, data: Seq<u8>)
    requires
        mem.len() == 0x10000,
        data.len() <= 0x10000,
    ensures
        loaded(mem, addr, data).len() == 0x10000,
        forall|i: int| 0 <= i < 0x10000 ==> #[trigger] loaded(mem, addr, data)[i] == flat_load_byte(mem, addr, data, i),
    decreases data.len(),
{
    if data.len() > 0 {
        let d = data.drop_last();
        law_load_places_bytes(mem, addr, d);
        let last = (addr + data.len() - 1) % 0x10000;
        assert forall|i: int| 0 <= i < 0x10000 implies #[trigger] loaded(mem, addr, data)[i] == flat_load_byte(
            mem,
            addr,
            data,
            i,
        ) by {
            let off = (i - addr) % 0x10000;
            vstd::arithmetic::div_mod::lemma_fundamental_div_mod(i - addr, 0x10000);
            vstd::arithmetic::div_mod::lemma_fundamental_div_mod(addr + data.len() - 1, 0x10000);
            if i == last {
                vstd::arithmetic::div_mod::lemma_fundamental_div_mod_converse(
                    i - addr,
                    0x10000,
                    if i - addr < 0 { -1int } else { 0 },
                    data.len() - 1,
                );
            } else {
                if off == data.len() - 1 {
                    assert(i - addr == (i - addr) / 0x10000 * 0x10000 + off);
                }
                assert(flat_load_byte(mem, addr, d, i) == flat_load_byte(mem, addr, data, i));
            }
        }
    }
}

/// A write to $A000-$BFFF always lands in RAM: reading the address back gives
/// the BASIC ROM byte while BASIC is banked in and the written byte otherwise.
pub proof fn law_write_under_basic(bus: C64Bus, addr: u16, value: u8)
    requires
        0xA000 <= addr <= 0xBFFF,
    ensures
        bus.write_spec(addr, value).read_spec(addr).1 == if bus.spec_basic_mapped() {
            bus.basic_rom[addr - 0xA000]
        } else {
            value
        },
{
    vstd::array::axiom_spec_array_update(*bus.ram, addr as int, value);
}

/// A write to $E000-$FFFF always lands in RAM: reading the address back gives
/// the KERNAL ROM byte while the KERNAL is banked in and the written byte
/// otherwise.
pub proof fn law_write_under_kernal(bus: C64Bus, addr: u16, value: u8)
    requires
        0xE000 <= addr,
    ensures
        bus.write_spec(addr, value).read_spec(addr).1 == if bus.spec_kernal_mapped() {
            bus.kernal_rom[addr - 0xE000]
        } else {
            value
        },
{
    vstd::array::axiom_spec_array_update(*bus.ram, addr as int, value);
}

/// What $D000-$DFFF shows is set by the processor port lines LORAM (bit 0),
/// HIRAM (bit 1) and CHAREN (bit 2), each high when it is an input or its
/// output bit is 1. With CHAREN high and LORAM or HIRAM high, reads and
/// writes reach the I/O devices; with CHAREN low and LORAM or HIRAM high,
/// reads give the character ROM and writes land in RAM; with LORAM and HIRAM
/// both low the window is plain RAM.
pub proof fn law_d000_banking(bus: C64Bus, addr: u16, value: u8)
    requires
        0xD000 <= addr <= 0xDFFF,
    ensures
        ({
            let lo = bus.port_dir & 0x01 == 0 || bus.port_data & 0x01 != 0;
            let hi = bus.port_dir & 0x02 == 0 || bus.port_data & 0x02 != 0;
            let ch = bus.port_dir & 0x04 == 0 || bus.port_data & 0x04 != 0;
            let (b1, x) = bus.read_spec(addr);
            let w = bus.write_spec(addr, value);
            &&& (ch && (lo || hi)) ==> {
                &&& w == (C64Bus { io: spec_io_write(bus.io, addr, value), ..bus })
                &&& b1 == (C64Bus { io: spec_io_read(bus.io, addr).0, ..bus })
                &&& x == spec_io_read(bus.io, addr).1
            }
            &&& (!ch && (lo || hi)) ==> b1 == bus && x == bus.char_rom[addr - 0xD000]
            &&& !(lo || hi) ==> b1 == bus && x == bus.ram[addr as int]
            &&& !(ch && (lo || hi)) ==> {
                &&& w.io == bus.io
                &&& w.ram[addr as int] == value
                &&& forall|i: int| 0 <= i < 0x10000 && i != addr ==> #[trigger] w.ram[i] == bus.ram[i]
            }
        }),
{
    let d = bus.port_dir;
    let p = bus.port_data;
    assert({
        let bits = ((p & d) | !d) & 0x07;
        &&& (bits & 0x01 != 0) == (d & 0x01 == 0 || p & 0x01 != 0)
        &&& (bits & 0x02 != 0) == (d & 0x02 == 0 || p & 0x02 != 0)
        &&& (bits & 0x04 != 0) == (d & 0x04 == 0 || p & 0x04 != 0)
    }) by (bit_vector);
    vstd::array::axiom_spec_array_update(*bus.ram, addr as int, value);
}

} // verus!
