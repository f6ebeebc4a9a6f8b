//! The whole machine: ties the CPU and bus together and runs it in frame-sized
//! chunks, delivering device interrupts to the CPU and rendering each raster
//! line as it completes.
use vstd::prelude::*;
use crate::bus::{Bus, C64Bus, bus_power_on, bus_ticked, loaded, wrap_index};
use crate::cpu::{Cpu, spec_power_on, spec_reset, spec_step};
use crate::d64::{parse_sys_target, spec_sys_target};
use crate::vic::{vic_irq, LINES_PER_FRAME};
use crate::video::{render_line, rendered, FB_H, FB_W};

verus! {

/// PAL frame timing: 312 raster lines of 63 cycles.
pub const CYCLES_PER_FRAME: u64 = 312 * 63;

/// Bytes in the RGB framebuffer.
pub const FB_BYTES: usize = 384 * 272 * 3;

pub struct System {
    pub cpu: Cpu,
    pub bus: C64Bus,
    /// RGB framebuffer produced by the VIC renderer (FB_W x FB_H).
    pub framebuffer: Vec<u8>,
}

/// The framebuffer after drawing raster lines `from`, `from + 1`, ... up to
/// but not including `to`, wrapping after the last line of the frame.
pub open spec fn render_lines(fb: Seq<u8>, bus: C64Bus, from: u16, to: u16) -> Seq<u8>
    decreases (if to >= from { to - from } else { to + 312 - from }),
    when from < 312 && to < 312
{
    if from == to {
        fb
    } else {
        render_lines(rendered(fb, bus, from), bus, ((from + 1) % 312) as u16, to)
    }
}

/// `s1` is `s0` after one turn of the main loop: one CPU step, the devices
/// ticked for its cycles, the IRQ line (level) copied to the CPU, an NMI
/// latched when CIA #2 asserts it, and the raster lines the step completed
/// drawn with the registers as they now stand.
pub open spec fn machine_step(s0: System, s1: System) -> bool {
    let (c1, b1) = spec_step(s0.cpu, s0.bus);
    &&& bus_ticked(b1, s1.bus, (c1.cycles - s0.cpu.cycles) as u64)
    &&& s1.cpu == (Cpu {
        irq_pending: vic_irq(s1.bus.io.vic) || s1.bus.io.cia1.irq_line,
        nmi_pending: c1.nmi_pending || s1.bus.io.cia2.irq_line,
        ..c1
    })
    &&& s1.framebuffer@ == render_lines(s0.framebuffer@, s1.bus, s0.bus.io.vic.raster, s1.bus.io.vic.raster)
}

/// Turn `k` of a run is taken while the cycle count is below `target`.
pub open spec fn turn_ok(t: Seq<System>, k: int, target: u64) -> bool {
    t[k].cpu.cycles < target && machine_step(t[k], t[k + 1])
}

/// `t` is a run of the main loop towards the cycle count `target`.
pub open spec fn frame_trace(t: Seq<System>, target: u64) -> bool {
    &&& t.len() >= 1
    &&& forall|k: int| 0 <= k < t.len() - 1 ==> #[trigger] turn_ok(t, k, target)
}

/// `b` is `a` after one call of `run_frame`: the turns of the main loop from
/// `a`, taken while the cycle count is below a frame's worth more than at `a`.
pub open spec fn frame_run(a: System, b: System) -> bool {
    let target = (a.cpu.cycles + CYCLES_PER_FRAME) as u64;
    &&& target <= b.cpu.cycles
    &&& exists|t: Seq<System>| frame_trace(t, target) && t[0] == a && t.last() == b
}

/// Frame `k` of the sequence `fs` leads from `fs[k]` to `fs[k + 1]`.
pub open spec fn frame_at(fs: Seq<System>, k: int) -> bool {
    frame_run(fs[k], fs[k + 1])
}

/// The screen of state `k` of `fs` does not show "READY.".
pub open spec fn not_ready_at(fs: Seq<System>, k: int) -> bool {
    !shows_ready(fs[k].bus.ram@)
}

/// `fs` is a boot: one frame after another, stopping after the first frame at
/// whose end the screen shows "READY.", or after 250 frames.
pub open spec fn boot_trace(fs: Seq<System>) -> bool {
    &&& 2 <= fs.len() <= 251
    &&& forall|k: int| 0 <= k < fs.len() - 1 ==> #[trigger] frame_at(fs, k)
    &&& forall|k: int| 1 <= k < fs.len() - 1 ==> #[trigger] not_ready_at(fs, k)
    &&& (shows_ready(fs.last().bus.ram@) || fs.len() == 251)
}

/// The six screen codes of "READY." start at cell `i` of `screen`.
pub open spec fn ready_at(screen: Seq<u8>, i: int) -> bool {
    &&& screen[i] == 18
    &&& screen[i + 1] == 5
    &&& screen[i + 2] == 1
    &&& screen[i + 3] == 4
    &&& screen[i + 4] == 25
    &&& screen[i + 5] == 46
}

/// The 1000 cells of the default text screen at $0400.
pub open spec fn screen_ram(ram: Seq<u8>) -> Seq<u8> {
    ram.subrange(0x0400, 0x07E8)
}

/// The text screen shows "READY." somewhere.
pub open spec fn shows_ready(ram: Seq<u8>) -> bool {
    exists|i: int| 0 <= i <= 994 && #[trigger] ready_at(screen_ram(ram), i)
}

/// The keyboard matrix after the key at `(column, row)` (each taken modulo
/// 8) is pressed (its row bit cleared in its column) or released (set).
pub open spec fn key_matrix(kb: Seq<u8>, column: u8, row: u8, pressed: bool) -> Seq<u8> {
    let c = (column % 8) as int;
    let bit = 1u8 << (row % 8);
    kb.update(c, if pressed { kb[c] & !bit } else { kb[c] | bit })
}

/// The control-port-2 joystick byte: each of bits 0-4 (up, down, left,
/// right, fire) is low while that input is held, every other bit is high.
pub open spec fn joy_mask(up: bool, down: bool, left: bool, right: bool, fire: bool) -> u8 {
    0xE0u8 | (if up { 0u8 } else { 0x01u8 }) | (if down { 0u8 } else { 0x02u8 }) | (if left { 0u8 } else { 0x04u8 })
        | (if right { 0u8 } else { 0x08u8 }) | (if fire { 0u8 } else { 0x10u8 })
}

impl Default for System {
    fn default() -> (s: System)
        ensures
            s.wf(),
            s.cpu == spec_power_on(),
            s.framebuffer@ == Seq::new(FB_BYTES as nat, |i: int| 0u8),
            bus_power_on(s.bus),
    {
        System::new()
    }
}

impl System {
    /// The framebuffer has its full size and the bus keeps its invariants.
    pub open spec fn wf(&self) -> bool {
        &&& self.bus.wf()
        &&& self.framebuffer@.len() == FB_BYTES
    }

    pub fn new() -> (s: System)
        ensures
            s.wf(),
            s.cpu == spec_power_on(),
            s.framebuffer@ == Seq::new(FB_BYTES as nat, |i: int| 0u8),
            bus_power_on(s.bus),
    {
        System { cpu: Cpu::new(), bus: C64Bus::new(), framebuffer: vec![0u8; FB_W * FB_H * 3] }
    }

    /// Power-on / reset: jump through the reset vector.
    pub fn reset(&mut self)
        ensures
            (final(self).cpu, final(self).bus) == spec_reset(old(self).cpu, old(self).bus),
            final(self).framebuffer == old(self).framebuffer,
            old(self).wf() ==> final(self).wf(),
    {
        self.cpu.reset(&mut self.bus);
    }

    /// One turn of the main loop: step the CPU, tick the devices, wire their
    /// interrupt lines back to the CPU, and render the completed raster lines.
    #[verifier::spinoff_prover]
    pub fn step_machine(&mut self)
        requires
            old(self).wf(),
            old(self).cpu.cycles + 14 <= u64::MAX,
        ensures
            final(self).wf(),
            machine_step(*old(self), *final(self)),
            old(self).cpu.cycles + 2 <= final(self).cpu.cycles <= old(self).cpu.cycles + 14,
    {
        let ghost s0 = *self;
        let prev_raster = self.bus.io.vic.raster();
        let cycles = self.cpu.step(&mut self.bus);
        let (irq, nmi) = self.bus.tick(cycles);
        self.cpu.irq_pending = irq;  // level-sensitive
        if nmi {
            self.cpu.nmi();  // edge-detected inside the CPU
        }
        // Render every raster line the instruction just completed, using the
        // registers as they stand now (good enough for raster-split effects).
        let now = self.bus.io.vic.raster();
        let ghost mid = *self;
        let mut r = prev_raster;
        while r != now
            invariant
                self.cpu == mid.cpu,
                self.bus == mid.bus,
                self.bus.wf(),
                r < 312,
                now == self.bus.io.vic.raster,
                now < 312,
                self.framebuffer@.len() == FB_BYTES,
                render_lines(s0.framebuffer@, self.bus, prev_raster, now) == render_lines(
                    self.framebuffer@,
                    self.bus,
                    r,
                    now,
                ),
            decreases (if now >= r { now - r } else { now + 312 - r }),
        {
            render_line(&self.bus, r, self.framebuffer.as_mut_slice());
            r = (r + 1) % LINES_PER_FRAME;
        }
    }

    /// Run one PAL frame's worth of cycles: turns of the main loop until the
    /// CPU has run `CYCLES_PER_FRAME` cycles more than at the start.
    #[verifier::spinoff_prover]
    pub fn run_frame(&mut self)
        requires
            old(self).wf(),
            old(self).cpu.cycles + CYCLES_PER_FRAME + 14 <= u64::MAX,
        ensures
            final(self).wf(),
            final(self).cpu.cycles < old(self).cpu.cycles + CYCLES_PER_FRAME + 14,
            frame_run(*old(self), *final(self)),
    {
        let target = self.cpu.cycles + CYCLES_PER_FRAME;
        let ghost start = *self;
        let ghost mut trace = seq![*self];
        while self.cpu.cycles < target
            invariant
                self.wf(),
                target == start.cpu.cycles + CYCLES_PER_FRAME,
                target + 14 <= u64::MAX,
                self.cpu.cycles < target + 14,
                frame_trace(trace, target),
                trace[0] == start,
                trace.last() == *self,
            decreases target + 14 - self.cpu.cycles,
        {
            self.step_machine();
            proof {
                let t2 = trace.push(*self);
                assert forall|k: int| 0 <= k < t2.len() - 1 implies #[trigger] turn_ok(t2, k, target) by {
                    if k < trace.len() - 1 {
                        assert(turn_ok(trace, k, target));
                    }
                }
                trace = t2;
            }
        }
    }

    /// Press (`pressed = true`) or release a key at CIA #1 matrix position
    /// `(column, row)`. A pressed key pulls its row bit low.
    pub fn key(&mut self, column: u8, row: u8, pressed: bool)
        ensures
            final(self).bus.io.cia1.keyboard@ == key_matrix(old(self).bus.io.cia1.keyboard@, column, row, pressed),
            final(self).bus.io.cia1 == (crate::cia::Cia { keyboard: final(self).bus.io.cia1.keyboard, ..old(self).bus.io.cia1 }),
            final(self).bus.io == (crate::bus::IoDevices { cia1: final(self).bus.io.cia1, ..old(self).bus.io }),
            final(self).bus == (C64Bus { io: final(self).bus.io, ..old(self).bus }),
            final(self).cpu == old(self).cpu,
            final(self).framebuffer == old(self).framebuffer,
            old(self).wf() ==> final(self).wf(),
    {
        let c = (column & 7) as usize;
        let r = row & 7;
        proof {
            crate::bits::lemma_byte_masks();
        }
        let old_row = self.bus.io.cia1.keyboard[c];
        let new_row = if pressed {
            old_row & !(1u8 << r)
        } else {
            old_row | (1u8 << r)
        };
        self.bus.io.cia1.keyboard[c] = new_row;
    }

    /// Whether the BASIC "READY." prompt is on the text screen ($0400).
    pub fn ready_prompt_shown(&self) -> (b: bool)
        ensures
            b == shows_ready(self.bus.ram@),
    {
        broadcast use vstd::array::lemma_array_index;

        let mut i: usize = 0;
        while i <= 994
            invariant
                i <= 995,
                forall|j: int| 0 <= j < i ==> !#[trigger] ready_at(screen_ram(self.bus.ram@), j),
            decreases 995 - i,
        {
            let o = 0x0400 + i;
            let ram = &self.bus.ram;
            if ram[o] == 18 && ram[o + 1] == 5 && ram[o + 2] == 1 && ram[o + 3] == 4 && ram[o + 4] == 25
                && ram[o + 5] == 46 {
                assert(ready_at(screen_ram(self.bus.ram@), i as int));
                return true;
            }
            i = i + 1;
        }
        false
    }

    /// Run frames until the BASIC "READY." prompt appears, for at most 250
    /// frames (booting takes about 2.2 million cycles): one frame after
    /// another, checking the screen after each. Returns whether the prompt
    /// showed.
    pub fn boot_to_ready(&mut self) -> (ready: bool)
        requires
            old(self).wf(),
            old(self).cpu.cycles + 250 * (CYCLES_PER_FRAME + 14) <= u64::MAX,
        ensures
            final(self).wf(),
            exists|fs: Seq<System>| boot_trace(fs) && fs[0] == *old(self) && fs.last() == *final(self),
            ready == shows_ready(final(self).bus.ram@),
            old(self).cpu.cycles <= final(self).cpu.cycles <= old(self).cpu.cycles + 250 * (CYCLES_PER_FRAME + 14),
    {
        let ghost start = self.cpu.cycles;
        let ghost mut fs: Seq<System> = seq![*self];
        assert(CYCLES_PER_FRAME + 14 == 19670);
        let mut n: u64 = 0;
        while n < 250
            invariant
                self.wf(),
                n <= 250,
                start == old(self).cpu.cycles,
                start <= self.cpu.cycles <= start + n * 19670,
                start + 250 * 19670 <= u64::MAX,
                CYCLES_PER_FRAME + 14 == 19670,
                fs.len() == n + 1,
                fs[0] == *old(self),
                fs.last() == *self,
                forall|k: int| 0 <= k < fs.len() - 1 ==> #[trigger] frame_at(fs, k),
                forall|k: int| 1 <= k < fs.len() ==> #[trigger] not_ready_at(fs, k),
            decreases 250 - n,
        {
            let ghost before = *self;
            self.run_frame();
            let shown = self.ready_prompt_shown();
            proof {
                let f2 = fs.push(*self);
                assert forall|k: int| 0 <= k < f2.len() - 1 implies #[trigger] frame_at(f2, k) by {
                    if k < fs.len() - 1 {
                        assert(frame_at(fs, k));
                    } else {
                        assert(f2[k] == before);
                    }
                }
                if !shown {
                    assert forall|k: int| 1 <= k < f2.len() implies #[trigger] not_ready_at(f2, k) by {
                        if k < fs.len() {
                            assert(not_ready_at(fs, k));
                        }
                    }
                } else {
                    assert forall|k: int| 1 <= k < f2.len() - 1 implies #[trigger] not_ready_at(f2, k) by {
                        assert(not_ready_at(fs, k));
                    }
                    assert(boot_trace(f2));
                }
                fs = f2;
            }
            if shown {
                return true;
            }
            n = n + 1;
        }
        proof {
            assert forall|k: int| 1 <= k < fs.len() - 1 implies #[trigger] not_ready_at(fs, k) by {
                assert(not_ready_at(fs, k));
            }
            assert(not_ready_at(fs, fs.len() - 1));
            assert(boot_trace(fs));
        }
        self.ready_prompt_shown()
    }

    /// Write a program's bytes into RAM from `load_addr` on, wrapping at 64 KB.
    pub fn inject(&mut self, load_addr: u16, payload: &[u8])
        ensures
            final(self).bus.ram@ == loaded(old(self).bus.ram@, load_addr, payload@),
            final(self).bus == (C64Bus { ram: final(self).bus.ram, ..old(self).bus }),
            final(self).cpu == old(self).cpu,
            final(self).framebuffer == old(self).framebuffer,
            old(self).wf() ==> final(self).wf(),
    {
        let mut i: usize = 0;
        while i < payload.len()
            invariant
                i <= payload@.len(),
                self.bus.ram@ == loaded(old(self).bus.ram@, load_addr, payload@.take(i as int)),
                self.bus == (C64Bus { ram: self.bus.ram, ..old(self).bus }),
                self.cpu == old(self).cpu,
                self.framebuffer == old(self).framebuffer,
            decreases payload@.len() - i,
        {
            let a = wrap_index(load_addr, i);
            self.bus.ram[a] = payload[i];
            assert(payload@.take(i + 1).drop_last() =~= payload@.take(i as int));
            i = i + 1;
        }
        assert(payload@.take(i as int) =~= payload@);
    }

    /// Load a program file (2-byte little-endian load address, then the
    /// payload) into RAM and point the CPU at its start, as `LOAD` then `RUN`
    /// would: the BASIC stub's `SYS` target, or just past a typical stub.
    /// Returns the start address; a file shorter than 3 bytes loads nothing.
    #[verifier::spinoff_prover]
    pub fn load_and_start(&mut self, file: &[u8]) -> (start: Option<u16>)
        ensures
            file@.len() < 3 ==> start is None && *final(self) == *old(self),
            file@.len() >= 3 ==> ({
                let load = (file@[0] + file@[1] * 256) as u16;
                let payload = file@.subrange(2, file@.len() as int);
                let target = match spec_sys_target(payload) {
                    Some(n) => n,
                    None => ((load + 10) % 0x10000) as u16,
                };
                &&& start == Some(target)
                &&& final(self).bus.ram@ == loaded(old(self).bus.ram@, load, payload)
                &&& final(self).bus == (C64Bus { ram: final(self).bus.ram, ..old(self).bus })
                &&& final(self).cpu == (Cpu { pc: target, ..old(self).cpu })
                &&& final(self).framebuffer == old(self).framebuffer
            }),
            old(self).wf() ==> final(self).wf(),
    {
        if file.len() < 3 {
            return None;
        }
        let load = file[0] as u16 + (file[1] as u16) * 256;
        let mut payload: Vec<u8> = Vec::new();
        let mut i: usize = 2;
        while i < file.len()
            invariant
                2 <= i <= file@.len(),
                payload@ == file@.subrange(2, i as int),
            decreases file@.len() - i,
        {
            payload.push(file[i]);
            i = i + 1;
            assert(payload@ =~= file@.subrange(2, i as int));
        }
        self.inject(load, payload.as_slice());
        let target = parse_sys_target(payload.as_slice(), load);
        self.cpu.pc = target;
        Some(target)
    }

    /// Read VIC colour/control register `idx` ($D0xx low byte) for rendering.
    pub fn vic_reg(&self, idx: usize) -> (r: u8)
        ensures
            r == self.bus.io.vic.regs[(idx % 64) as int],
    {
        self.bus.io.vic.reg(idx)
    }

    /// Take the SID audio samples generated since the last call (44.1 kHz mono).
    pub fn take_audio(&mut self) -> (samples: Vec<i16>)
        ensures
            samples@ == old(self).bus.io.sid.samples@,
            final(self).bus.io.sid.samples@.len() == 0,
            final(self).bus.io.sid.voices == old(self).bus.io.sid.voices,
            final(self).bus.io.sid.regs == old(self).bus.io.sid.regs,
            final(self).bus.io.sid.sample_phase == old(self).bus.io.sid.sample_phase,
            final(self).bus == (C64Bus { io: crate::bus::IoDevices { sid: final(self).bus.io.sid, ..old(self).bus.io }, ..old(self).bus }),
            final(self).cpu == old(self).cpu,
            final(self).framebuffer == old(self).framebuffer,
            old(self).wf() ==> final(self).wf(),
    {
        self.bus.io.sid.take_samples()
    }

    /// Set control-port-2 joystick state (CIA #1 port A). Each argument is
    /// whether that direction/fire is currently held.
    pub fn set_joy2(&mut self, up: bool, down: bool, left: bool, right: bool, fire: bool)
        ensures
            final(self).bus.io.cia1 == (crate::cia::Cia {
                joy_a: joy_mask(up, down, left, right, fire),
                ..old(self).bus.io.cia1
            }),
            final(self).bus.io == (crate::bus::IoDevices { cia1: final(self).bus.io.cia1, ..old(self).bus.io }),
            final(self).bus == (C64Bus { io: final(self).bus.io, ..old(self).bus }),
            final(self).cpu == old(self).cpu,
            final(self).framebuffer == old(self).framebuffer,
            old(self).wf() ==> final(self).wf(),
    {
        let mut m = 0xFFu8;
        if up {
            m &= !(1u8 << 0u8);
        }
        let ghost m1 = m;
        if down {
            m &= !(1u8 << 1u8);
        }
        let ghost m2 = m;
        if left {
            m &= !(1u8 << 2u8);
        }
        let ghost m3 = m;
        if right {
            m &= !(1u8 << 3u8);
        }
        let ghost m4 = m;
        if fire {
            m &= !(1u8 << 4u8);
        }
        assert(m == joy_mask(up, down, left, right, fire)) by (bit_vector)
            requires
                m1 == (if up { 0xFFu8 & !(1u8 << 0u8) } else { 0xFFu8 }),
                m2 == (if down { m1 & !(1u8 << 1u8) } else { m1 }),
                m3 == (if left { m2 & !(1u8 << 2u8) } else { m2 }),
                m4 == (if right { m3 & !(1u8 << 3u8) } else { m3 }),
                m == (if fire { m4 & !(1u8 << 4u8) } else { m4 }),
        ;
        self.bus.io.cia1.joy_a = m;
    }
}


/// A snapshot of machine state used to tell whether a loaded program has
/// taken over the machine: the processor port, the IRQ and NMI RAM vectors,
/// the VIC mode, sprite-enable and colour registers, and the SID volume byte.
#[derive(PartialEq, Eq, Structural, Clone, Copy, Debug)]
pub struct Indicators {
    pub port01: u8,
    pub irq_vec: u16,
    pub nmi_vec: u16,
    pub d011: u8,
    pub d016: u8,
    pub d018: u8,
    /// Sprite enable.
    pub d015: u8,
    pub d020: u8,
    pub d021: u8,
    /// $D418.
    pub sid_vol: u8,
}

impl Indicators {
    /// Take the snapshot. Reading the processor port has no side effect.
    pub fn capture(sys: &mut System) -> (r: Indicators)
        ensures
            *final(sys) == *old(sys),
            r == (Indicators {
                port01: old(sys).bus.spec_port_read(),
                irq_vec: (old(sys).bus.ram[0x0314] + old(sys).bus.ram[0x0315] * 256) as u16,
                nmi_vec: (old(sys).bus.ram[0x0318] + old(sys).bus.ram[0x0319] * 256) as u16,
                d011: old(sys).bus.io.vic.regs[0x11],
                d016: old(sys).bus.io.vic.regs[0x16],
                d018: old(sys).bus.io.vic.regs[0x18],
                d015: old(sys).bus.io.vic.regs[0x15],
                d020: old(sys).bus.io.vic.regs[0x20],
                d021: old(sys).bus.io.vic.regs[0x21],
                sid_vol: old(sys).bus.io.io_scratch[0x0418],
            }),
    {
        let port01 = sys.bus.read(0x0001);
        let irq_vec = sys.bus.ram[0x0314] as u16 + (sys.bus.ram[0x0315] as u16) * 256;
        let nmi_vec = sys.bus.ram[0x0318] as u16 + (sys.bus.ram[0x0319] as u16) * 256;
        Indicators {
            port01,
            irq_vec,
            nmi_vec,
            d011: sys.vic_reg(0x11),
            d016: sys.vic_reg(0x16),
            d018: sys.vic_reg(0x18),
            d015: sys.vic_reg(0x15),
            d020: sys.vic_reg(0x20),
            d021: sys.vic_reg(0x21),
            sid_vol: sys.bus.io.io_scratch[0x0418],
        }
    }
}

/// The number of cells among the first `n` that differ between two screens.
pub open spec fn count_changed(a: Seq<u8>, b: Seq<u8>, n: int) -> nat
    decreases n,
{
    if n <= 0 {
        0
    } else {
        count_changed(a, b, n - 1) + if a[n - 1] != b[n - 1] {
            1nat
        } else {
            0nat
        }
    }
}

/// The length of the shorter of two sequences.
pub open spec fn shorter(a: Seq<u8>, b: Seq<u8>) -> int {
    if a.len() <= b.len() {
        a.len() as int
    } else {
        b.len() as int
    }
}

/// Whether a loaded program has taken over the machine: the indicators
/// changed, more than 5 screen cells changed, or the CPU ran through more
/// than one distinct address and is outside the KERNAL ROM ($E000-$FFFF).
pub open spec fn spec_took_over(
    before: Indicators,
    after: Indicators,
    screen_before: Seq<u8>,
    screen_after: Seq<u8>,
    distinct: u32,
    pc: u16,
) -> bool {
    before != after || count_changed(screen_after, screen_before, shorter(screen_after, screen_before)) > 5 || (
    distinct > 1 && !(0xE000 <= pc <= 0xFFFF))
}

/// How many cells differ between two screen snapshots (compared up to the
/// shorter one).
pub fn screen_changes(a: &[u8], b: &[u8]) -> (n: usize)
    ensures
        n == count_changed(a@, b@, shorter(a@, b@)),
{
    let len = if a.len() <= b.len() { a.len() } else { b.len() };
    let mut n: usize = 0;
    let mut i: usize = 0;
    while i < len
        invariant
            len == shorter(a@, b@),
            i <= len,
            n == count_changed(a@, b@, i as int),
            n <= i,
        decreases len - i,
    {
        if a[i] != b[i] {
            n = n + 1;
        }
        i = i + 1;
    }
    n
}

/// Decide whether a loaded program has taken over the machine (see
/// `spec_took_over`).
pub fn took_over(
    before: &Indicators,
    after: &Indicators,
    screen_before: &[u8],
    screen_after: &[u8],
    distinct: u32,
    pc: u16,
) -> (r: bool)
    ensures
        r == spec_took_over(*before, *after, screen_before@, screen_after@, distinct, pc),
{
    let changed = screen_changes(screen_after, screen_before);
    *before != *after || changed > 5 || (distinct > 1 && !(0xE000 <= pc))
}

// ---------------------------------------------------------------------------
// Laws
// ---------------------------------------------------------------------------

/// Releasing a key undoes pressing it: press-then-release leaves the matrix
/// as a plain release does, which is the matrix itself when the key was up.
pub proof fn law_press_release(kb: Seq<u8>, column: u8, row: u8)
    requires
        kb.len() == 8,
    ensures
        key_matrix(key_matrix(kb, column, row, true), column, row, false) == key_matrix(kb, column, row, false),
        kb[(column % 8) as int] & (1u8 << (row % 8)) != 0 ==> key_matrix(
            key_matrix(kb, column, row, true),
            column,
            row,
            false,
        ) == kb,
{
    let c = (column % 8) as int;
    let x = kb[c];
    let r = row % 8;
    assert((x & !(1u8 << r)) | (1u8 << r) == x | (1u8 << r)) by (bit_vector);
    assert(x & (1u8 << r) != 0 ==> x | (1u8 << r) == x) by (bit_vector);
    assert(key_matrix(key_matrix(kb, column, row, true), column, row, false) =~= key_matrix(kb, column, row, false));
    if x & (1u8 << r) != 0 {
        assert(key_matrix(kb, column, row, false) =~= kb);
    }
}

/// A pressed key pulls its row bit low: with keyboard scanning on, no
/// joystick on port B and only the key's column selected on port A, port B
/// reads the key's row bit as 0.
pub proof fn law_pressed_key_reads_low(c: crate::cia::Cia, column: u8, row: u8)
    requires
        c.keyboard_enabled,
        c.joy_b == 0xFF,
        c.pra == !(1u8 << (column % 8)),
        c.keyboard@ == key_matrix(c.keyboard@, column, row, true),
    ensures
        crate::cia::spec_cia_read(c, crate::cia::REG_PRB).1 & (1u8 << (row % 8)) == 0,
{
    crate::cia::law_keyboard_column(c, column % 8);
    let col = (column % 8) as int;
    let x = c.keyboard@[col];
    let r = row % 8;
    vstd::array::lemma_array_index(c.keyboard, col);
    assert(key_matrix(c.keyboard@, column, row, true)[col] == x & !(1u8 << r));
    assert(x == x & !(1u8 << r));
    assert(x == x & !(1u8 << r) ==> x & (1u8 << r) == 0) by (bit_vector);
}

/// A held joystick direction or fire button reads as a 0 bit on port A of
/// CIA #1 (bits 0-4: up, down, left, right, fire), whatever the port drives.
pub proof fn law_joystick_reads_low(c: crate::cia::Cia, up: bool, down: bool, left: bool, right: bool, fire: bool)
    requires
        c.joy_a == joy_mask(up, down, left, right, fire),
    ensures
        ({
            let v = crate::cia::spec_cia_read(c, crate::cia::REG_PRA).1;
            &&& (up ==> v & 0x01 == 0)
            &&& (down ==> v & 0x02 == 0)
            &&& (left ==> v & 0x04 == 0)
            &&& (right ==> v & 0x08 == 0)
            &&& (fire ==> v & 0x10 == 0)
        }),
{
    let p = c.pra;
    let d = c.ddra;
    let j = c.joy_a;
    assert(j == joy_mask(up, down, left, right, fire) ==> {
        let v = (p | !d) & j;
        &&& (up ==> v & 0x01 == 0)
        &&& (down ==> v & 0x02 == 0)
        &&& (left ==> v & 0x04 == 0)
        &&& (right ==> v & 0x08 == 0)
        &&& (fire ==> v & 0x10 == 0)
    }) by (bit_vector);
}

} // verus!
