//! MOS 6581 SID audio synthesis (no analog filter).
//!
//! Three voices, each a 24-bit phase-accumulator oscillator with the four
//! waveforms (triangle, sawtooth, pulse, noise), ring modulation, and an ADSR
//! envelope using the SID rate table with the exponential decay/release
//! approximation. Voices are summed and scaled by the master volume.
//!
//! `clock(cycles)` advances the chip by that many SID clocks and appends mono
//! samples at `SAMPLE_RATE`: a sample is emitted each time the running count of
//! `SAMPLE_RATE` per clock passes a multiple of `SID_CLOCK`, so exactly
//! `SAMPLE_RATE` samples come out per `SID_CLOCK` clocks. The filter
//! ($D415-$D417 routing) is not modelled: every voice goes straight to the
//! output.
use vstd::prelude::*;

verus! {

/// PAL SID clock rate (clocks per second).
pub const SID_CLOCK: u32 = 985_248;
/// Output sample rate.
pub const SAMPLE_RATE: u32 = 44_100;

/// Envelope rate-counter periods (SID clocks) indexed by the 4-bit ADSR value.
pub const RATE: [u32; 16] = [
    9, 32, 63, 95, 149, 220, 267, 313, 392, 977, 1954, 3126, 3907, 11720, 19532, 31251,
];

pub open spec fn rate_period(i: int) -> u32 {
    if i == 0 {
        9
    } else if i == 1 {
        32
    } else if i == 2 {
        63
    } else if i == 3 {
        95
    } else if i == 4 {
        149
    } else if i == 5 {
        220
    } else if i == 6 {
        267
    } else if i == 7 {
        313
    } else if i == 8 {
        392
    } else if i == 9 {
        977
    } else if i == 10 {
        1954
    } else if i == 11 {
        3126
    } else if i == 12 {
        3907
    } else if i == 13 {
        11720
    } else if i == 14 {
        19532
    } else {
        31251
    }
}

fn rate(i: u8) -> (r: u32)
    requires
        i < 16,
    ensures
        r == rate_period(i as int),
{
    RATE[i as usize]
}

#[derive(Clone, Copy, PartialEq, Eq, Structural)]
pub enum EnvState {
    Attack,
    Decay,
    Release,
}

#[derive(Clone, Copy)]
pub struct Voice {
    pub freq: u16,
    /// 12-bit pulse width.
    pub pw: u16,
    pub control: u8,
    pub ad: u8,
    pub sr: u8,
    /// 24-bit phase accumulator.
    pub acc: u32,
    /// 23-bit noise shift register.
    pub lfsr: u32,
    /// Envelope level 0..255.
    pub env: u16,
    pub state: EnvState,
    pub rate_counter: u32,
    pub exp_counter: u32,
    pub gate: bool,
}

pub open spec fn spec_voice_new() -> Voice {
    Voice {
        freq: 0,
        pw: 0,
        control: 0,
        ad: 0,
        sr: 0,
        acc: 0,
        lfsr: 0x7F_FFFF,
        env: 0,
        state: EnvState::Release,
        rate_counter: 0,
        exp_counter: 0,
        gate: false,
    }
}

/// Gate on starts the attack, gate off the release; the test bit (3) holds
/// the oscillator at zero.
pub open spec fn spec_set_control(v: Voice, c: u8) -> Voice {
    let new_gate = c & 0x01 != 0;
    Voice {
        state: if new_gate && !v.gate {
            EnvState::Attack
        } else if !new_gate && v.gate {
            EnvState::Release
        } else {
            v.state
        },
        gate: new_gate,
        acc: if c & 0x08 != 0 { 0 } else { v.acc },
        control: c,
        ..v
    }
}

/// One oscillator clock: the accumulator adds the frequency modulo 2^24 (held
/// at 0 while the test bit is set); the noise LFSR shifts in bit 22 XOR bit 17
/// when accumulator bit 19 rises.
pub open spec fn spec_clock_osc(v: Voice) -> Voice {
    if v.control & 0x08 != 0 {
        Voice { acc: 0, ..v }
    } else {
        let acc = ((v.acc + v.freq) % 0x100_0000) as u32;
        let rises = v.acc & 0x0008_0000 == 0 && acc & 0x0008_0000 != 0;
        let bit = ((v.lfsr >> 22) ^ (v.lfsr >> 17)) & 1;
        Voice {
            acc: acc,
            lfsr: if rises { ((v.lfsr << 1) | bit) & 0x7F_FFFF } else { v.lfsr },
            ..v
        }
    }
}

/// The 8 LFSR bits that form the noise output, placed in bits 11..4.
pub open spec fn noise_bits(l: u32) -> u32 {
    (((l >> 20) & 1) << 11) | (((l >> 18) & 1) << 10) | (((l >> 14) & 1) << 9) | (((l >> 11) & 1)
        << 8) | (((l >> 9) & 1) << 7) | (((l >> 5) & 1) << 6) | (((l >> 2) & 1) << 5) | ((l & 1)
        << 4)
}

/// The 12-bit waveform output: the selected waveforms (control bits 4-7)
/// AND-ed together, 0 when none is selected. `ring_msb` is the top accumulator
/// bit of the ring-modulation source.
pub open spec fn spec_waveform(v: Voice, ring_msb: u32) -> u16 {
    let ctrl = v.control;
    if ctrl & 0xF0 == 0 {
        0
    } else {
        let tri_msb = if ctrl & 0x04 != 0 {
            ((v.acc >> 23) ^ ring_msb) & 1
        } else {
            (v.acc >> 23) & 1
        };
        let t0 = ((v.acc >> 11) & 0x0FFF) as u16;
        let tri = if tri_msb != 0 { t0 ^ 0x0FFF } else { t0 };
        let o1: u16 = if ctrl & 0x10 != 0 { 0x0FFF & tri } else { 0x0FFF };
        let o2: u16 = if ctrl & 0x20 != 0 { o1 & (((v.acc >> 12) & 0x0FFF) as u16) } else { o1 };
        let pulse: u16 = if ((v.acc >> 12) & 0x0FFF) >= v.pw as u32 { 0x0FFF } else { 0 };
        let o3: u16 = if ctrl & 0x40 != 0 { o2 & pulse } else { o2 };
        if ctrl & 0x80 != 0 {
            o3 & (noise_bits(v.lfsr) as u16)
        } else {
            o3
        }
    }
}

/// Exponential decay/release: the envelope steps once every this many rate
/// periods, longer at low levels.
pub open spec fn spec_exp_period(env: u16) -> u32 {
    if env == 0 {
        1
    } else if env <= 5 {
        30
    } else if env <= 13 {
        16
    } else if env <= 25 {
        8
    } else if env <= 53 {
        4
    } else if env <= 93 {
        2
    } else {
        1
    }
}

/// One envelope clock: the rate counter counts to the period of the current
/// phase (attack rate, decay rate, release rate); then attack raises the level
/// by 1 up to 255 (entering decay), decay lowers it towards the sustain level
/// and release towards 0, both through the exponential divider.
pub open spec fn spec_clock_env(v: Voice) -> Voice {
    let period = match v.state {
        EnvState::Attack => rate_period((v.ad / 16) as int),
        EnvState::Decay => rate_period((v.ad % 16) as int),
        EnvState::Release => rate_period((v.sr % 16) as int),
    };
    let rc = v.rate_counter + 1;
    if rc < period {
        Voice { rate_counter: rc as u32, ..v }
    } else {
        match v.state {
            EnvState::Attack => {
                if v.env >= 254 {
                    Voice { rate_counter: 0, env: 255, state: EnvState::Decay, ..v }
                } else {
                    Voice { rate_counter: 0, env: (v.env + 1) as u16, ..v }
                }
            },
            EnvState::Decay => {
                let ec = v.exp_counter + 1;
                if ec >= spec_exp_period(v.env) {
                    let sustain = (v.sr / 16) * 0x11;
                    Voice {
                        rate_counter: 0,
                        exp_counter: 0,
                        env: if v.env > sustain { (v.env - 1) as u16 } else { v.env },
                        ..v
                    }
                } else {
                    Voice { rate_counter: 0, exp_counter: ec as u32, ..v }
                }
            },
            EnvState::Release => {
                let ec = v.exp_counter + 1;
                if ec >= spec_exp_period(v.env) {
                    Voice {
                        rate_counter: 0,
                        exp_counter: 0,
                        env: if v.env > 0 { (v.env - 1) as u16 } else { v.env },
                        ..v
                    }
                } else {
                    Voice { rate_counter: 0, exp_counter: ec as u32, ..v }
                }
            },
        }
    }
}

impl Default for Voice {
    fn default() -> (v: Voice)
        ensures
            v == spec_voice_new(),
            v.inv(),
    {
        Voice::new()
    }
}

impl Voice {
    /// Bounds kept by every operation: 24-bit accumulator, 23-bit LFSR, 12-bit
    /// pulse width, 8-bit envelope, counters below their largest period.
    pub open spec fn inv(&self) -> bool {
        &&& self.acc < 0x100_0000
        &&& self.lfsr < 0x80_0000
        &&& self.pw < 0x1000
        &&& self.env <= 255
        &&& self.rate_counter < 31251
        &&& self.exp_counter < 30
    }

    fn new() -> (v: Voice)
        ensures
            v == spec_voice_new(),
            v.inv(),
    {
        Voice {
            freq: 0,
            pw: 0,
            control: 0,
            ad: 0,
            sr: 0,
            acc: 0,
            lfsr: 0x7F_FFFF,
            env: 0,
            state: EnvState::Release,
            rate_counter: 0,
            exp_counter: 0,
            gate: false,
        }
    }

    fn set_control(&mut self, v: u8)
        ensures
            *final(self) == spec_set_control(*old(self), v),
            old(self).inv() ==> final(self).inv(),
    {
        let new_gate = v & 0x01 != 0;
        if new_gate && !self.gate {
            self.state = EnvState::Attack;
        } else if !new_gate && self.gate {
            self.state = EnvState::Release;
        }
        self.gate = new_gate;
        if v & 0x08 != 0 {
            self.acc = 0;  // the test bit holds the oscillator reset
        }
        self.control = v;
    }

    fn clock_osc(&mut self)
        requires
            old(self).inv(),
        ensures
            *final(self) == spec_clock_osc(*old(self)),
            final(self).inv(),
    {
        if self.control & 0x08 != 0 {
            self.acc = 0;
            return;
        }
        let prev = self.acc;
        self.acc = (self.acc + self.freq as u32) % 0x100_0000;
        // Noise LFSR advances when accumulator bit 19 rises.
        if prev & 0x0008_0000 == 0 && self.acc & 0x0008_0000 != 0 {
            let l = self.lfsr;
            let bit = ((l >> 22) ^ (l >> 17)) & 1;
            let n = ((l << 1) | bit) & 0x7F_FFFF;
            assert(n < 0x80_0000) by (bit_vector)
                requires
                    n == ((l << 1) | bit) & 0x7F_FFFF,
            ;
            self.lfsr = n;
        }
    }

    fn waveform(&self, ring_msb: u32) -> (r: u16)
        ensures
            r == spec_waveform(*self, ring_msb),
            r <= 0x0FFF,
    {
        let ctrl = self.control;
        if ctrl & 0xF0 == 0 {
            return 0;
        }
        let mut out = 0x0FFFu16;  // combined waveforms are AND-ed together
        if ctrl & 0x10 != 0 {
            // Triangle.
            let msb = if ctrl & 0x04 != 0 {
                ((self.acc >> 23) ^ ring_msb) & 1
            } else {
                (self.acc >> 23) & 1
            };
            let mut t = ((self.acc >> 11) & 0x0FFF) as u16;
            if msb != 0 {
                t = t ^ 0x0FFF;
            }
            assert(out & t <= 0x0FFF) by (bit_vector)
                requires
                    out <= 0x0FFF,
            ;
            out = out & t;
        }
        if ctrl & 0x20 != 0 {
            // Sawtooth.
            let saw = ((self.acc >> 12) & 0x0FFF) as u16;
            assert(out & saw <= 0x0FFF) by (bit_vector)
                requires
                    out <= 0x0FFF,
            ;
            out = out & saw;
        }
        if ctrl & 0x40 != 0 {
            // Pulse.
            let p: u16 = if ((self.acc >> 12) & 0x0FFF) >= self.pw as u32 {
                0x0FFF
            } else {
                0
            };
            assert(out & p <= 0x0FFF) by (bit_vector)
                requires
                    out <= 0x0FFF,
            ;
            out = out & p;
        }
        if ctrl & 0x80 != 0 {
            // Noise: 8 bits of the LFSR in the high output bits.
            let l = self.lfsr;
            let n = (((l >> 20) & 1) << 11) | (((l >> 18) & 1) << 10) | (((l >> 14) & 1) << 9) | (((
            l >> 11) & 1) << 8) | (((l >> 9) & 1) << 7) | (((l >> 5) & 1) << 6) | (((l >> 2) & 1)
                << 5) | ((l & 1) << 4);
            let nn = n as u16;
            assert(out & nn <= 0x0FFF) by (bit_vector)
                requires
                    out <= 0x0FFF,
            ;
            out = out & nn;
        }
        out
    }

    fn exp_period(&self) -> (r: u32)
        ensures
            r == spec_exp_period(self.env),
    {
        if self.env == 0 {
            1
        } else if self.env <= 5 {
            30
        } else if self.env <= 13 {
            16
        } else if self.env <= 25 {
            8
        } else if self.env <= 53 {
            4
        } else if self.env <= 93 {
            2
        } else {
            1
        }
    }

    fn clock_env(&mut self)
        requires
            old(self).inv(),
        ensures
            *final(self) == spec_clock_env(*old(self)),
            final(self).inv(),
    {
        let period = match self.state {
            EnvState::Attack => rate(self.ad / 16),
            EnvState::Decay => rate(self.ad % 16),
            EnvState::Release => rate(self.sr % 16),
        };
        self.rate_counter = self.rate_counter + 1;
        if self.rate_counter < period {
            return;
        }
        self.rate_counter = 0;
        match self.state {
            EnvState::Attack => {
                if self.env >= 254 {
                    self.env = 255;
                    self.state = EnvState::Decay;
                } else {
                    self.env = self.env + 1;
                }
            },
            EnvState::Decay => {
                self.exp_counter = self.exp_counter + 1;
                if self.exp_counter >= self.exp_period() {
                    self.exp_counter = 0;
                    let sustain = (self.sr / 16) as u16 * 0x11;  // 0..255
                    if self.env > sustain {
                        self.env = self.env - 1;
                    }
                }
            },
            EnvState::Release => {
                self.exp_counter = self.exp_counter + 1;
                if self.exp_counter >= self.exp_period() {
                    self.exp_counter = 0;
                    if self.env > 0 {
                        self.env = self.env - 1;
                    }
                }
            },
        }
    }
}


pub struct Sid {
    /// Last value written to each register.
    pub regs: [u8; 0x20],
    pub voices: [Voice; 3],
    /// Sample pacing: `SAMPLE_RATE` is added per clock and a sample is emitted
    /// (and `SID_CLOCK` taken off) whenever the phase reaches `SID_CLOCK`.
    pub sample_phase: u32,
    /// Samples generated since the last `take_samples`.
    pub samples: Vec<i16>,
}

/// Rust's `/` on integers: division rounding toward zero.
pub open spec fn tdiv(a: int, b: int) -> int {
    if a >= 0 {
        a / b
    } else {
        -((-a) / b)
    }
}

/// A voice's contribution to the mix: its waveform centred on zero, scaled by
/// its envelope level / 256.
pub open spec fn voice_out(v: Voice, ring_msb: u32) -> int {
    tdiv((spec_waveform(v, ring_msb) - 2048) * v.env, 256)
}

/// One output sample: voices summed (voice 3 left out when bit 7 of $D418 is
/// set), times the master volume / 15, times 4, clamped to 16 bits. Ring
/// sources: voice 1 from voice 3, voice 2 from voice 1, voice 3 from voice 2.
pub open spec fn spec_mix(voices: [Voice; 3], mode_vol: u8) -> i16 {
    let ring0 = voices[2].acc >> 23;
    let ring1 = voices[0].acc >> 23;
    let ring2 = voices[1].acc >> 23;
    let sum = voice_out(voices[0], ring0) + voice_out(voices[1], ring1) + (if mode_vol & 0x80 != 0 {
        0
    } else {
        voice_out(voices[2], ring2)
    });
    let vol = (mode_vol & 0x0F) as int;
    let s = tdiv(sum * vol, 15) * 4;
    (if s < -32768 {
        -32768
    } else if s > 32767 {
        32767
    } else {
        s
    }) as i16
}

/// All three voices after one SID clock (oscillator, then envelope).
pub open spec fn step_voices(vs: [Voice; 3]) -> [Voice; 3] {
    vstd::array::spec_array_update(
        vstd::array::spec_array_update(
            vstd::array::spec_array_update(vs, 0, spec_clock_env(spec_clock_osc(vs[0]))),
            1,
            spec_clock_env(spec_clock_osc(vs[1])),
        ),
        2,
        spec_clock_env(spec_clock_osc(vs[2])),
    )
}

/// Voices, sample phase and emitted samples after `n` clocks.
pub open spec fn spec_clock_n(vs: [Voice; 3], phase: u32, mode_vol: u8, n: nat) -> ([Voice; 3], u32, Seq<i16>)
    decreases n,
{
    if n == 0 {
        (vs, phase, Seq::empty())
    } else {
        let (vs1, ph1, out1) = spec_clock_n(vs, phase, mode_vol, (n - 1) as nat);
        let vs2 = step_voices(vs1);
        let ph2 = ph1 + SAMPLE_RATE;
        if ph2 >= SID_CLOCK {
            (vs2, (ph2 - SID_CLOCK) as u32, out1.push(spec_mix(vs2, mode_vol)))
        } else {
            (vs2, ph2 as u32, out1)
        }
    }
}

/// What writing register `reg` does to a voice: frequency and pulse-width
/// bytes, control, attack/decay, sustain/release.
pub open spec fn spec_voice_write(v: Voice, field: int, value: u8) -> Voice {
    if field == 0 {
        Voice { freq: ((v.freq / 256) * 256 + value) as u16, ..v }
    } else if field == 1 {
        Voice { freq: (value * 256 + v.freq % 256) as u16, ..v }
    } else if field == 2 {
        Voice { pw: ((v.pw / 256) * 256 + value) as u16, ..v }
    } else if field == 3 {
        Voice { pw: ((value % 16) * 256 + v.pw % 256) as u16, ..v }
    } else if field == 4 {
        spec_set_control(v, value)
    } else if field == 5 {
        Voice { ad: value, ..v }
    } else {
        Voice { sr: value, ..v }
    }
}

/// The SID after writing `value` to register `reg` (low 5 bits).
pub open spec fn spec_sid_write(s: Sid, reg: u8, value: u8) -> Sid {
    let r = (reg % 32) as int;
    Sid {
        regs: vstd::array::spec_array_update(s.regs, r, value),
        voices: if r < 21 {
            vstd::array::spec_array_update(s.voices, r / 7, spec_voice_write(s.voices[r / 7], r % 7, value))
        } else {
            s.voices
        },
        ..s
    }
}

impl Default for Sid {
    fn default() -> (s: Sid)
        ensures
            s.inv(),
            s.regs@ == Seq::new(0x20, |i: int| 0u8),
            s.voices[0] == spec_voice_new(),
            s.voices[1] == spec_voice_new(),
            s.voices[2] == spec_voice_new(),
            s.sample_phase == 0,
            s.samples@.len() == 0,
    {
        Sid::new()
    }
}

impl Sid {
    /// Voice bounds hold and the sample phase is below one SID second.
    pub open spec fn inv(&self) -> bool {
        &&& self.voices[0].inv()
        &&& self.voices[1].inv()
        &&& self.voices[2].inv()
        &&& self.sample_phase < SID_CLOCK
    }

    /// A silent SID: voices idle, no samples.
    pub fn new() -> (s: Sid)
        ensures
            s.inv(),
            s.regs@ == Seq::new(0x20, |i: int| 0u8),
            s.voices[0] == spec_voice_new(),
            s.voices[1] == spec_voice_new(),
            s.voices[2] == spec_voice_new(),
            s.sample_phase == 0,
            s.samples@.len() == 0,
    {
        let s = Sid { regs: [0u8; 0x20], voices: [Voice::new(), Voice::new(), Voice::new()], sample_phase: 0, samples: Vec::new() };
        assert(s.regs@ =~= Seq::new(0x20, |i: int| 0u8));
        s
    }

    /// Write register `reg` (low 5 bits). Registers 0-20 program the three
    /// voices, 7 registers each; every value is also stored in `regs`.
    pub fn write(&mut self, reg: u8, value: u8)
        ensures
            *final(self) == spec_sid_write(*old(self), reg, value),
            old(self).inv() ==> final(self).inv(),
            final(self).regs@ == old(self).regs@.update((reg % 32) as int, value),
            final(self).sample_phase == old(self).sample_phase,
            final(self).samples@ == old(self).samples@,
            forall|i: int|
                0 <= i < 3 ==> #[trigger] final(self).voices[i] == if (reg % 32) < 21 && i == (reg % 32)
                    / 7 {
                    spec_voice_write(old(self).voices[i], ((reg % 32) % 7) as int, value)
                } else {
                    old(self).voices[i]
                },
    {
        let r = (reg & 0x1F) as usize;
        proof {
            crate::bits::lemma_byte_masks();
        }
        if r < 21 {
            let idx = r / 7;
            let mut v = self.voices[idx];
            match r % 7 {
                0 => v.freq = (v.freq / 256) * 256 + value as u16,
                1 => v.freq = (value as u16) * 256 + v.freq % 256,
                2 => v.pw = (v.pw / 256) * 256 + value as u16,
                3 => v.pw = ((value % 16) as u16) * 256 + v.pw % 256,
                4 => v.set_control(value),
                5 => v.ad = value,
                _ => v.sr = value,
            }
            self.voices[idx] = v;
        }
        self.regs[r] = value;
    }

    /// Read register `reg` (low 5 bits): $1B is the top 8 bits of voice 3's
    /// waveform (OSC3), $1C voice 3's envelope (ENV3); the rest are write-only
    /// and read 0.
    pub fn read(&self, reg: u8) -> (v: u8)
        ensures
            v == if reg % 32 == 0x1B {
                (spec_waveform(self.voices[2], 0) / 16) as u8
            } else if reg % 32 == 0x1C {
                (self.voices[2].env % 256) as u8
            } else {
                0
            },
    {
        let r = reg & 0x1F;
        proof {
            crate::bits::lemma_byte_masks();
        }
        if r == 0x1B {
            let w = self.voices[2].waveform(0);
            (w / 16) as u8
        } else if r == 0x1C {
            (self.voices[2].env % 256) as u8
        } else {
            0
        }
    }

    /// Advance the chip by `cycles` SID clocks, appending samples at
    /// `SAMPLE_RATE`.
    pub fn clock(&mut self, cycles: u64)
        requires
            old(self).inv(),
        ensures
            final(self).inv(),
            ({
                let (vs, ph, out) = spec_clock_n(old(self).voices, old(self).sample_phase, old(self).regs[0x18], cycles as nat);
                final(self).voices == vs && final(self).sample_phase == ph && final(self).samples@ == old(self).samples@ + out
            }),
            final(self).regs == old(self).regs,
    {
        let mut i: u64 = 0;
        while i < cycles
            invariant
                i <= cycles,
                self.inv(),
                self.regs == old(self).regs,
                ({
                    let (vs, ph, out) = spec_clock_n(old(self).voices, old(self).sample_phase, old(self).regs[0x18], i as nat);
                    self.voices == vs && self.sample_phase == ph && self.samples@ == old(self).samples@ + out
                }),
            decreases cycles - i,
        {
            self.clock_voices();
            self.sample_phase = self.sample_phase + SAMPLE_RATE;
            if self.sample_phase >= SID_CLOCK {
                self.sample_phase = self.sample_phase - SID_CLOCK;
                let m = self.mix();
                self.samples.push(m);
            }
            i = i + 1;
        }
    }

    fn clock_voices(&mut self)
        requires
            old(self).inv(),
        ensures
            final(self).inv(),
            final(self).voices == step_voices(old(self).voices),
            final(self).regs == old(self).regs,
            final(self).sample_phase == old(self).sample_phase,
            final(self).samples@ == old(self).samples@,
    {
        let mut k: usize = 0;
        while k < 3
            invariant
                k <= 3,
                forall|j: int| 0 <= j < 3 ==> #[trigger] self.voices[j] == if j < k {
                    spec_clock_env(spec_clock_osc(old(self).voices[j]))
                } else {
                    old(self).voices[j]
                },
                forall|j: int| 0 <= j < 3 ==> (#[trigger] self.voices[j]).inv(),
                self.regs == old(self).regs,
                self.sample_phase == old(self).sample_phase,
                self.sample_phase < SID_CLOCK,
                self.samples@ == old(self).samples@,
            decreases 3 - k,
        {
            let mut v = self.voices[k];
            v.clock_osc();
            v.clock_env();
            self.voices[k] = v;
            k = k + 1;
        }
        proof {
            let want = step_voices(old(self).voices);
            vstd::array::axiom_array_ext_equal(self.voices, want);
            assert(self.voices =~= want);
        }
    }

    fn mix(&self) -> (s: i16)
        requires
            self.inv(),
        ensures
            s == spec_mix(self.voices, self.regs[0x18]),
    {
        // Ring-mod sources: v0 <- v2, v1 <- v0, v2 <- v1.
        let ring = [self.voices[2].acc >> 23, self.voices[0].acc >> 23, self.voices[1].acc >> 23];
        let mut acc: i32 = 0;
        let v3_off = self.regs[0x18] & 0x80 != 0;  // voice 3 disconnect
        let mut i: usize = 0;
        while i < 3
            invariant
                i <= 3,
                self.inv(),
                ring@ == seq![self.voices[2].acc >> 23, self.voices[0].acc >> 23, self.voices[1].acc >> 23],
                acc == (if i >= 1 { voice_out(self.voices[0], ring@[0]) } else { 0 }) + (if i >= 2 {
                    voice_out(self.voices[1], ring@[1])
                } else {
                    0
                }) + (if i >= 3 && !v3_off { voice_out(self.voices[2], ring@[2]) } else { 0 }),
                -2048 * i <= acc <= 2048 * i,
            decreases 3 - i,
        {
            if !(i == 2 && v3_off) {
                let w = self.voices[i].waveform(ring[i]) as i32 - 2048;
                let e = self.voices[i].env as i32;
                assert(-2048 * 255 <= w * e <= 2047 * 255) by (nonlinear_arith)
                    requires
                        -2048 <= w <= 2047,
                        0 <= e <= 255,
                ;
                let d = w * e / 256;
                assert(-2048 <= d <= 2048);
                acc = acc + d;
            }
            i = i + 1;
        }
        let mode_vol = self.regs[0x18];
        let vol = (mode_vol & 0x0F) as i32;
        proof {
            crate::bits::lemma_byte_masks();
        }
        assert(-6200 * 15 <= acc * vol <= 6200 * 15) by (nonlinear_arith)
            requires
                -6200 <= acc <= 6200,
                0 <= vol <= 15,
        ;
        let s = acc * vol / 15 * 4;
        if s < -32768 {
            -32768
        } else if s > 32767 {
            32767
        } else {
            s as i16
        }
    }

    /// Take the samples generated since the last call.
    pub fn take_samples(&mut self) -> (out: Vec<i16>)
        ensures
            out@ == old(self).samples@,
            final(self).samples@.len() == 0,
            final(self).regs == old(self).regs,
            final(self).voices == old(self).voices,
            final(self).sample_phase == old(self).sample_phase,
    {
        let mut out = Vec::new();
        core::mem::swap(&mut out, &mut self.samples);
        out
    }
}


// ---------------------------------------------------------------------------
// Laws
// ---------------------------------------------------------------------------

/// Sample pacing is exact: `n` clocks from phase `phase` emit
/// `(phase + n * SAMPLE_RATE) / SID_CLOCK` samples and leave the remainder as
/// the new phase, so every `SID_CLOCK` clocks give exactly `SAMPLE_RATE`
/// samples.
pub proof fn law_sample_pacing(vs: [Voice; 3], phase: u32, mode_vol: u8, n: nat)
    requires
        phase < SID_CLOCK,
    ensures
        ({
            let (_, ph, out) = spec_clock_n(vs, phase, mode_vol, n);
            &&& out.len() == (phase + n * SAMPLE_RATE) / (SID_CLOCK as int)
            &&& ph == (phase + n * SAMPLE_RATE) % (SID_CLOCK as int)
        }),
    decreases n,
{
    if n > 0 {
        law_sample_pacing(vs, phase, mode_vol, (n - 1) as nat);
        let x = phase + (n - 1) * SAMPLE_RATE;
        let q = x / (SID_CLOCK as int);
        let r = x % (SID_CLOCK as int);
        vstd::arithmetic::div_mod::lemma_fundamental_div_mod(x, SID_CLOCK as int);
        let y = x + SAMPLE_RATE;
        assert(y == phase + n * SAMPLE_RATE);
        if r + SAMPLE_RATE >= SID_CLOCK {
            vstd::arithmetic::div_mod::lemma_fundamental_div_mod_converse(y, SID_CLOCK as int, q + 1, r + SAMPLE_RATE - SID_CLOCK);
        } else {
            vstd::arithmetic::div_mod::lemma_fundamental_div_mod_converse(y, SID_CLOCK as int, q, r + SAMPLE_RATE);
        }
    }
}

} // verus!
