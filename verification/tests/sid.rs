use c64emu::sid::{Sid, SAMPLE_RATE, SID_CLOCK};

#[test]
fn produces_samples_at_rate() {
    let mut sid = Sid::new();
    sid.clock(SID_CLOCK as u64); // one second of SID time
    let n = sid.take_samples().len();
    // Should be ~44100 samples (within rounding).
    assert!((n as i32 - SAMPLE_RATE as i32).abs() < 100, "got {n}");
}

#[test]
fn gated_voice_rises_then_releases() {
    let mut sid = Sid::new();
    sid.write(0x05, 0x00); // attack=0 (fast), decay=0
    sid.write(0x06, 0xF0); // sustain=15 (full), release=0
    sid.write(0x01, 0x10); // some frequency
    sid.write(0x04, 0x11); // pulse... actually triangle+gate (0x10|0x01)
    sid.clock(5000);
    assert!(sid.voices[0].env > 0, "envelope should have risen with gate on");
    sid.write(0x04, 0x10); // gate off -> release
    sid.clock(50000);
    assert_eq!(sid.voices[0].env, 0, "envelope should release to 0");
}

// ---------------------------------------------------------------------------
// Further cases
// ---------------------------------------------------------------------------

#[test]
fn one_second_gives_exactly_the_sample_rate() {
    let mut sid = Sid::new();
    sid.clock(SID_CLOCK as u64);
    assert_eq!(sid.take_samples().len(), SAMPLE_RATE as usize);
    assert_eq!(sid.sample_phase, 0);
    assert!(sid.take_samples().is_empty());
}

#[test]
fn silent_chip_outputs_zero() {
    let mut sid = Sid::new();
    sid.clock(1000);
    let s = sid.take_samples();
    assert_eq!(s.len(), (1000 * SAMPLE_RATE as usize) / SID_CLOCK as usize);
    assert!(s.iter().all(|&x| x == 0));
}

#[test]
fn envelope_register_reads_voice_three() {
    let mut sid = Sid::new();
    sid.write(0x13, 0x00); // voice 3 attack 0
    sid.write(0x14, 0xF0); // sustain 15
    sid.write(0x12, 0x11); // triangle + gate
    sid.clock(3000);
    assert_eq!(sid.read(0x1C), (sid.voices[2].env & 0xFF) as u8);
    assert!(sid.read(0x1C) > 0);
    assert_eq!(sid.read(0x00), 0);
}
