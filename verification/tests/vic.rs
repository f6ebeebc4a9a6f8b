use c64emu::vic::{Vic, CYCLES_PER_LINE, LINES_PER_FRAME};

#[test]
fn raster_advances_and_wraps() {
    let mut vic = Vic::new();
    // One full line.
    vic.tick(CYCLES_PER_LINE as u64);
    assert_eq!(vic.read(0xD012), 1);
    // Advance to the last line, then one more wraps to 0.
    vic.tick((CYCLES_PER_LINE as u64) * (LINES_PER_FRAME as u64 - 1));
    assert_eq!(vic.raster, 0);
    assert_eq!(vic.read(0xD012), 0);
}

#[test]
fn raster_bit8_in_cr1() {
    let mut vic = Vic::new();
    // Advance past line 255 so the high bit appears in $D011 bit 7.
    vic.tick((CYCLES_PER_LINE as u64) * 256);
    assert_eq!(vic.read(0xD012), 0); // low byte of 256
    assert_eq!(vic.read(0xD011) & 0x80, 0x80);
}

#[test]
fn raster_compare_latches_irq_when_enabled() {
    let mut vic = Vic::new();
    vic.write(0xD012, 5); // compare line 5
    vic.write(0xD01A, 0x01); // enable raster IRQ
    vic.tick((CYCLES_PER_LINE as u64) * 5);
    assert!(vic.irq());
    assert!(vic.read(0xD019) & 0x80 != 0);
    // Acknowledge clears it.
    vic.write(0xD019, 0x01);
    assert!(!vic.irq());
}

// ---------------------------------------------------------------------------
// Further cases
// ---------------------------------------------------------------------------

#[test]
fn full_frame_returns_to_same_line_and_latches_compare() {
    let mut vic = Vic::new();
    vic.tick(100 * CYCLES_PER_LINE as u64 + 10);
    vic.write(0xD012, 40); // compare line 40, already passed
    let (line, cyc) = (vic.raster, vic.line_cycles);
    vic.tick(CYCLES_PER_LINE as u64 * LINES_PER_FRAME as u64);
    assert_eq!(vic.raster, line);
    assert_eq!(vic.line_cycles, cyc);
    assert_eq!(vic.irq_latch & 1, 1);
}

#[test]
fn registers_mirror_every_64_bytes() {
    let mut vic = Vic::new();
    vic.write(0xD020, 0x0E);
    assert_eq!(vic.reg(0x20), 0x0E);
    vic.write(0xD060, 0x03); // mirror of $D020
    assert_eq!(vic.reg(0x20), 0x03);
    assert_eq!(vic.reg(0x60), 0x03);
}

#[test]
fn compare_disabled_sets_latch_but_not_irq() {
    let mut vic = Vic::new();
    vic.write(0xD012, 2);
    vic.tick(CYCLES_PER_LINE as u64 * 3);
    assert!(!vic.irq());
    assert_eq!(vic.read(0xD019) & 0x01, 0x01);
}
