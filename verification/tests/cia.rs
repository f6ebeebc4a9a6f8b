use c64emu::cia::{Cia, CR_FORCELOAD, CR_ONESHOT, CR_START, ICR_IRQ, ICR_TA, ICR_TB, REG_CRA, REG_CRB, REG_ICR, REG_PRA, REG_PRB, REG_TA_HI, REG_TA_LO, REG_TB_HI, REG_TB_LO};

#[test]
fn timer_a_underflow_raises_irq_when_enabled() {
    let mut cia = Cia::new();
    // Enable Timer A interrupt: write ICR with bit7 set + ICR_TA.
    cia.write(REG_ICR, 0x80 | ICR_TA);
    // Latch = 3, force-load, start, continuous, phi2 mode.
    cia.write(REG_TA_LO, 3);
    cia.write(REG_TA_HI, 0);
    cia.write(REG_CRA, CR_START | CR_FORCELOAD);

    // Counter starts at 3; it underflows after 4 ticks (3,2,1,0->reload).
    assert!(!cia.tick(3));
    assert!(cia.tick(1), "IRQ line should assert on underflow");

    // Reading ICR reports the source and clears the line.
    let icr = cia.read(REG_ICR);
    assert!(icr & ICR_IRQ != 0);
    assert!(icr & ICR_TA != 0);
    assert!(!cia.irq());
}

#[test]
fn underflow_without_mask_does_not_assert_irq() {
    let mut cia = Cia::new();
    cia.write(REG_TA_LO, 1);
    cia.write(REG_TA_HI, 0);
    cia.write(REG_CRA, CR_START | CR_FORCELOAD);
    // No ICR enable written -> line stays low even though TA flag latches.
    cia.tick(4);
    assert!(!cia.irq());
    let icr = cia.read(REG_ICR);
    assert!(icr & ICR_TA != 0, "flag still latches in data reg");
}

#[test]
fn oneshot_stops_after_underflow() {
    let mut cia = Cia::new();
    cia.write(REG_TA_LO, 2);
    cia.write(REG_TA_HI, 0);
    cia.write(REG_CRA, CR_START | CR_ONESHOT | CR_FORCELOAD);
    cia.tick(3); // 2,1,0->underflow+reload, start cleared
    assert_eq!(cia.read(REG_CRA) & CR_START, 0);
}

#[test]
fn keyboard_matrix_read() {
    let mut cia = Cia::cia1();
    // Press the key at column 1, row 5 (clear bit 5 of that column).
    cia.keyboard[1] = !(1 << 5);
    // Select column 1 by driving port A bit 1 low (others high).
    cia.write(REG_PRA, !(1 << 1));
    let pb = cia.read(REG_PRB);
    assert_eq!(pb & (1 << 5), 0, "row 5 should read low for the pressed key");
}

// ---------------------------------------------------------------------------
// Further cases
// ---------------------------------------------------------------------------

#[test]
fn second_icr_read_is_empty() {
    let mut cia = Cia::new();
    cia.write(REG_ICR, 0x80 | ICR_TA);
    cia.write(REG_TA_LO, 0);
    cia.write(REG_TA_HI, 0);
    cia.write(REG_CRA, CR_START | CR_FORCELOAD);
    assert!(cia.tick(1));
    let first = cia.read(REG_ICR);
    assert_eq!(first, ICR_IRQ | ICR_TA);
    assert_eq!(cia.read(REG_ICR), 0);
}

#[test]
fn timer_reloads_from_latch_and_keeps_running() {
    let mut cia = Cia::new();
    cia.write(REG_TA_LO, 5);
    cia.write(REG_TA_HI, 0);
    cia.write(REG_CRA, CR_START | CR_FORCELOAD);
    cia.tick(6); // 5..0, then reload
    assert_eq!(cia.timer_a, 5);
    assert_eq!(cia.cra & CR_START, CR_START);
    cia.tick(2);
    assert_eq!(cia.timer_a, 3);
    assert_eq!(cia.read(REG_TA_LO), 3);
    assert_eq!(cia.read(REG_TA_HI), 0);
}

#[test]
fn timer_b_counts_and_latches_its_flag() {
    let mut cia = Cia::new();
    cia.write(REG_ICR, 0x80 | ICR_TB);
    cia.write(REG_TB_LO, 1);
    cia.write(REG_TB_HI, 0);
    cia.write(REG_CRB, CR_START | CR_FORCELOAD | CR_ONESHOT);
    assert!(!cia.tick(1));
    assert!(cia.tick(1));
    assert_eq!(cia.read(REG_CRB) & CR_START, 0);
    assert_eq!(cia.read(REG_ICR), ICR_IRQ | ICR_TB);
}

#[test]
fn disabling_the_source_releases_irq() {
    let mut cia = Cia::new();
    cia.write(REG_ICR, 0x80 | ICR_TA);
    cia.write(REG_CRA, CR_START | CR_FORCELOAD);
    cia.write(REG_TA_LO, 0);
    cia.write(REG_TA_HI, 0);
    cia.write(REG_CRA, CR_START | CR_FORCELOAD);
    assert!(cia.tick(1));
    cia.write(REG_ICR, ICR_TA); // bit 7 clear: disable TA
    assert!(!cia.irq());
}

#[test]
fn joystick_pulls_port_a_low() {
    let mut cia = Cia::cia1();
    cia.joy_a = 0xFF & !0x10; // fire held
    assert_eq!(cia.read(REG_PRA) & 0x10, 0);
    assert_eq!(cia.read(REG_PRA) & 0x0F, 0x0F);
}
