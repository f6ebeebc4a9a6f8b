use c64emu::bus::FlatRam;
use c64emu::cpu::{Cpu, FLAG_CARRY, FLAG_DECIMAL, FLAG_IRQ_DISABLE, FLAG_NEGATIVE, FLAG_OVERFLOW, FLAG_UNUSED, FLAG_ZERO};

/// Build a CPU + flat RAM with `prog` loaded at $0200 and PC pointed there.
fn setup(prog: &[u8]) -> (Cpu, FlatRam) {
    let mut ram = FlatRam::new();
    ram.load(0x0200, prog);
    let mut cpu = Cpu::new();
    cpu.pc = 0x0200;
    (cpu, ram)
}

#[test]
fn lda_immediate_sets_zn() {
    let (mut cpu, mut ram) = setup(&[0xA9, 0x00]); // LDA #$00
    cpu.step(&mut ram);
    assert_eq!(cpu.a, 0x00);
    assert!(cpu.get_flag(FLAG_ZERO));
    assert!(!cpu.get_flag(FLAG_NEGATIVE));

    let (mut cpu, mut ram) = setup(&[0xA9, 0x80]); // LDA #$80
    cpu.step(&mut ram);
    assert_eq!(cpu.a, 0x80);
    assert!(!cpu.get_flag(FLAG_ZERO));
    assert!(cpu.get_flag(FLAG_NEGATIVE));
}

#[test]
fn adc_basic_and_carry_overflow() {
    // LDA #$50 ; ADC #$50  -> $A0, V set, N set, C clear
    let (mut cpu, mut ram) = setup(&[0xA9, 0x50, 0x69, 0x50]);
    cpu.step(&mut ram);
    cpu.step(&mut ram);
    assert_eq!(cpu.a, 0xA0);
    assert!(cpu.get_flag(FLAG_OVERFLOW));
    assert!(cpu.get_flag(FLAG_NEGATIVE));
    assert!(!cpu.get_flag(FLAG_CARRY));
}

#[test]
fn adc_carry_out() {
    // LDA #$FF ; ADC #$01 -> $00, C set, Z set
    let (mut cpu, mut ram) = setup(&[0xA9, 0xFF, 0x69, 0x01]);
    cpu.step(&mut ram);
    cpu.step(&mut ram);
    assert_eq!(cpu.a, 0x00);
    assert!(cpu.get_flag(FLAG_CARRY));
    assert!(cpu.get_flag(FLAG_ZERO));
}

#[test]
fn sbc_basic() {
    // SEC ; LDA #$50 ; SBC #$30 -> $20, C set (no borrow)
    let (mut cpu, mut ram) = setup(&[0x38, 0xA9, 0x50, 0xE9, 0x30]);
    cpu.step(&mut ram); // SEC
    cpu.step(&mut ram); // LDA
    cpu.step(&mut ram); // SBC
    assert_eq!(cpu.a, 0x20);
    assert!(cpu.get_flag(FLAG_CARRY));
}

#[test]
fn adc_decimal_mode() {
    // SED ; CLC ; LDA #$09 ; ADC #$01 -> $10 in BCD
    let (mut cpu, mut ram) = setup(&[0xF8, 0x18, 0xA9, 0x09, 0x69, 0x01]);
    cpu.step(&mut ram); // SED
    cpu.step(&mut ram); // CLC
    cpu.step(&mut ram); // LDA #$09
    cpu.step(&mut ram); // ADC #$01
    assert_eq!(cpu.a, 0x10);
    assert!(!cpu.get_flag(FLAG_CARRY));
}

#[test]
fn jsr_rts_roundtrip() {
    // $0200: JSR $0205 ; (then) at $0205: RTS
    let mut ram = FlatRam::new();
    ram.load(0x0200, &[0x20, 0x05, 0x02]); // JSR $0205
    ram.load(0x0205, &[0x60]); // RTS
    let mut cpu = Cpu::new();
    cpu.pc = 0x0200;
    cpu.sp = 0xFD;
    cpu.step(&mut ram); // JSR
    assert_eq!(cpu.pc, 0x0205);
    cpu.step(&mut ram); // RTS
    assert_eq!(cpu.pc, 0x0203);
}

#[test]
fn branch_taken_adds_cycles_and_moves_pc() {
    // LDA #$00 (Z=1) ; BEQ +2
    let (mut cpu, mut ram) = setup(&[0xA9, 0x00, 0xF0, 0x02]);
    cpu.step(&mut ram); // LDA
    let before = cpu.cycles;
    cpu.step(&mut ram); // BEQ taken
    // base 2 + 1 taken = 3 cycles, no page cross
    assert_eq!(cpu.cycles - before, 3);
    // PC = 0x0204 (after operand) + 2 = 0x0206
    assert_eq!(cpu.pc, 0x0206);
}

#[test]
fn indexed_indirect_and_indirect_indexed() {
    // (indirect),Y : set up pointer at $10 -> $0300, Y=4 => read $0304
    let mut ram = FlatRam::new();
    ram.mem[0x10] = 0x00;
    ram.mem[0x11] = 0x03;
    ram.mem[0x0304] = 0x42;
    ram.load(0x0200, &[0xA0, 0x04, 0xB1, 0x10]); // LDY #4 ; LDA ($10),Y
    let mut cpu = Cpu::new();
    cpu.pc = 0x0200;
    cpu.step(&mut ram); // LDY
    cpu.step(&mut ram); // LDA
    assert_eq!(cpu.a, 0x42);
}

#[test]
fn php_plp_preserves_break_and_unused() {
    // PHP pushes with B and bit5 set; PLP restores ignoring B.
    let (mut cpu, mut ram) = setup(&[0x08, 0x28]);
    cpu.sp = 0xFD;
    cpu.set_flag(FLAG_CARRY, true);
    cpu.step(&mut ram); // PHP
    cpu.set_flag(FLAG_CARRY, false);
    cpu.step(&mut ram); // PLP restores carry
    assert!(cpu.get_flag(FLAG_CARRY));
    assert!(cpu.get_flag(FLAG_UNUSED));
}

#[test]
fn inc_dec_memory() {
    // INC $20 from 0xFF -> 0x00, Z set
    let mut ram = FlatRam::new();
    ram.mem[0x20] = 0xFF;
    ram.load(0x0200, &[0xE6, 0x20]);
    let mut cpu = Cpu::new();
    cpu.pc = 0x0200;
    cpu.step(&mut ram);
    assert_eq!(ram.mem[0x20], 0x00);
    assert!(cpu.get_flag(FLAG_ZERO));
}

// ---------------------------------------------------------------------------
// Further cases
// ---------------------------------------------------------------------------

#[test]
fn decimal_adc_carries_into_hundreds() {
    // SED ; SEC ; LDA #$58 ; ADC #$46 -> 58 + 46 + 1 = 105: A = $05, C set
    let (mut cpu, mut ram) = setup(&[0xF8, 0x38, 0xA9, 0x58, 0x69, 0x46]);
    for _ in 0..4 {
        cpu.step(&mut ram);
    }
    assert!(cpu.get_flag(FLAG_DECIMAL));
    assert_eq!(cpu.a, 0x05);
    assert!(cpu.get_flag(FLAG_CARRY));
}

#[test]
fn decimal_sbc_borrows() {
    // SED ; SEC ; LDA #$12 ; SBC #$34 -> 12 - 34 = -22: A = $78, C clear
    let (mut cpu, mut ram) = setup(&[0xF8, 0x38, 0xA9, 0x12, 0xE9, 0x34]);
    for _ in 0..4 {
        cpu.step(&mut ram);
    }
    assert_eq!(cpu.a, 0x78);
    assert!(!cpu.get_flag(FLAG_CARRY));
    // SEC ; SBC #$01 -> 78 - 1 = 77
    let (mut cpu, mut ram) = setup(&[0xF8, 0x38, 0xA9, 0x78, 0xE9, 0x01]);
    for _ in 0..4 {
        cpu.step(&mut ram);
    }
    assert_eq!(cpu.a, 0x77);
    assert!(cpu.get_flag(FLAG_CARRY));
}

#[test]
fn push_pull_accumulator() {
    // LDA #$5A ; PHA ; LDA #$00 ; PLA -> A = $5A, SP back
    let (mut cpu, mut ram) = setup(&[0xA9, 0x5A, 0x48, 0xA9, 0x00, 0x68]);
    let sp = cpu.sp;
    for _ in 0..4 {
        cpu.step(&mut ram);
    }
    assert_eq!(cpu.a, 0x5A);
    assert_eq!(cpu.sp, sp);
    assert_eq!(ram.mem[0x0100 + sp as usize], 0x5A);
}

#[test]
fn jsr_pushes_return_address_minus_one() {
    let (mut cpu, mut ram) = setup(&[0x20, 0x00, 0x30]); // JSR $3000
    cpu.sp = 0xFF;
    let before = cpu.cycles;
    cpu.step(&mut ram);
    assert_eq!(cpu.pc, 0x3000);
    assert_eq!(cpu.sp, 0xFD);
    assert_eq!(ram.mem[0x01FF], 0x02);
    assert_eq!(ram.mem[0x01FE], 0x02);
    assert_eq!(cpu.cycles - before, 6);
}

#[test]
fn nmi_is_edge_triggered() {
    let mut ram = FlatRam::new();
    ram.mem[0xFFFA] = 0x00;
    ram.mem[0xFFFB] = 0x40; // NMI vector -> $4000
    ram.mem[0x4000] = 0xEA; // NOP
    ram.mem[0x4001] = 0xEA; // NOP
    let mut cpu = Cpu::new();
    cpu.pc = 0x0200;
    let sp = cpu.sp;
    cpu.nmi();
    let before = cpu.cycles;
    let n = cpu.step(&mut ram);
    // The frame is pushed and the handler's first instruction runs.
    assert_eq!(n, 7 + 2);
    assert_eq!(cpu.cycles - before, 9);
    assert_eq!(cpu.pc, 0x4001);
    assert_eq!(cpu.sp, sp.wrapping_sub(3));
    assert!(cpu.get_flag(FLAG_IRQ_DISABLE));
    // The line stays high: no second NMI, the handler goes on.
    cpu.nmi();
    cpu.step(&mut ram);
    assert_eq!(cpu.pc, 0x4002);
}

#[test]
fn irq_waits_for_cli() {
    let mut ram = FlatRam::new();
    ram.mem[0xFFFE] = 0x00;
    ram.mem[0xFFFF] = 0x50; // IRQ vector -> $5000
    ram.mem[0x5000] = 0xEA; // NOP
    ram.load(0x0200, &[0xEA, 0x58, 0xEA]); // NOP ; CLI ; NOP
    let mut cpu = Cpu::new(); // I is set at power-on
    cpu.pc = 0x0200;
    cpu.irq();
    cpu.step(&mut ram); // NOP: IRQ masked
    assert_eq!(cpu.pc, 0x0201);
    assert!(cpu.irq_pending);
    cpu.step(&mut ram); // CLI
    assert_eq!(cpu.pc, 0x0202);
    let n = cpu.step(&mut ram); // IRQ taken, then the handler's NOP
    assert_eq!(n, 9);
    assert_eq!(cpu.pc, 0x5001);
    assert!(cpu.get_flag(FLAG_IRQ_DISABLE));
    assert!(!cpu.irq_pending);
    // Pushed status has B clear and bit 5 set; the return address is $0202.
    assert_eq!(ram.mem[0x0100 + cpu.sp as usize + 1] & 0x30, 0x20);
    assert_eq!(ram.mem[0x0100 + cpu.sp as usize + 2], 0x02);
    assert_eq!(ram.mem[0x0100 + cpu.sp as usize + 3], 0x02);
}

#[test]
fn reset_loads_vector() {
    let mut ram = FlatRam::new();
    ram.mem[0xFFFC] = 0x34;
    ram.mem[0xFFFD] = 0x12;
    let mut cpu = Cpu::new();
    cpu.cycles = 100;
    cpu.reset(&mut ram);
    assert_eq!(cpu.pc, 0x1234);
    assert_eq!(cpu.sp, 0xFD);
    assert!(cpu.get_flag(FLAG_IRQ_DISABLE));
    // The count restarts: 7 cycles since reset.
    assert_eq!(cpu.cycles, 7);
}

#[test]
fn brk_then_rti_returns_past_the_padding_byte() {
    let mut ram = FlatRam::new();
    ram.mem[0xFFFE] = 0x00;
    ram.mem[0xFFFF] = 0x30; // IRQ/BRK vector -> $3000
    ram.mem[0x3000] = 0x40; // RTI
    ram.load(0x0200, &[0x00, 0xFF, 0xEA]); // BRK, padding, NOP
    let mut cpu = Cpu::new();
    cpu.pc = 0x0200;
    cpu.sp = 0xFF;
    cpu.set_flag(FLAG_CARRY, true);
    let status = cpu.status;
    let before = cpu.cycles;
    cpu.step(&mut ram); // BRK
    assert_eq!(cpu.pc, 0x3000);
    assert_eq!(cpu.sp, 0xFC);
    assert_eq!(ram.mem[0x01FF], 0x02);
    assert_eq!(ram.mem[0x01FE], 0x02);
    assert_eq!(ram.mem[0x01FD], status | 0x30);
    cpu.step(&mut ram); // RTI
    assert_eq!(cpu.pc, 0x0202);
    assert_eq!(cpu.sp, 0xFF);
    assert_eq!(cpu.status, (status & !0x10) | 0x20);
    assert_eq!(cpu.cycles - before, 13);
}

#[test]
fn binary_sbc_is_adc_of_complement() {
    // SEC ; LDA #$10 ; SBC #$20 -> $F0, borrow (C clear), N set
    let (mut cpu, mut ram) = setup(&[0x38, 0xA9, 0x10, 0xE9, 0x20]);
    for _ in 0..3 {
        cpu.step(&mut ram);
    }
    assert_eq!(cpu.a, 0xF0);
    assert!(!cpu.get_flag(FLAG_CARRY));
    assert!(cpu.get_flag(FLAG_NEGATIVE));
    // CLC ; LDA #$80 ; SBC #$00 -> $7F (borrow 1), signed overflow, C set
    let (mut cpu, mut ram) = setup(&[0x18, 0xA9, 0x80, 0xE9, 0x00]);
    for _ in 0..3 {
        cpu.step(&mut ram);
    }
    assert_eq!(cpu.a, 0x7F);
    assert!(cpu.get_flag(FLAG_OVERFLOW));
    assert!(cpu.get_flag(FLAG_CARRY));
}

#[test]
fn jmp_indirect_page_wrap_bug() {
    // JMP ($02FF) reads the high byte from $0200, not $0300.
    let mut ram = FlatRam::new();
    ram.load(0x0400, &[0x6C, 0xFF, 0x02]);
    ram.mem[0x02FF] = 0x34;
    ram.mem[0x0200] = 0x12;
    ram.mem[0x0300] = 0x99;
    let mut cpu = Cpu::new();
    cpu.pc = 0x0400;
    cpu.step(&mut ram);
    assert_eq!(cpu.pc, 0x1234);
}

#[test]
fn page_cross_adds_a_cycle() {
    // LDX #$01 ; LDA $02FF,X -> reads $0300 with one extra cycle
    let (mut cpu, mut ram) = setup(&[0xA2, 0x01, 0xBD, 0xFF, 0x02]);
    ram.mem[0x0300] = 0x77;
    cpu.step(&mut ram);
    let before = cpu.cycles;
    cpu.step(&mut ram);
    assert_eq!(cpu.a, 0x77);
    assert_eq!(cpu.cycles - before, 5);
}

#[test]
fn compare_sets_carry_and_zero() {
    // LDA #$40 ; CMP #$40 -> Z, C ; CMP #$41 -> N, !C
    let (mut cpu, mut ram) = setup(&[0xA9, 0x40, 0xC9, 0x40, 0xC9, 0x41]);
    cpu.step(&mut ram);
    cpu.step(&mut ram);
    assert!(cpu.get_flag(FLAG_ZERO));
    assert!(cpu.get_flag(FLAG_CARRY));
    cpu.step(&mut ram);
    assert!(!cpu.get_flag(FLAG_ZERO));
    assert!(!cpu.get_flag(FLAG_CARRY));
    assert!(cpu.get_flag(FLAG_NEGATIVE));
}

#[test]
fn shifts_and_rotates() {
    // SEC ; LDA #$81 ; ROL A -> $03, C set ; LSR A -> $01, C set ; ROR A -> $80, C set
    let (mut cpu, mut ram) = setup(&[0x38, 0xA9, 0x81, 0x2A, 0x4A, 0x6A]);
    cpu.step(&mut ram);
    cpu.step(&mut ram);
    cpu.step(&mut ram);
    assert_eq!(cpu.a, 0x03);
    assert!(cpu.get_flag(FLAG_CARRY));
    cpu.step(&mut ram);
    assert_eq!(cpu.a, 0x01);
    assert!(cpu.get_flag(FLAG_CARRY));
    cpu.step(&mut ram);
    assert_eq!(cpu.a, 0x80);
    assert!(cpu.get_flag(FLAG_CARRY));
}
