use c64emu::bus::Bus;
use c64emu::system::{took_over, Indicators, System, CYCLES_PER_FRAME};

#[test]
fn new_machine_is_blank() {
    let sys = System::new();
    assert_eq!(sys.framebuffer.len(), 384 * 272 * 3);
    assert!(sys.framebuffer.iter().all(|&b| b == 0));
    assert_eq!(sys.cpu.cycles, 0);
    assert!(!sys.ready_prompt_shown());
}

#[test]
fn key_press_and_release() {
    let mut sys = System::new();
    sys.key(1, 5, true);
    assert_eq!(sys.bus.io.cia1.keyboard[1], !(1u8 << 5));
    // Column 1 selected on port A: row 5 reads low.
    sys.bus.io.cia1.pra = !(1u8 << 1);
    assert_eq!(sys.bus.io.cia1.read(1) & (1 << 5), 0);
    sys.key(1, 5, false);
    assert_eq!(sys.bus.io.cia1.keyboard[1], 0xFF);
    // Positions wrap modulo 8.
    sys.key(9, 13, true);
    assert_eq!(sys.bus.io.cia1.keyboard[1], !(1u8 << 5));
}

#[test]
fn joystick_bits_are_active_low() {
    let mut sys = System::new();
    sys.set_joy2(true, false, false, true, true);
    assert_eq!(sys.bus.io.cia1.joy_a, 0xFF & !0x01 & !0x08 & !0x10);
    sys.set_joy2(false, false, false, false, false);
    assert_eq!(sys.bus.io.cia1.joy_a, 0xFF);
}

#[test]
fn vic_register_is_mirrored() {
    let mut sys = System::new();
    sys.bus.io.vic.regs[0x20] = 9;
    assert_eq!(sys.vic_reg(0x20), 9);
    assert_eq!(sys.vic_reg(0x60), 9);
}

#[test]
fn ready_prompt_is_found_anywhere_on_screen() {
    let mut sys = System::new();
    let ready = [18u8, 5, 1, 4, 25, 46];
    sys.inject(0x0400 + 994, &ready);
    assert!(sys.ready_prompt_shown());
    let mut sys = System::new();
    sys.inject(0x0400 + 995, &ready); // runs past the 1000 screen cells
    assert!(!sys.ready_prompt_shown());
}

#[test]
fn inject_wraps_at_64k() {
    let mut sys = System::new();
    sys.inject(0xFFFE, &[1, 2, 3, 4]);
    assert_eq!(sys.bus.ram[0xFFFE], 1);
    assert_eq!(sys.bus.ram[0xFFFF], 2);
    assert_eq!(sys.bus.ram[0x0000], 3);
    assert_eq!(sys.bus.ram[0x0001], 4);
}

#[test]
fn run_frame_advances_a_frame_and_renders() {
    let mut sys = System::new();
    sys.bus.io.vic.regs[0x20] = 1; // white border
    sys.reset();
    let start = sys.cpu.cycles;
    sys.run_frame();
    assert!(sys.cpu.cycles >= start + CYCLES_PER_FRAME);
    assert!(sys.cpu.cycles < start + CYCLES_PER_FRAME + 14);
    // A border line has been drawn white.
    let y = 10;
    let i = y * 384 * 3;
    assert_eq!(&sys.framebuffer[i..i + 3], &[0xFF, 0xFF, 0xFF]);
}

#[test]
fn take_audio_drains_samples() {
    let mut sys = System::new();
    sys.run_frame();
    let n = sys.take_audio().len();
    assert!(n >= 800 && n <= 900, "{n}");
    assert!(sys.take_audio().is_empty());
}

#[test]
fn cia2_timer_raises_nmi_through_the_frame_loop() {
    let mut sys = System::new();
    // CIA #2 timer A: latch 100, IRQ enabled -> NMI line.
    sys.bus.write(0xDD0D, 0x81);
    sys.bus.write(0xDD04, 100);
    sys.bus.write(0xDD05, 0);
    sys.bus.write(0xDD0E, 0x11);
    // NMI vector in KERNAL ROM -> $C000, where a JMP $C000 loops.
    sys.bus.kernal_rom[0x1FFA] = 0x00;
    sys.bus.kernal_rom[0x1FFB] = 0xC0;
    sys.bus.ram[0xC000] = 0x4C;
    sys.bus.ram[0xC001] = 0x00;
    sys.bus.ram[0xC002] = 0xC0;
    sys.cpu.pc = 0xC000;
    sys.run_frame();
    assert_eq!(sys.cpu.pc, 0xC000);
    assert!(sys.cpu.prev_nmi);
}

#[test]
fn load_and_start_uses_the_sys_stub() {
    let mut sys = System::new();
    // Load address $0801, stub "SYS 2061".
    let file = [0x01, 0x08, 0x0B, 0x08, 0x0A, 0x00, 0x9E, b'2', b'0', b'6', b'1', 0x00];
    assert_eq!(sys.load_and_start(&file), Some(2061));
    assert_eq!(sys.cpu.pc, 2061);
    assert_eq!(sys.bus.ram[0x0801], 0x0B);
    assert_eq!(sys.bus.ram[0x0809], b'1');
    // Too short: nothing happens.
    let mut sys2 = System::new();
    assert_eq!(sys2.load_and_start(&[0x01, 0x08]), None);
    assert_eq!(sys2.cpu.pc, 0);
}

#[test]
fn load_and_start_without_stub_jumps_past_it() {
    let mut sys = System::new();
    assert_eq!(sys.load_and_start(&[0x00, 0xC0, 0xEA]), Some(0xC00A));
    assert_eq!(sys.bus.ram[0xC000], 0xEA);
}

#[test]
fn indicators_snapshot_registers_and_vectors() {
    let mut sys = System::new();
    sys.bus.ram[0x0314] = 0x31;
    sys.bus.ram[0x0315] = 0xEA;
    sys.bus.io.vic.regs[0x20] = 14;
    sys.bus.io.io_scratch[0x0418] = 15;
    let a = c64emu::system::Indicators::capture(&mut sys);
    assert_eq!(a.port01, 0x37);
    assert_eq!(a.irq_vec, 0xEA31);
    assert_eq!(a.d020, 14);
    assert_eq!(a.sid_vol, 15);
    let b = c64emu::system::Indicators::capture(&mut sys);
    assert!(a == b);
}

#[test]
fn boot_without_roms_never_shows_ready() {
    let mut sys = System::new();
    sys.reset();
    assert!(!sys.boot_to_ready());
    assert!(sys.cpu.cycles >= 250 * CYCLES_PER_FRAME);
}

#[test]
fn defaults_match_new() {
    let a = System::default();
    assert_eq!(a.cpu.pc, 0);
    assert_eq!(a.bus.port_data, 0x37);
    let c = c64emu::cia::Cia::default();
    assert_eq!(c.timer_a, 0xFFFF);
    let v = c64emu::vic::Vic::default();
    assert_eq!(v.raster, 0);
}

#[test]
fn screen_changes_counts_differing_cells() {
    let a = [1u8, 2, 3, 4];
    let b = [1u8, 0, 3, 0, 9];
    assert_eq!(c64emu::system::screen_changes(&a, &b), 2);
    assert_eq!(c64emu::system::screen_changes(&a, &a), 0);
}

#[test]
fn took_over_heuristic() {
    let mut sys = System::new();
    let before = Indicators::capture(&mut sys);
    let same = before;
    let screen = vec![32u8; 1000];
    // Nothing changed and the CPU sits in the KERNAL.
    assert!(!took_over(&before, &same, &screen, &screen, 5, 0xE5CD));
    // Outside the KERNAL with more than one address visited.
    assert!(took_over(&before, &same, &screen, &screen, 2, 0x0810));
    assert!(!took_over(&before, &same, &screen, &screen, 1, 0x0810));
    // Six cells changed.
    let mut after_screen = screen.clone();
    for i in 0..6 {
        after_screen[i] = 0;
    }
    assert!(took_over(&before, &same, &screen, &after_screen, 0, 0xE000));
    // An indicator changed.
    sys.bus.io.vic.regs[0x20] = 2;
    let after = Indicators::capture(&mut sys);
    assert!(took_over(&before, &after, &screen, &screen, 0, 0xE000));
}

#[test]
fn boot_stops_at_the_first_ready_screen() {
    let mut sys = System::new();
    // A program that writes "READY." to the screen and loops.
    let ready = [18u8, 5, 1, 4, 25, 46];
    let mut prog = Vec::new();
    for (i, c) in ready.iter().enumerate() {
        prog.extend_from_slice(&[0xA9, *c, 0x8D, (0x00 + i) as u8, 0x04]); // LDA #c ; STA $0400+i
    }
    prog.extend_from_slice(&[0x4C, 0x1E, 0x10]); // JMP $101E (itself)
    sys.inject(0x1000, &prog);
    sys.cpu.pc = 0x1000;
    let start = sys.cpu.cycles;
    assert!(sys.boot_to_ready());
    // One frame was enough.
    assert!(sys.cpu.cycles < start + 2 * CYCLES_PER_FRAME);
    assert!(sys.ready_prompt_shown());
}

#[test]
fn step_machine_runs_one_instruction_and_ticks_devices() {
    let mut sys = System::new();
    // LDA #$42 at $C000.
    sys.bus.ram[0xC000] = 0xA9;
    sys.bus.ram[0xC001] = 0x42;
    sys.cpu.pc = 0xC000;
    let start = sys.cpu.cycles;
    let line_cycles = sys.bus.io.vic.line_cycles;
    sys.step_machine();
    assert_eq!(sys.cpu.a, 0x42);
    assert_eq!(sys.cpu.pc, 0xC002);
    assert_eq!(sys.cpu.cycles, start + 2);
    assert_eq!(sys.bus.io.vic.line_cycles, line_cycles + 2);
}
