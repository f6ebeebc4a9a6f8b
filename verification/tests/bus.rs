use c64emu::bus::{Bus, C64Bus, FlatRam};

#[test]
fn flat_ram_reads_back_writes() {
    let mut ram = FlatRam::new();
    ram.write(0x1234, 0x56);
    assert_eq!(ram.read(0x1234), 0x56);
    assert_eq!(ram.read(0x1235), 0);
    assert_eq!(ram.read_word(0x1234), 0x0056);
}

#[test]
fn flat_load_wraps() {
    let mut ram = FlatRam::new();
    ram.load(0xFFFF, &[7, 8]);
    assert_eq!(ram.mem[0xFFFF], 7);
    assert_eq!(ram.mem[0x0000], 8);
}

#[test]
fn write_under_basic_rom_lands_in_ram() {
    let mut bus = C64Bus::new();
    bus.basic_rom[0] = 0x94;
    bus.write(0xA000, 0x42);
    assert_eq!(bus.read(0xA000), 0x94); // ROM visible
    bus.write(0x0001, 0x36); // LORAM low: BASIC out
    assert_eq!(bus.read(0xA000), 0x42);
}

#[test]
fn write_under_kernal_rom_lands_in_ram() {
    let mut bus = C64Bus::new();
    bus.kernal_rom[0x1FFC] = 0xE2;
    bus.write(0xFFFC, 0x11);
    assert_eq!(bus.read(0xFFFC), 0xE2);
    bus.write(0x0001, 0x35); // HIRAM low: KERNAL out
    assert_eq!(bus.read(0xFFFC), 0x11);
}

#[test]
fn io_window_and_char_rom() {
    let mut bus = C64Bus::new();
    bus.char_rom[0x10] = 0x3C;
    bus.write(0xD020, 0x05); // VIC border register
    assert_eq!(bus.io.vic.regs[0x20], 0x05);
    bus.write(0xD800, 0xF3); // colour RAM keeps the low nybble
    assert_eq!(bus.io.color_ram[0], 0x03);
    assert_eq!(bus.read(0xD800), 0xF3);
    bus.write(0x0001, 0x33); // CHAREN low: character ROM at $D000
    assert_eq!(bus.read(0xD010), 0x3C);
    bus.write(0x0001, 0x30); // all low: RAM everywhere
    bus.ram[0xD010] = 0x99;
    assert_eq!(bus.read(0xD010), 0x99);
}

#[test]
fn processor_port_reads() {
    let mut bus = C64Bus::new();
    assert_eq!(bus.read(0x0000), 0x2F);
    assert_eq!(bus.read(0x0001), 0x37);
}

#[test]
fn zero_page_pointer_bug_wraps_within_page() {
    let mut ram = FlatRam::new();
    ram.mem[0x10FF] = 0x34;
    ram.mem[0x1000] = 0x12;
    ram.mem[0x1100] = 0x99;
    assert_eq!(ram.read_word_bug(0x10FF), 0x1234);
    assert_eq!(ram.read_word(0x10FF), 0x9934);
}
