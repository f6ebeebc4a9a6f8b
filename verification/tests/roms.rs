use c64emu::bus::C64Bus;
use c64emu::roms::{install_rom, Rom, RomError};

#[test]
fn wrong_size_is_refused() {
    let mut bus = C64Bus::new();
    match install_rom(&mut bus, Rom::Kernal, &[0u8; 100]) {
        Err(RomError::WrongSize { name, expected, got }) => {
            assert_eq!(name, "kernal");
            assert_eq!(expected, 0x2000);
            assert_eq!(got, 100);
        }
        _ => panic!("expected a size error"),
    }
    assert!(bus.kernal_rom.iter().all(|&b| b == 0));
}

#[test]
fn right_size_is_installed() {
    let mut bus = C64Bus::new();
    let data: Vec<u8> = (0..0x1000).map(|i| (i % 251) as u8).collect();
    assert!(install_rom(&mut bus, Rom::Chargen, &data).is_ok());
    assert_eq!(&bus.char_rom[..], &data[..]);
    assert!(bus.basic_rom.iter().all(|&b| b == 0));
    let basic = vec![0xAAu8; 0x2000];
    assert!(install_rom(&mut bus, Rom::Basic, &basic).is_ok());
    assert_eq!(bus.basic_rom[0x1FFF], 0xAA);
}

#[test]
fn io_errors_convert() {
    let e: RomError = std::io::Error::new(std::io::ErrorKind::NotFound, "no basic ROM found").into();
    assert!(matches!(e, RomError::Io(_)));
}
