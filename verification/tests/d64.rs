use c64emu::d64::{basic_sys_target, parse_sys_target, DirEntry, D64, DISK_SIZE_35};

#[test]
fn parses_sys_stub() {
    // 0B 08  CA 07  9E  "2059"  00  -> SYS 2059
    let payload = [0x0B, 0x08, 0xCA, 0x07, 0x9E, b'2', b'0', b'5', b'9', 0x00];
    assert_eq!(basic_sys_target(&payload), Some(2059));
}

#[test]
fn geometry_offsets() {
    // Track 1 sector 0 is offset 0; track 18 sector 0 is the BAM at 0x16500.
    assert_eq!(D64::sector_offset(1, 0), 0);
    assert_eq!(D64::sector_offset(18, 0), 0x16500);
    // 17 tracks * 21 sectors = 357 sectors before track 18.
    assert_eq!(D64::sector_offset(18, 0), 357 * 256);
}

#[test]
fn sectors_per_track_zones() {
    assert_eq!(D64::sectors_per_track(1), 21);
    assert_eq!(D64::sectors_per_track(18), 19);
    assert_eq!(D64::sectors_per_track(25), 18);
    assert_eq!(D64::sectors_per_track(35), 17);
}

// ---------------------------------------------------------------------------
// Further cases
// ---------------------------------------------------------------------------

fn off(t: u8, s: u8) -> usize {
    D64::sector_offset(t, s)
}

/// A blank image with a BAM name, a one-sector directory holding two files
/// and a scratched slot, and a two-sector program.
fn sample_image() -> Vec<u8> {
    let mut img = vec![0u8; DISK_SIZE_35];
    // Disk name "  GAMES DISK" padded with $A0.
    let bam = off(18, 0);
    let name = b"  GAMES DISK";
    for i in 0..16 {
        img[bam + 0x90 + i] = if i < name.len() { name[i] } else { 0xA0 };
    }
    // Directory sector 18/1, end of chain.
    let d = off(18, 1);
    img[d] = 0;
    img[d + 1] = 0xFF;
    // Slot 0: SEQ "NOTES".
    let e = d;
    img[e + 2] = 0x81;
    img[e + 3] = 17;
    img[e + 4] = 0;
    for (i, b) in b"NOTES".iter().enumerate() {
        img[e + 5 + i] = *b;
    }
    for i in 5..16 {
        img[e + 5 + i] = 0xA0;
    }
    img[e + 30] = 1;
    // Slot 1: PRG "game" (lower case) at 17/3, 2 blocks.
    let e = d + 32;
    img[e + 2] = 0x82;
    img[e + 3] = 17;
    img[e + 4] = 3;
    for (i, b) in b"game".iter().enumerate() {
        img[e + 5 + i] = *b;
    }
    for i in 4..16 {
        img[e + 5 + i] = 0xA0;
    }
    img[e + 30] = 2;
    // Slot 2: scratched (type 0, track 0) with leftover bytes.
    let e = d + 64;
    img[e + 5] = b'X';
    // Program: 17/3 -> 17/7 (254 bytes), 17/7 last with 4 bytes used.
    let p = off(17, 3);
    img[p] = 17;
    img[p + 1] = 7;
    for i in 0..254 {
        img[p + 2 + i] = i as u8;
    }
    let q = off(17, 7);
    img[q] = 0;
    img[q + 1] = 5; // offset of the final used byte: 4 data bytes
    img[q + 2..q + 6].copy_from_slice(&[0xAA, 0xBB, 0xCC, 0xDD]);
    img
}

#[test]
fn image_too_small_is_refused() {
    assert!(D64::from_bytes(vec![0u8; DISK_SIZE_35 - 1]).is_none());
    assert!(D64::from_bytes(vec![0u8; DISK_SIZE_35]).is_some());
}

#[test]
fn disk_name_is_trimmed() {
    let d = D64::from_bytes(sample_image()).unwrap();
    assert_eq!(d.disk_name(), "GAMES DISK");
}

#[test]
fn directory_skips_scratched_slots() {
    let d = D64::from_bytes(sample_image()).unwrap();
    assert!(d.directory_readable());
    let dir = d.directory();
    assert_eq!(dir.len(), 2);
    assert_eq!(dir[0].name, b"NOTES".to_vec());
    assert_eq!(dir[0].file_type, 0x81);
    assert_eq!(dir[0].blocks, 1);
    assert!(!dir[0].is_prg());
    assert_eq!(dir[1].name_ascii(), "game");
    assert!(dir[1].is_prg());
    assert_eq!((dir[1].track, dir[1].sector, dir[1].blocks), (17, 3, 2));
}

#[test]
fn find_star_and_case_insensitive_names() {
    let d = D64::from_bytes(sample_image()).unwrap();
    let first_prg = d.find("*").unwrap();
    assert_eq!(first_prg.name_ascii(), "game");
    assert_eq!(d.find("GAME").unwrap().track, 17);
    assert_eq!(d.find("notes").unwrap().file_type, 0x81);
    assert!(d.find("missing").is_none());
}

#[test]
fn read_file_follows_the_chain() {
    let d = D64::from_bytes(sample_image()).unwrap();
    let e = d.find("*").unwrap();
    assert!(d.file_readable(&e));
    let bytes = d.read_file(&e);
    assert_eq!(bytes.len(), 254 + 4);
    assert_eq!(bytes[0], 0);
    assert_eq!(bytes[253], 253);
    assert_eq!(&bytes[254..], &[0xAA, 0xBB, 0xCC, 0xDD]);
}

#[test]
fn chain_loop_is_cut() {
    let mut img = sample_image();
    // Make 17/7 link back to 17/3.
    let q = off(17, 7);
    img[q] = 17;
    img[q + 1] = 3;
    let d = D64::from_bytes(img).unwrap();
    let e = d.find("game").unwrap();
    assert_eq!(d.read_file(&e).len(), 2 * 254);
}

#[test]
fn chain_off_the_image_is_reported() {
    let mut img = sample_image();
    let p = off(17, 3);
    img[p] = 200; // track 200 lies beyond the image
    let d = D64::from_bytes(img).unwrap();
    let e = d.find("game").unwrap();
    assert!(!d.file_readable(&e));
}

#[test]
fn sys_target_skips_spaces_and_needs_digits() {
    assert_eq!(basic_sys_target(&[0x9E, b' ', b' ', b'4', b'9', b'1', b'5', b'2', 0]), Some(49152));
    assert_eq!(basic_sys_target(&[0x9E, b'(', b'1', b')']), None);
    assert_eq!(basic_sys_target(&[0x01, 0x02, 0x03]), None);
    assert_eq!(basic_sys_target(&[0x9E, b'1', b' ', b'2']), Some(1));
    // Truncated to 16 bits as the cast does.
    assert_eq!(basic_sys_target(&[0x9E, b'6', b'5', b'5', b'3', b'7']), Some(1));
}

#[test]
fn sys_target_falls_back_past_the_stub() {
    assert_eq!(parse_sys_target(&[0x9E, b'2', b'0', b'6', b'1'], 0x0801), 2061);
    assert_eq!(parse_sys_target(&[0x00], 0x0801), 0x080B);
    assert_eq!(parse_sys_target(&[], 0xFFF8), 0x0002);
}

#[test]
fn last_sector_ends_the_image() {
    assert_eq!(D64::sector_offset(35, 16) + 256, DISK_SIZE_35);
    assert_eq!(D64::sectors_per_track(0), 17);
}

#[test]
fn entry_fields_are_public() {
    let e = DirEntry { name: vec![b'A', 0x01], file_type: 0x02, track: 1, sector: 0, blocks: 0 };
    assert_eq!(e.name_ascii(), "A?");
    assert!(e.is_prg());
}
