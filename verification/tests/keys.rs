use c64emu::keys::{joy_index, matrix_pos, HostKey};

#[test]
fn letters_and_digits_map_to_the_matrix() {
    assert_eq!(matrix_pos(HostKey::A), Some((1, 2)));
    assert_eq!(matrix_pos(HostKey::Z), Some((1, 4)));
    assert_eq!(matrix_pos(HostKey::Num0), Some((4, 3)));
    assert_eq!(matrix_pos(HostKey::Return), Some((0, 1)));
    assert_eq!(matrix_pos(HostKey::Space), Some((7, 4)));
}

#[test]
fn tab_and_escape_are_run_stop() {
    assert_eq!(matrix_pos(HostKey::Tab), Some((7, 7)));
    assert_eq!(matrix_pos(HostKey::Escape), Some((7, 7)));
    assert_eq!(matrix_pos(HostKey::Other), None);
    assert_eq!(matrix_pos(HostKey::Up), None);
}

#[test]
fn arrows_and_right_shift_drive_the_joystick() {
    assert_eq!(joy_index(HostKey::Up), Some(0));
    assert_eq!(joy_index(HostKey::Down), Some(1));
    assert_eq!(joy_index(HostKey::Left), Some(2));
    assert_eq!(joy_index(HostKey::Right), Some(3));
    assert_eq!(joy_index(HostKey::RShift), Some(4));
    assert_eq!(joy_index(HostKey::A), None);
}
