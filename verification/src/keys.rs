//! The host keyboard as the emulator sees it: which C64 matrix position a
//! host key presses, and which joystick input it drives.
use vstd::prelude::*;

verus! {

/// The host keys the frontend maps; every other key is `Other`.
#[derive(Clone, Copy, PartialEq, Eq, Structural, Debug)]
pub enum HostKey {
    A,
    B,
    C,
    D,
    E,
    F,
    G,
    H,
    I,
    J,
    K,
    L,
    M,
    N,
    O,
    P,
    Q,
    R,
    S,
    T,
    U,
    V,
    W,
    X,
    Y,
    Z,
    Num0,
    Num1,
    Num2,
    Num3,
    Num4,
    Num5,
    Num6,
    Num7,
    Num8,
    Num9,
    Return,
    Space,
    Tab,
    Escape,
    Backspace,
    Up,
    Down,
    Left,
    Right,
    LShift,
    RShift,
    LCtrl,
    Comma,
    Period,
    Slash,
    Semicolon,
    Minus,
    Equals,
    Other,
}

/// The C64 keyboard matrix position `(column, row)` a host key presses.
pub open spec fn spec_matrix_pos(key: HostKey) -> Option<(u8, u8)> {
    match key {
        HostKey::A => Some((1, 2)),
        HostKey::B => Some((3, 4)),
        HostKey::C => Some((2, 4)),
        HostKey::D => Some((2, 2)),
        HostKey::E => Some((1, 6)),
        HostKey::F => Some((2, 5)),
        HostKey::G => Some((3, 2)),
        HostKey::H => Some((3, 5)),
        HostKey::I => Some((4, 1)),
        HostKey::J => Some((4, 2)),
        HostKey::K => Some((4, 5)),
        HostKey::L => Some((5, 2)),
        HostKey::M => Some((4, 4)),
        HostKey::N => Some((4, 7)),
        HostKey::O => Some((4, 6)),
        HostKey::P => Some((5, 1)),
        HostKey::Q => Some((7, 6)),
        HostKey::R => Some((2, 1)),
        HostKey::S => Some((1, 5)),
        HostKey::T => Some((2, 6)),
        HostKey::U => Some((3, 6)),
        HostKey::V => Some((3, 7)),
        HostKey::W => Some((1, 1)),
        HostKey::X => Some((2, 7)),
        HostKey::Y => Some((3, 1)),
        HostKey::Z => Some((1, 4)),
        HostKey::Num0 => Some((4, 3)),
        HostKey::Num1 => Some((7, 0)),
        HostKey::Num2 => Some((7, 3)),
        HostKey::Num3 => Some((1, 0)),
        HostKey::Num4 => Some((1, 3)),
        HostKey::Num5 => Some((2, 0)),
        HostKey::Num6 => Some((2, 3)),
        HostKey::Num7 => Some((3, 0)),
        HostKey::Num8 => Some((3, 3)),
        HostKey::Num9 => Some((4, 0)),
        HostKey::Return => Some((0, 1)),
        HostKey::Space => Some((7, 4)),
        // RUN/STOP.
        HostKey::Tab | HostKey::Escape => Some((7, 7)),
        // INST/DEL.
        HostKey::Backspace => Some((0, 0)),
        HostKey::Right => Some((0, 2)),
        HostKey::Down => Some((0, 7)),
        HostKey::LShift => Some((1, 7)),
        HostKey::RShift => Some((6, 4)),
        HostKey::LCtrl => Some((7, 2)),
        HostKey::Comma => Some((5, 7)),
        HostKey::Period => Some((5, 4)),
        HostKey::Slash => Some((6, 7)),
        HostKey::Semicolon => Some((6, 2)),
        HostKey::Minus => Some((5, 3)),
        HostKey::Equals => Some((6, 5)),
        _ => None,
    }
}

/// The joystick-2 input a host key drives: 0 up, 1 down, 2 left, 3 right,
/// 4 fire. The arrow keys drive the stick and Right-Shift is fire.
pub open spec fn spec_joy_index(key: HostKey) -> Option<usize> {
    match key {
        HostKey::Up => Some(0),
        HostKey::Down => Some(1),
        HostKey::Left => Some(2),
        HostKey::Right => Some(3),
        HostKey::RShift => Some(4),
        _ => None,
    }
}

/// Map a host key to a C64 keyboard matrix position `(column, row)`.
pub fn matrix_pos(key: HostKey) -> (r: Option<(u8, u8)>)
    ensures
        r == spec_matrix_pos(key),
        r matches Some((c, w)) ==> c < 8 && w < 8,
{
    match key {
        HostKey::A => Some((1, 2)),
        HostKey::B => Some((3, 4)),
        HostKey::C => Some((2, 4)),
        HostKey::D => Some((2, 2)),
        HostKey::E => Some((1, 6)),
        HostKey::F => Some((2, 5)),
        HostKey::G => Some((3, 2)),
        HostKey::H => Some((3, 5)),
        HostKey::I => Some((4, 1)),
        HostKey::J => Some((4, 2)),
        HostKey::K => Some((4, 5)),
        HostKey::L => Some((5, 2)),
        HostKey::M => Some((4, 4)),
        HostKey::N => Some((4, 7)),
        HostKey::O => Some((4, 6)),
        HostKey::P => Some((5, 1)),
        HostKey::Q => Some((7, 6)),
        HostKey::R => Some((2, 1)),
        HostKey::S => Some((1, 5)),
        HostKey::T => Some((2, 6)),
        HostKey::U => Some((3, 6)),
        HostKey::V => Some((3, 7)),
        HostKey::W => Some((1, 1)),
        HostKey::X => Some((2, 7)),
        HostKey::Y => Some((3, 1)),
        HostKey::Z => Some((1, 4)),
        HostKey::Num0 => Some((4, 3)),
        HostKey::Num1 => Some((7, 0)),
        HostKey::Num2 => Some((7, 3)),
        HostKey::Num3 => Some((1, 0)),
        HostKey::Num4 => Some((1, 3)),
        HostKey::Num5 => Some((2, 0)),
        HostKey::Num6 => Some((2, 3)),
        HostKey::Num7 => Some((3, 0)),
        HostKey::Num8 => Some((3, 3)),
        HostKey::Num9 => Some((4, 0)),
        HostKey::Return => Some((0, 1)),
        HostKey::Space => Some((7, 4)),
        HostKey::Tab | HostKey::Escape => Some((7, 7)),
        HostKey::Backspace => Some((0, 0)),
        HostKey::Right => Some((0, 2)),
        HostKey::Down => Some((0, 7)),
        HostKey::LShift => Some((1, 7)),
        HostKey::RShift => Some((6, 4)),
        HostKey::LCtrl => Some((7, 2)),
        HostKey::Comma => Some((5, 7)),
        HostKey::Period => Some((5, 4)),
        HostKey::Slash => Some((6, 7)),
        HostKey::Semicolon => Some((6, 2)),
        HostKey::Minus => Some((5, 3)),
        HostKey::Equals => Some((6, 5)),
        _ => None,
    }
}

/// Map a host key to a joystick-2 input: index 0 up, 1 down, 2 left,
/// 3 right, 4 fire.
pub fn joy_index(key: HostKey) -> (r: Option<usize>)
    ensures
        r == spec_joy_index(key),
        r matches Some(j) ==> j < 5,
{
    match key {
        HostKey::Up => Some(0),
        HostKey::Down => Some(1),
        HostKey::Left => Some(2),
        HostKey::Right => Some(3),
        // Right-Shift sits by the arrows and is no system shortcut.
        HostKey::RShift => Some(4),
        _ => None,
    }
}

/// The matrix: no two host keys press the same position except the two
/// RUN/STOP keys (Tab and Escape).
pub proof fn law_matrix_positions_distinct(k1: HostKey, k2: HostKey)
    requires
        k1 != k2,
        spec_matrix_pos(k1) is Some,
        !((k1 == HostKey::Tab || k1 == HostKey::Escape) && (k2 == HostKey::Tab || k2 == HostKey::Escape)),
    ensures
        spec_matrix_pos(k1) != spec_matrix_pos(k2),
{
}

} // verus!
