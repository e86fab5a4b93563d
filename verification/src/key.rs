//! Key presses, as the terminal reports them: a key code and the modifiers
//! held with it.

use vstd::prelude::*;

verus! {

/// A key, as the terminal library names them and in its order.
#[derive(Debug, Clone, Copy, PartialEq, Eq, Structural, Hash)]
pub enum KeyCode {
    Backspace,
    Enter,
    Left,
    Right,
    Up,
    Down,
    Home,
    End,
    PageUp,
    PageDown,
    Tab,
    BackTab,
    Delete,
    Insert,
    F(u8),
    Char(char),
    Null,
    Esc,
    CapsLock,
    ScrollLock,
    NumLock,
    PrintScreen,
    Pause,
    Menu,
    KeypadBegin,
    /// A media or modifier key.
    Other,
}

/// Where a key comes in the order of keys: its place among the kinds of
/// key, then its number or character.
pub open spec fn key_code_rank(c: KeyCode) -> (int, int) {
    match c {
        KeyCode::Backspace => (0, 0),
        KeyCode::Enter => (1, 0),
        KeyCode::Left => (2, 0),
        KeyCode::Right => (3, 0),
        KeyCode::Up => (4, 0),
        KeyCode::Down => (5, 0),
        KeyCode::Home => (6, 0),
        KeyCode::End => (7, 0),
        KeyCode::PageUp => (8, 0),
        KeyCode::PageDown => (9, 0),
        KeyCode::Tab => (10, 0),
        KeyCode::BackTab => (11, 0),
        KeyCode::Delete => (12, 0),
        KeyCode::Insert => (13, 0),
        KeyCode::F(n) => (14, n as int),
        KeyCode::Char(c) => (15, c as int),
        KeyCode::Null => (16, 0),
        KeyCode::Esc => (17, 0),
        KeyCode::CapsLock => (18, 0),
        KeyCode::ScrollLock => (19, 0),
        KeyCode::NumLock => (20, 0),
        KeyCode::PrintScreen => (21, 0),
        KeyCode::Pause => (22, 0),
        KeyCode::Menu => (23, 0),
        KeyCode::KeypadBegin => (24, 0),
        KeyCode::Other => (25, 0),
    }
}

/// Modifier keys, each a bit of a key press's set of modifiers.
pub const NONE: u8 = 0x0;
pub const SHIFT: u8 = 0x1;
pub const CONTROL: u8 = 0x2;
pub const ALT: u8 = 0x4;

/// A key pressed with modifiers.
#[derive(Debug, Clone, Copy, PartialEq, Eq, Structural, Hash)]
pub struct KeyEvent {
    pub code: KeyCode,
    pub modifiers: u8,
}

/// The key press that a terminal control character stands for: tab,
/// escape, and `^\` (reported as control and `4`) as such; the other
/// control characters as control and the letter or sign 96 places on;
/// printable ASCII as itself; nothing for other bytes.
pub open spec fn control_char_key_spec(byte: u8) -> Option<KeyEvent> {
    if byte == 9 {
        Some(KeyEvent { code: KeyCode::Tab, modifiers: NONE })
    } else if byte == 27 {
        Some(KeyEvent { code: KeyCode::Esc, modifiers: NONE })
    } else if byte == 28 {
        Some(KeyEvent { code: KeyCode::Char('4'), modifiers: CONTROL })
    } else if 1 <= byte <= 31 {
        Some(KeyEvent { code: KeyCode::Char(((byte + 96) as u8) as char), modifiers: CONTROL })
    } else if 32 <= byte <= 126 {
        Some(KeyEvent { code: KeyCode::Char(byte as char), modifiers: NONE })
    } else {
        None
    }
}

pub fn control_char_key(byte: u8) -> (key: Option<KeyEvent>)
    ensures
        key == control_char_key_spec(byte),
{
    if byte == 9 {
        Some(KeyEvent { code: KeyCode::Tab, modifiers: NONE })
    } else if byte == 27 {
        Some(KeyEvent { code: KeyCode::Esc, modifiers: NONE })
    } else if byte == 28 {
        Some(KeyEvent { code: KeyCode::Char('4'), modifiers: CONTROL })
    } else if 1 <= byte && byte <= 31 {
        Some(KeyEvent { code: KeyCode::Char((byte + 96) as char), modifiers: CONTROL })
    } else if 32 <= byte && byte <= 126 {
        Some(KeyEvent { code: KeyCode::Char(byte as char), modifiers: NONE })
    } else {
        None
    }
}

} // verus!
