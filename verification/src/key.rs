//! The closed set of physical key identities and their fixed numeric codes,
//! together with the kebab-case name table the parser resolves identifiers
//! against.

use vstd::prelude::*;
use vstd::string::StringSliceAdditionalSpecFns;

verus! {

/// All keys the configuration may name. Each has a fixed keycode in the
/// environment's keycode space, given by [`Key::code`].
#[derive(Debug, Copy, Clone, PartialEq, Eq, Structural)]
pub enum Key {
    Esc,
    F1,
    F2,
    F3,
    F4,
    F5,
    F6,
    F7,
    F8,
    F9,
    F10,
    F11,
    F12,
    PrtSc,
    Insert,
    Delete,
    Pause,
    Star,
    NumpadSlash,
    Tilde,
    One,
    Two,
    Three,
    Four,
    Five,
    Six,
    Seven,
    Eight,
    Nine,
    Zero,
    Minus,
    Equal,
    Backspace,
    NumLock,
    Plus,
    NumpadMinus,
    Tab,
    Q,
    W,
    E,
    R,
    T,
    Y,
    U,
    I,
    O,
    P,
    LBrace,
    RBrace,
    Backslash,
    Home,
    NumpadUp,
    PageUp,
    CapsLock,
    A,
    S,
    D,
    F,
    G,
    H,
    J,
    K,
    L,
    Semicolon,
    Quotes,
    Return,
    NumpadLeft,
    Numpad5,
    NumpadRight,
    LShift,
    Z,
    X,
    C,
    V,
    B,
    N,
    M,
    Comma,
    Period,
    Slash,
    RShift,
    End,
    NumpadDown,
    PageDown,
    Lctrl,
    Win,
    Space,
    Lalt,
    Ralt,
    Rctrl,
    Left,
    Up,
    Down,
    Right,
    Numpad0,
    NumpadPeriod,
    NumpadReturn,
}

/// The fixed numeric keycode of each key.
pub open spec fn key_code(k: Key) -> u8 {
    match k {
        Key::Esc => 9,
        Key::F1 => 67,
        Key::F2 => 68,
        Key::F3 => 69,
        Key::F4 => 70,
        Key::F5 => 71,
        Key::F6 => 72,
        Key::F7 => 73,
        Key::F8 => 74,
        Key::F9 => 75,
        Key::F10 => 76,
        Key::F11 => 95,
        Key::F12 => 96,
        Key::PrtSc => 107,
        Key::Insert => 118,
        Key::Delete => 119,
        Key::Pause => 127,
        Key::Star => 63,
        Key::NumpadSlash => 106,
        Key::Tilde => 49,
        Key::One => 10,
        Key::Two => 11,
        Key::Three => 12,
        Key::Four => 13,
        Key::Five => 14,
        Key::Six => 15,
        Key::Seven => 16,
        Key::Eight => 17,
        Key::Nine => 18,
        Key::Zero => 19,
        Key::Minus => 20,
        Key::Equal => 21,
        Key::Backspace => 22,
        Key::NumLock => 77,
        Key::Plus => 86,
        Key::NumpadMinus => 82,
        Key::Tab => 23,
        Key::Q => 24,
        Key::W => 25,
        Key::E => 26,
        Key::R => 27,
        Key::T => 28,
        Key::Y => 29,
        Key::U => 30,
        Key::I => 31,
        Key::O => 32,
        Key::P => 33,
        Key::LBrace => 34,
        Key::RBrace => 35,
        Key::Backslash => 51,
        Key::Home => 79,
        Key::NumpadUp => 80,
        Key::PageUp => 81,
        Key::CapsLock => 66,
        Key::A => 38,
        Key::S => 39,
        Key::D => 40,
        Key::F => 41,
        Key::G => 42,
        Key::H => 43,
        Key::J => 44,
        Key::K => 45,
        Key::L => 46,
        Key::Semicolon => 47,
        Key::Quotes => 48,
        Key::Return => 36,
        Key::NumpadLeft => 83,
        Key::Numpad5 => 84,
        Key::NumpadRight => 85,
        Key::LShift => 50,
        Key::Z => 52,
        Key::X => 53,
        Key::C => 54,
        Key::V => 55,
        Key::B => 56,
        Key::N => 57,
        Key::M => 58,
        Key::Comma => 59,
        Key::Period => 60,
        Key::Slash => 61,
        Key::RShift => 62,
        Key::End => 87,
        Key::NumpadDown => 88,
        Key::PageDown => 89,
        Key::Lctrl => 37,
        Key::Win => 133,
        Key::Space => 65,
        Key::Lalt => 64,
        Key::Ralt => 108,
        Key::Rctrl => 105,
        Key::Left => 113,
        Key::Up => 111,
        Key::Down => 116,
        Key::Right => 114,
        Key::Numpad0 => 90,
        Key::NumpadPeriod => 91,
        Key::NumpadReturn => 104,
    }
}

/// The kebab-case configuration name of each key, as a byte sequence.
pub open spec fn key_name(k: Key) -> Seq<u8> {
    match k {
        Key::Esc => "esc".spec_bytes(),
        Key::F1 => "f1".spec_bytes(),
        Key::F2 => "f2".spec_bytes(),
        Key::F3 => "f3".spec_bytes(),
        Key::F4 => "f4".spec_bytes(),
        Key::F5 => "f5".spec_bytes(),
        Key::F6 => "f6".spec_bytes(),
        Key::F7 => "f7".spec_bytes(),
        Key::F8 => "f8".spec_bytes(),
        Key::F9 => "f9".spec_bytes(),
        Key::F10 => "f10".spec_bytes(),
        Key::F11 => "f11".spec_bytes(),
        Key::F12 => "f12".spec_bytes(),
        Key::PrtSc => "prt-sc".spec_bytes(),
        Key::Insert => "insert".spec_bytes(),
        Key::Delete => "delete".spec_bytes(),
        Key::Pause => "pause".spec_bytes(),
        Key::Star => "star".spec_bytes(),
        Key::NumpadSlash => "numpad-slash".spec_bytes(),
        Key::Tilde => "tilde".spec_bytes(),
        Key::One => "one".spec_bytes(),
        Key::Two => "two".spec_bytes(),
        Key::Three => "three".spec_bytes(),
        Key::Four => "four".spec_bytes(),
        Key::Five => "five".spec_bytes(),
        Key::Six => "six".spec_bytes(),
        Key::Seven => "seven".spec_bytes(),
        Key::Eight => "eight".spec_bytes(),
        Key::Nine => "nine".spec_bytes(),
        Key::Zero => "zero".spec_bytes(),
        Key::Minus => "minus".spec_bytes(),
        Key::Equal => "equal".spec_bytes(),
        Key::Backspace => "backspace".spec_bytes(),
        Key::NumLock => "num-lock".spec_bytes(),
        Key::Plus => "plus".spec_bytes(),
        Key::NumpadMinus => "numpad-minus".spec_bytes(),
        Key::Tab => "tab".spec_bytes(),
        Key::Q => "q".spec_bytes(),
        Key::W => "w".spec_bytes(),
        Key::E => "e".spec_bytes(),
        Key::R => "r".spec_bytes(),
        Key::T => "t".spec_bytes(),
        Key::Y => "y".spec_bytes(),
        Key::U => "u".spec_bytes(),
        Key::I => "i".spec_bytes(),
        Key::O => "o".spec_bytes(),
        Key::P => "p".spec_bytes(),
        Key::LBrace => "l-brace".spec_bytes(),
        Key::RBrace => "r-brace".spec_bytes(),
        Key::Backslash => "backslash".spec_bytes(),
        Key::Home => "home".spec_bytes(),
        Key::NumpadUp => "numpad-up".spec_bytes(),
        Key::PageUp => "page-up".spec_bytes(),
        Key::CapsLock => "caps-lock".spec_bytes(),
        Key::A => "a".spec_bytes(),
        Key::S => "s".spec_bytes(),
        Key::D => "d".spec_bytes(),
        Key::F => "f".spec_bytes(),
        Key::G => "g".spec_bytes(),
        Key::H => "h".spec_bytes(),
        Key::J => "j".spec_bytes(),
        Key::K => "k".spec_bytes(),
        Key::L => "l".spec_bytes(),
        Key::Semicolon => "semicolon".spec_bytes(),
        Key::Quotes => "quotes".spec_bytes(),
        Key::Return => "return".spec_bytes(),
        Key::NumpadLeft => "numpad-left".spec_bytes(),
        Key::Numpad5 => "numpad5".spec_bytes(),
        Key::NumpadRight => "numpad-right".spec_bytes(),
        Key::LShift => "l-shift".spec_bytes(),
        Key::Z => "z".spec_bytes(),
        Key::X => "x".spec_bytes(),
        Key::C => "c".spec_bytes(),
        Key::V => "v".spec_bytes(),
        Key::B => "b".spec_bytes(),
        Key::N => "n".spec_bytes(),
        Key::M => "m".spec_bytes(),
        Key::Comma => "comma".spec_bytes(),
        Key::Period => "period".spec_bytes(),
        Key::Slash => "slash".spec_bytes(),
        Key::RShift => "r-shift".spec_bytes(),
        Key::End => "end".spec_bytes(),
        Key::NumpadDown => "numpad-down".spec_bytes(),
        Key::PageDown => "page-down".spec_bytes(),
        Key::Lctrl => "lctrl".spec_bytes(),
        Key::Win => "win".spec_bytes(),
        Key::Space => "space".spec_bytes(),
        Key::Lalt => "lalt".spec_bytes(),
        Key::Ralt => "ralt".spec_bytes(),
        Key::Rctrl => "rctrl".spec_bytes(),
        Key::Left => "left".spec_bytes(),
        Key::Up => "up".spec_bytes(),
        Key::Down => "down".spec_bytes(),
        Key::Right => "right".spec_bytes(),
        Key::Numpad0 => "numpad0".spec_bytes(),
        Key::NumpadPeriod => "numpad-period".spec_bytes(),
        Key::NumpadReturn => "numpad-return".spec_bytes(),
    }
}

/// The key a configuration identifier resolves to, if any: the name table
/// consulted by the grammar's key rule.
#[verifier::opaque]
pub open spec fn key_of_name(n: Seq<u8>) -> Option<Key> {
    if n == "esc".spec_bytes() {
        Some(Key::Esc)
    } else if n == "f1".spec_bytes() {
        Some(Key::F1)
    } else if n == "f2".spec_bytes() {
        Some(Key::F2)
    } else if n == "f3".spec_bytes() {
        Some(Key::F3)
    } else if n == "f4".spec_bytes() {
        Some(Key::F4)
    } else if n == "f5".spec_bytes() {
        Some(Key::F5)
    } else if n == "f6".spec_bytes() {
        Some(Key::F6)
    } else if n == "f7".spec_bytes() {
        Some(Key::F7)
    } else if n == "f8".spec_bytes() {
        Some(Key::F8)
    } else if n == "f9".spec_bytes() {
        Some(Key::F9)
    } else if n == "f10".spec_bytes() {
        Some(Key::F10)
    } else if n == "f11".spec_bytes() {
        Some(Key::F11)
    } else if n == "f12".spec_bytes() {
        Some(Key::F12)
    } else if n == "prt-sc".spec_bytes() {
        Some(Key::PrtSc)
    } else if n == "insert".spec_bytes() {
        Some(Key::Insert)
    } else if n == "delete".spec_bytes() {
        Some(Key::Delete)
    } else if n == "pause".spec_bytes() {
        Some(Key::Pause)
    } else if n == "star".spec_bytes() {
        Some(Key::Star)
    } else if n == "numpad-slash".spec_bytes() {
        Some(Key::NumpadSlash)
    } else if n == "tilde".spec_bytes() {
        Some(Key::Tilde)
    } else if n == "one".spec_bytes() {
        Some(Key::One)
    } else if n == "two".spec_bytes() {
        Some(Key::Two)
    } else if n == "three".spec_bytes() {
        Some(Key::Three)
    } else if n == "four".spec_bytes() {
        Some(Key::Four)
    } else if n == "five".spec_bytes() {
        Some(Key::Five)
    } else if n == "six".spec_bytes() {
        Some(Key::Six)
    } else if n == "seven".spec_bytes() {
        Some(Key::Seven)
    } else if n == "eight".spec_bytes() {
        Some(Key::Eight)
    } else if n == "nine".spec_bytes() {
        Some(Key::Nine)
    } else if n == "zero".spec_bytes() {
        Some(Key::Zero)
    } else if n == "minus".spec_bytes() {
        Some(Key::Minus)
    } else if n == "equal".spec_bytes() {
        Some(Key::Equal)
    } else if n == "backspace".spec_bytes() {
        Some(Key::Backspace)
    } else if n == "num-lock".spec_bytes() {
        Some(Key::NumLock)
    } else if n == "plus".spec_bytes() {
        Some(Key::Plus)
    } else if n == "numpad-minus".spec_bytes() {
        Some(Key::NumpadMinus)
    } else if n == "tab".spec_bytes() {
        Some(Key::Tab)
    } else if n == "q".spec_bytes() {
        Some(Key::Q)
    } else if n == "w".spec_bytes() {
        Some(Key::W)
    } else if n == "e".spec_bytes() {
        Some(Key::E)
    } else if n == "r".spec_bytes() {
        Some(Key::R)
    } else if n == "t".spec_bytes() {
        Some(Key::T)
    } else if n == "y".spec_bytes() {
        Some(Key::Y)
    } else if n == "u".spec_bytes() {
        Some(Key::U)
    } else if n == "i".spec_bytes() {
        Some(Key::I)
    } else if n == "o".spec_bytes() {
        Some(Key::O)
    } else if n == "p".spec_bytes() {
        Some(Key::P)
    } else if n == "l-brace".spec_bytes() {
        Some(Key::LBrace)
    } else if n == "r-brace".spec_bytes() {
        Some(Key::RBrace)
    } else if n == "backslash".spec_bytes() {
        Some(Key::Backslash)
    } else if n == "home".spec_bytes() {
        Some(Key::Home)
    } else if n == "numpad-up".spec_bytes() {
        Some(Key::NumpadUp)
    } else if n == "page-up".spec_bytes() {
        Some(Key::PageUp)
    } else if n == "caps-lock".spec_bytes() {
        Some(Key::CapsLock)
    } else if n == "a".spec_bytes() {
        Some(Key::A)
    } else if n == "s".spec_bytes() {
        Some(Key::S)
    } else if n == "d".spec_bytes() {
        Some(Key::D)
    } else if n == "f".spec_bytes() {
        Some(Key::F)
    } else if n == "g".spec_bytes() {
        Some(Key::G)
    } else if n == "h".spec_bytes() {
        Some(Key::H)
    } else if n == "j".spec_bytes() {
        Some(Key::J)
    } else if n == "k".spec_bytes() {
        Some(Key::K)
    } else if n == "l".spec_bytes() {
        Some(Key::L)
    } else if n == "semicolon".spec_bytes() {
        Some(Key::Semicolon)
    } else if n == "quotes".spec_bytes() {
        Some(Key::Quotes)
    } else if n == "return".spec_bytes() {
        Some(Key::Return)
    } else if n == "numpad-left".spec_bytes() {
        Some(Key::NumpadLeft)
    } else if n == "numpad5".spec_bytes() {
        Some(Key::Numpad5)
    } else if n == "numpad-right".spec_bytes() {
        Some(Key::NumpadRight)
    } else if n == "l-shift".spec_bytes() {
        Some(Key::LShift)
    } else if n == "z".spec_bytes() {
        Some(Key::Z)
    } else if n == "x".spec_bytes() {
        Some(Key::X)
    } else if n == "c".spec_bytes() {
        Some(Key::C)
    } else if n == "v".spec_bytes() {
        Some(Key::V)
    } else if n == "b".spec_bytes() {
        Some(Key::B)
    } else if n == "n".spec_bytes() {
        Some(Key::N)
    } else if n == "m".spec_bytes() {
        Some(Key::M)
    } else if n == "comma".spec_bytes() {
        Some(Key::Comma)
    } else if n == "period".spec_bytes() {
        Some(Key::Period)
    } else if n == "slash".spec_bytes() {
        Some(Key::Slash)
    } else if n == "r-shift".spec_bytes() {
        Some(Key::RShift)
    } else if n == "end".spec_bytes() {
        Some(Key::End)
    } else if n == "numpad-down".spec_bytes() {
        Some(Key::NumpadDown)
    } else if n == "page-down".spec_bytes() {
        Some(Key::PageDown)
    } else if n == "lctrl".spec_bytes() {
        Some(Key::Lctrl)
    } else if n == "win".spec_bytes() {
        Some(Key::Win)
    } else if n == "space".spec_bytes() {
        Some(Key::Space)
    } else if n == "lalt".spec_bytes() {
        Some(Key::Lalt)
    } else if n == "ralt".spec_bytes() {
        Some(Key::Ralt)
    } else if n == "rctrl".spec_bytes() {
        Some(Key::Rctrl)
    } else if n == "left".spec_bytes() {
        Some(Key::Left)
    } else if n == "up".spec_bytes() {
        Some(Key::Up)
    } else if n == "down".spec_bytes() {
        Some(Key::Down)
    } else if n == "right".spec_bytes() {
        Some(Key::Right)
    } else if n == "numpad0".spec_bytes() {
        Some(Key::Numpad0)
    } else if n == "numpad-period".spec_bytes() {
        Some(Key::NumpadPeriod)
    } else if n == "numpad-return".spec_bytes() {
        Some(Key::NumpadReturn)
    } else {
        None
    }
}

impl Key {
    /// The fixed numeric keycode of this key.
    pub fn code(self) -> (r: u8)
        ensures
            r == key_code(self),
    {
        match self {
            Key::Esc => 9,
            Key::F1 => 67,
            Key::F2 => 68,
            Key::F3 => 69,
            Key::F4 => 70,
            Key::F5 => 71,
            Key::F6 => 72,
            Key::F7 => 73,
            Key::F8 => 74,
            Key::F9 => 75,
            Key::F10 => 76,
            Key::F11 => 95,
            Key::F12 => 96,
            Key::PrtSc => 107,
            Key::Insert => 118,
            Key::Delete => 119,
            Key::Pause => 127,
            Key::Star => 63,
            Key::NumpadSlash => 106,
            Key::Tilde => 49,
            Key::One => 10,
            Key::Two => 11,
            Key::Three => 12,
            Key::Four => 13,
            Key::Five => 14,
            Key::Six => 15,
            Key::Seven => 16,
            Key::Eight => 17,
            Key::Nine => 18,
            Key::Zero => 19,
            Key::Minus => 20,
            Key::Equal => 21,
            Key::Backspace => 22,
            Key::NumLock => 77,
            Key::Plus => 86,
            Key::NumpadMinus => 82,
            Key::Tab => 23,
            Key::Q => 24,
            Key::W => 25,
            Key::E => 26,
            Key::R => 27,
            Key::T => 28,
            Key::Y => 29,
            Key::U => 30,
            Key::I => 31,
            Key::O => 32,
            Key::P => 33,
            Key::LBrace => 34,
            Key::RBrace => 35,
            Key::Backslash => 51,
            Key::Home => 79,
            Key::NumpadUp => 80,
            Key::PageUp => 81,
            Key::CapsLock => 66,
            Key::A => 38,
            Key::S => 39,
            Key::D => 40,
            Key::F => 41,
            Key::G => 42,
            Key::H => 43,
            Key::J => 44,
            Key::K => 45,
            Key::L => 46,
            Key::Semicolon => 47,
            Key::Quotes => 48,
            Key::Return => 36,
            Key::NumpadLeft => 83,
            Key::Numpad5 => 84,
            Key::NumpadRight => 85,
            Key::LShift => 50,
            Key::Z => 52,
            Key::X => 53,
            Key::C => 54,
            Key::V => 55,
            Key::B => 56,
            Key::N => 57,
            Key::M => 58,
            Key::Comma => 59,
            Key::Period => 60,
            Key::Slash => 61,
            Key::RShift => 62,
            Key::End => 87,
            Key::NumpadDown => 88,
            Key::PageDown => 89,
            Key::Lctrl => 37,
            Key::Win => 133,
            Key::Space => 65,
            Key::Lalt => 64,
            Key::Ralt => 108,
            Key::Rctrl => 105,
            Key::Left => 113,
            Key::Up => 111,
            Key::Down => 116,
            Key::Right => 114,
            Key::Numpad0 => 90,
            Key::NumpadPeriod => 91,
            Key::NumpadReturn => 104,
        }
    }

    /// Resolve an identifier against the closed key-name table.
    pub fn from_name(n: &[u8]) -> (r: Option<Key>)
        ensures
            r == key_of_name(n@),
    {
        proof {
            reveal(key_of_name);
        }
        if bytes_match(n, "esc") {
            Some(Key::Esc)
        } else if bytes_match(n, "f1") {
            Some(Key::F1)
        } else if bytes_match(n, "f2") {
            Some(Key::F2)
        } else if bytes_match(n, "f3") {
            Some(Key::F3)
        } else if bytes_match(n, "f4") {
            Some(Key::F4)
        } else if bytes_match(n, "f5") {
            Some(Key::F5)
        } else if bytes_match(n, "f6") {
            Some(Key::F6)
        } else if bytes_match(n, "f7") {
            Some(Key::F7)
        } else if bytes_match(n, "f8") {
            Some(Key::F8)
        } else if bytes_match(n, "f9") {
            Some(Key::F9)
        } else if bytes_match(n, "f10") {
            Some(Key::F10)
        } else if bytes_match(n, "f11") {
            Some(Key::F11)
        } else if bytes_match(n, "f12") {
            Some(Key::F12)
        } else if bytes_match(n, "prt-sc") {
            Some(Key::PrtSc)
        } else if bytes_match(n, "insert") {
            Some(Key::Insert)
        } else if bytes_match(n, "delete") {
            Some(Key::Delete)
        } else if bytes_match(n, "pause") {
            Some(Key::Pause)
        } else if bytes_match(n, "star") {
            Some(Key::Star)
        } else if bytes_match(n, "numpad-slash") {
            Some(Key::NumpadSlash)
        } else if bytes_match(n, "tilde") {
            Some(Key::Tilde)
        } else if bytes_match(n, "one") {
            Some(Key::One)
        } else if bytes_match(n, "two") {
            Some(Key::Two)
        } else if bytes_match(n, "three") {
            Some(Key::Three)
        } else if bytes_match(n, "four") {
            Some(Key::Four)
        } else if bytes_match(n, "five") {
            Some(Key::Five)
        } else if bytes_match(n, "six") {
            Some(Key::Six)
        } else if bytes_match(n, "seven") {
            Some(Key::Seven)
        } else if bytes_match(n, "eight") {
            Some(Key::Eight)
        } else if bytes_match(n, "nine") {
            Some(Key::Nine)
        } else if bytes_match(n, "zero") {
            Some(Key::Zero)
        } else if bytes_match(n, "minus") {
            Some(Key::Minus)
        } else if bytes_match(n, "equal") {
            Some(Key::Equal)
        } else if bytes_match(n, "backspace") {
            Some(Key::Backspace)
        } else if bytes_match(n, "num-lock") {
            Some(Key::NumLock)
        } else if bytes_match(n, "plus") {
            Some(Key::Plus)
        } else if bytes_match(n, "numpad-minus") {
            Some(Key::NumpadMinus)
        } else if bytes_match(n, "tab") {
            Some(Key::Tab)
        } else if bytes_match(n, "q") {
            Some(Key::Q)
        } else if bytes_match(n, "w") {
            Some(Key::W)
        } else if bytes_match(n, "e") {
            Some(Key::E)
        } else if bytes_match(n, "r") {
            Some(Key::R)
        } else if bytes_match(n, "t") {
            Some(Key::T)
        } else if bytes_match(n, "y") {
            Some(Key::Y)
        } else if bytes_match(n, "u") {
            Some(Key::U)
        } else if bytes_match(n, "i") {
            Some(Key::I)
        } else if bytes_match(n, "o") {
            Some(Key::O)
        } else if bytes_match(n, "p") {
            Some(Key::P)
        } else if bytes_match(n, "l-brace") {
            Some(Key::LBrace)
        } else if bytes_match(n, "r-brace") {
            Some(Key::RBrace)
        } else if bytes_match(n, "backslash") {
            Some(Key::Backslash)
        } else if bytes_match(n, "home") {
            Some(Key::Home)
        } else if bytes_match(n, "numpad-up") {
            Some(Key::NumpadUp)
        } else if bytes_match(n, "page-up") {
            Some(Key::PageUp)
        } else if bytes_match(n, "caps-lock") {
            Some(Key::CapsLock)
        } else if bytes_match(n, "a") {
            Some(Key::A)
        } else if bytes_match(n, "s") {
            Some(Key::S)
        } else if bytes_match(n, "d") {
            Some(Key::D)
        } else if bytes_match(n, "f") {
            Some(Key::F)
        } else if bytes_match(n, "g") {
            Some(Key::G)
        } else if bytes_match(n, "h") {
            Some(Key::H)
        } else if bytes_match(n, "j") {
            Some(Key::J)
        } else if bytes_match(n, "k") {
            Some(Key::K)
        } else if bytes_match(n, "l") {
            Some(Key::L)
        } else if bytes_match(n, "semicolon") {
            Some(Key::Semicolon)
        } else if bytes_match(n, "quotes") {
            Some(Key::Quotes)
        } else if bytes_match(n, "return") {
            Some(Key::Return)
        } else if bytes_match(n, "numpad-left") {
            Some(Key::NumpadLeft)
        } else if bytes_match(n, "numpad5") {
            Some(Key::Numpad5)
        } else if bytes_match(n, "numpad-right") {
            Some(Key::NumpadRight)
        } else if bytes_match(n, "l-shift") {
            Some(Key::LShift)
        } else if bytes_match(n, "z") {
            Some(Key::Z)
        } else if bytes_match(n, "x") {
            Some(Key::X)
        } else if bytes_match(n, "c") {
            Some(Key::C)
        } else if bytes_match(n, "v") {
            Some(Key::V)
        } else if bytes_match(n, "b") {
            Some(Key::B)
        } else if bytes_match(n, "n") {
            Some(Key::N)
        } else if bytes_match(n, "m") {
            Some(Key::M)
        } else if bytes_match(n, "comma") {
            Some(Key::Comma)
        } else if bytes_match(n, "period") {
            Some(Key::Period)
        } else if bytes_match(n, "slash") {
            Some(Key::Slash)
        } else if bytes_match(n, "r-shift") {
            Some(Key::RShift)
        } else if bytes_match(n, "end") {
            Some(Key::End)
        } else if bytes_match(n, "numpad-down") {
            Some(Key::NumpadDown)
        } else if bytes_match(n, "page-down") {
            Some(Key::PageDown)
        } else if bytes_match(n, "lctrl") {
            Some(Key::Lctrl)
        } else if bytes_match(n, "win") {
            Some(Key::Win)
        } else if bytes_match(n, "space") {
            Some(Key::Space)
        } else if bytes_match(n, "lalt") {
            Some(Key::Lalt)
        } else if bytes_match(n, "ralt") {
            Some(Key::Ralt)
        } else if bytes_match(n, "rctrl") {
            Some(Key::Rctrl)
        } else if bytes_match(n, "left") {
            Some(Key::Left)
        } else if bytes_match(n, "up") {
            Some(Key::Up)
        } else if bytes_match(n, "down") {
            Some(Key::Down)
        } else if bytes_match(n, "right") {
            Some(Key::Right)
        } else if bytes_match(n, "numpad0") {
            Some(Key::Numpad0)
        } else if bytes_match(n, "numpad-period") {
            Some(Key::NumpadPeriod)
        } else if bytes_match(n, "numpad-return") {
            Some(Key::NumpadReturn)
        } else {
            None
        }
    }
}

/// Whether a byte slice holds exactly the bytes of the given name.
fn bytes_match(n: &[u8], name: &str) -> (r: bool)
    ensures
        r == (n@ == name.spec_bytes()),
{
    let nb = name.as_bytes();
    if n.len() != nb.len() {
        assert(n@ != name.spec_bytes()) by {
            assert(n@.len() != name.spec_bytes().len());
        }
        return false;
    }
    let mut k: usize = 0;
    while k < n.len()
        invariant
            0 <= k <= n.len(),
            n@.len() == nb@.len(),
            nb@ == name.spec_bytes(),
            forall|j: int| 0 <= j < k ==> n@[j] == nb@[j],
        decreases n@.len() - k,
    {
        if n[k] != nb[k] {
            return false;
        }
        k += 1;
    }
    proof {
        assert(n@ =~= name.spec_bytes());
    }
    true
}

} // verus!
