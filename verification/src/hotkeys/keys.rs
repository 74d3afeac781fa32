//! Keys as Windows knows them (virtual-key codes).
use vstd::prelude::*;

verus! {

/// A key, named after the Windows virtual-key it stands for.
#[derive(Debug, Clone, Copy, PartialEq, Eq, Structural, Hash)]
pub enum Key {
    LShiftKey,
    RShiftKey,
    LMenu,
    RMenu,
    LControlKey,
    RControlKey,
    Apps,
    Escape,
    D0,
    D1,
    D2,
    D3,
    D4,
    D5,
    D6,
    D7,
    D8,
    D9,
    OemMinus,
    Oemplus,
    Back,
    Tab,
    A,
    B,
    C,
    D,
    E,
    F,
    G,
    H,
    I,
    J,
    K,
    L,
    M,
    N,
    O,
    P,
    Q,
    R,
    S,
    T,
    U,
    V,
    W,
    X,
    Y,
    Z,
    Enter,
    Oem1,
    Oem7,
    Oem3,
    Oem5,
    Oemcomma,
    OemPeriod,
    Oem2,
    Space,
    CapsLock,
    F1,
    F2,
    F3,
    F4,
    F5,
    F6,
    F7,
    F8,
    F9,
    F10,
    F11,
    F12,
    NumLock,
    Scroll,
    Divide,
    Multiply,
    Subtract,
    Add,
    Separator,
    Decimal,
    PrintScreen,
    NumPad0,
    NumPad1,
    NumPad2,
    NumPad3,
    NumPad4,
    NumPad5,
    NumPad6,
    NumPad7,
    NumPad8,
    NumPad9,
    Oem102,
    Home,
    PageUp,
    PageDown,
    End,
    Left,
    Up,
    Down,
    Right,
    Insert,
    Delete,
    VolumeMute,
    VolumeDown,
    VolumeUp,
    Pause,
    LWin,
    RWin,
    Oem4,
    Oem6,
    MediaNextTrack,
    MediaPlayPause,
    MediaPreviousTrack,
    MediaStop,
}

impl Key {
    /// The Windows virtual-key code of this key.
    pub open spec fn spec_code(self) -> u32 {
        match self {
            Key::LShiftKey => 0xA0,
            Key::RShiftKey => 0xA1,
            Key::LMenu => 0xA4,
            Key::RMenu => 0xA5,
            Key::LControlKey => 0xA2,
            Key::RControlKey => 0xA3,
            Key::Apps => 0x5D,
            Key::Escape => 0x1B,
            Key::D0 => 0x30,
            Key::D1 => 0x31,
            Key::D2 => 0x32,
            Key::D3 => 0x33,
            Key::D4 => 0x34,
            Key::D5 => 0x35,
            Key::D6 => 0x36,
            Key::D7 => 0x37,
            Key::D8 => 0x38,
            Key::D9 => 0x39,
            Key::OemMinus => 0xBD,
            Key::Oemplus => 0xBB,
            Key::Back => 0x08,
            Key::Tab => 0x09,
            Key::A => 0x41,
            Key::B => 0x42,
            Key::C => 0x43,
            Key::D => 0x44,
            Key::E => 0x45,
            Key::F => 0x46,
            Key::G => 0x47,
            Key::H => 0x48,
            Key::I => 0x49,
            Key::J => 0x4A,
            Key::K => 0x4B,
            Key::L => 0x4C,
            Key::M => 0x4D,
            Key::N => 0x4E,
            Key::O => 0x4F,
            Key::P => 0x50,
            Key::Q => 0x51,
            Key::R => 0x52,
            Key::S => 0x53,
            Key::T => 0x54,
            Key::U => 0x55,
            Key::V => 0x56,
            Key::W => 0x57,
            Key::X => 0x58,
            Key::Y => 0x59,
            Key::Z => 0x5A,
            Key::Enter => 0x0D,
            Key::Oem1 => 0xBA,
            Key::Oem7 => 0xDE,
            Key::Oem3 => 0xC0,
            Key::Oem5 => 0xDC,
            Key::Oemcomma => 0xBC,
            Key::OemPeriod => 0xBE,
            Key::Oem2 => 0xBF,
            Key::Space => 0x20,
            Key::CapsLock => 0x14,
            Key::F1 => 0x70,
            Key::F2 => 0x71,
            Key::F3 => 0x72,
            Key::F4 => 0x73,
            Key::F5 => 0x74,
            Key::F6 => 0x75,
            Key::F7 => 0x76,
            Key::F8 => 0x77,
            Key::F9 => 0x78,
            Key::F10 => 0x79,
            Key::F11 => 0x7A,
            Key::F12 => 0x7B,
            Key::NumLock => 0x90,
            Key::Scroll => 0x91,
            Key::Divide => 0x6F,
            Key::Multiply => 0x6A,
            Key::Subtract => 0x6D,
            Key::Add => 0x6B,
            Key::Separator => 0x6C,
            Key::Decimal => 0x6E,
            Key::PrintScreen => 0x2C,
            Key::NumPad0 => 0x60,
            Key::NumPad1 => 0x61,
            Key::NumPad2 => 0x62,
            Key::NumPad3 => 0x63,
            Key::NumPad4 => 0x64,
            Key::NumPad5 => 0x65,
            Key::NumPad6 => 0x66,
            Key::NumPad7 => 0x67,
            Key::NumPad8 => 0x68,
            Key::NumPad9 => 0x69,
            Key::Oem102 => 0xE2,
            Key::Home => 0x24,
            Key::PageUp => 0x21,
            Key::PageDown => 0x22,
            Key::End => 0x23,
            Key::Left => 0x25,
            Key::Up => 0x26,
            Key::Down => 0x28,
            Key::Right => 0x27,
            Key::Insert => 0x2D,
            Key::Delete => 0x2E,
            Key::VolumeMute => 0xAD,
            Key::VolumeDown => 0xAE,
            Key::VolumeUp => 0xAF,
            Key::Pause => 0x13,
            Key::LWin => 0x5B,
            Key::RWin => 0x5C,
            Key::Oem4 => 0xDB,
            Key::Oem6 => 0xDD,
            Key::MediaNextTrack => 0xB0,
            Key::MediaPlayPause => 0xB3,
            Key::MediaPreviousTrack => 0xB1,
            Key::MediaStop => 0xB2,
        }
    }

    /// The Windows virtual-key code of this key.
    pub fn code(&self) -> (r: u32)
        ensures
            r == self.spec_code(),
    {
        match self {
            Key::LShiftKey => 0xA0,
            Key::RShiftKey => 0xA1,
            Key::LMenu => 0xA4,
            Key::RMenu => 0xA5,
            Key::LControlKey => 0xA2,
            Key::RControlKey => 0xA3,
            Key::Apps => 0x5D,
            Key::Escape => 0x1B,
            Key::D0 => 0x30,
            Key::D1 => 0x31,
            Key::D2 => 0x32,
            Key::D3 => 0x33,
            Key::D4 => 0x34,
            Key::D5 => 0x35,
            Key::D6 => 0x36,
            Key::D7 => 0x37,
            Key::D8 => 0x38,
            Key::D9 => 0x39,
            Key::OemMinus => 0xBD,
            Key::Oemplus => 0xBB,
            Key::Back => 0x08,
            Key::Tab => 0x09,
            Key::A => 0x41,
            Key::B => 0x42,
            Key::C => 0x43,
            Key::D => 0x44,
            Key::E => 0x45,
            Key::F => 0x46,
            Key::G => 0x47,
            Key::H => 0x48,
            Key::I => 0x49,
            Key::J => 0x4A,
            Key::K => 0x4B,
            Key::L => 0x4C,
            Key::M => 0x4D,
            Key::N => 0x4E,
            Key::O => 0x4F,
            Key::P => 0x50,
            Key::Q => 0x51,
            Key::R => 0x52,
            Key::S => 0x53,
            Key::T => 0x54,
            Key::U => 0x55,
            Key::V => 0x56,
            Key::W => 0x57,
            Key::X => 0x58,
            Key::Y => 0x59,
            Key::Z => 0x5A,
            Key::Enter => 0x0D,
            Key::Oem1 => 0xBA,
            Key::Oem7 => 0xDE,
            Key::Oem3 => 0xC0,
            Key::Oem5 => 0xDC,
            Key::Oemcomma => 0xBC,
            Key::OemPeriod => 0xBE,
            Key::Oem2 => 0xBF,
            Key::Space => 0x20,
            Key::CapsLock => 0x14,
            Key::F1 => 0x70,
            Key::F2 => 0x71,
            Key::F3 => 0x72,
            Key::F4 => 0x73,
            Key::F5 => 0x74,
            Key::F6 => 0x75,
            Key::F7 => 0x76,
            Key::F8 => 0x77,
            Key::F9 => 0x78,
            Key::F10 => 0x79,
            Key::F11 => 0x7A,
            Key::F12 => 0x7B,
            Key::NumLock => 0x90,
            Key::Scroll => 0x91,
            Key::Divide => 0x6F,
            Key::Multiply => 0x6A,
            Key::Subtract => 0x6D,
            Key::Add => 0x6B,
            Key::Separator => 0x6C,
            Key::Decimal => 0x6E,
            Key::PrintScreen => 0x2C,
            Key::NumPad0 => 0x60,
            Key::NumPad1 => 0x61,
            Key::NumPad2 => 0x62,
            Key::NumPad3 => 0x63,
            Key::NumPad4 => 0x64,
            Key::NumPad5 => 0x65,
            Key::NumPad6 => 0x66,
            Key::NumPad7 => 0x67,
            Key::NumPad8 => 0x68,
            Key::NumPad9 => 0x69,
            Key::Oem102 => 0xE2,
            Key::Home => 0x24,
            Key::PageUp => 0x21,
            Key::PageDown => 0x22,
            Key::End => 0x23,
            Key::Left => 0x25,
            Key::Up => 0x26,
            Key::Down => 0x28,
            Key::Right => 0x27,
            Key::Insert => 0x2D,
            Key::Delete => 0x2E,
            Key::VolumeMute => 0xAD,
            Key::VolumeDown => 0xAE,
            Key::VolumeUp => 0xAF,
            Key::Pause => 0x13,
            Key::LWin => 0x5B,
            Key::RWin => 0x5C,
            Key::Oem4 => 0xDB,
            Key::Oem6 => 0xDD,
            Key::MediaNextTrack => 0xB0,
            Key::MediaPlayPause => 0xB3,
            Key::MediaPreviousTrack => 0xB1,
            Key::MediaStop => 0xB2,
        }
    }
}

} // verus!
