//! Linux input event codes (`input-event-codes.h`) and their keys.
use vstd::prelude::*;
use super::Key;

verus! {

/// The key a Linux key code stands for, if it is one we know.
pub open spec fn spec_key_convert(code: u32) -> Option<Key> {
    match code {
        1 => Some(Key::Escape), // KEY_ESC
        2 => Some(Key::D1), // KEY_1
        3 => Some(Key::D2), // KEY_2
        4 => Some(Key::D3), // KEY_3
        5 => Some(Key::D4), // KEY_4
        6 => Some(Key::D5), // KEY_5
        7 => Some(Key::D6), // KEY_6
        8 => Some(Key::D7), // KEY_7
        9 => Some(Key::D8), // KEY_8
        10 => Some(Key::D9), // KEY_9
        11 => Some(Key::D0), // KEY_0
        12 => Some(Key::OemMinus), // KEY_MINUS
        13 => Some(Key::Oemplus), // KEY_EQUAL
        14 => Some(Key::Back), // KEY_BACKSPACE
        15 => Some(Key::Tab), // KEY_TAB
        16 => Some(Key::Q), // KEY_Q
        17 => Some(Key::W), // KEY_W
        18 => Some(Key::E), // KEY_E
        19 => Some(Key::R), // KEY_R
        20 => Some(Key::T), // KEY_T
        21 => Some(Key::Y), // KEY_Y
        22 => Some(Key::U), // KEY_U
        23 => Some(Key::I), // KEY_I
        24 => Some(Key::O), // KEY_O
        25 => Some(Key::P), // KEY_P
        26 => Some(Key::Oem4), // KEY_LEFTBRACE
        27 => Some(Key::Oem6), // KEY_RIGHTBRACE
        28 => Some(Key::Enter), // KEY_ENTER
        29 => Some(Key::LControlKey), // KEY_LEFTCTRL
        30 => Some(Key::A), // KEY_A
        31 => Some(Key::S), // KEY_S
        32 => Some(Key::D), // KEY_D
        33 => Some(Key::F), // KEY_F
        34 => Some(Key::G), // KEY_G
        35 => Some(Key::H), // KEY_H
        36 => Some(Key::J), // KEY_J
        37 => Some(Key::K), // KEY_K
        38 => Some(Key::L), // KEY_L
        39 => Some(Key::Oem1), // KEY_SEMICOLON
        40 => Some(Key::Oem7), // KEY_APOSTROPHE
        41 => Some(Key::Oem3), // KEY_GRAVE
        42 => Some(Key::LShiftKey), // KEY_LEFTSHIFT
        43 => Some(Key::Oem5), // KEY_BACKSLASH
        44 => Some(Key::Z), // KEY_Z
        45 => Some(Key::X), // KEY_X
        46 => Some(Key::C), // KEY_C
        47 => Some(Key::V), // KEY_V
        48 => Some(Key::B), // KEY_B
        49 => Some(Key::N), // KEY_N
        50 => Some(Key::M), // KEY_M
        51 => Some(Key::Oemcomma), // KEY_COMMA
        52 => Some(Key::OemPeriod), // KEY_DOT
        53 => Some(Key::Oem2), // KEY_SLASH
        54 => Some(Key::RShiftKey), // KEY_RIGHTSHIFT
        55 => Some(Key::Multiply), // KEY_KPASTERISK
        56 => Some(Key::LMenu), // KEY_LEFTALT
        57 => Some(Key::Space), // KEY_SPACE
        58 => Some(Key::CapsLock), // KEY_CAPSLOCK
        59 => Some(Key::F1), // KEY_F1
        60 => Some(Key::F2), // KEY_F2
        61 => Some(Key::F3), // KEY_F3
        62 => Some(Key::F4), // KEY_F4
        63 => Some(Key::F5), // KEY_F5
        64 => Some(Key::F6), // KEY_F6
        65 => Some(Key::F7), // KEY_F7
        66 => Some(Key::F8), // KEY_F8
        67 => Some(Key::F9), // KEY_F9
        68 => Some(Key::F10), // KEY_F10
        69 => Some(Key::NumLock), // KEY_NUMLOCK
        70 => Some(Key::Scroll), // KEY_SCROLLLOCK
        71 => Some(Key::NumPad7), // KEY_KP7
        72 => Some(Key::NumPad8), // KEY_KP8
        73 => Some(Key::NumPad9), // KEY_KP9
        74 => Some(Key::Subtract), // KEY_KPMINUS
        75 => Some(Key::NumPad4), // KEY_KP4
        76 => Some(Key::NumPad5), // KEY_KP5
        77 => Some(Key::NumPad6), // KEY_KP6
        78 => Some(Key::Add), // KEY_KPPLUS
        79 => Some(Key::NumPad1), // KEY_KP1
        80 => Some(Key::NumPad2), // KEY_KP2
        81 => Some(Key::NumPad3), // KEY_KP3
        82 => Some(Key::NumPad0), // KEY_KP0
        83 => Some(Key::Decimal), // KEY_KPDOT
        86 => Some(Key::Oem102), // KEY_102ND
        87 => Some(Key::F11), // KEY_F11
        88 => Some(Key::F12), // KEY_F12
        96 => Some(Key::Separator), // KEY_KPENTER
        97 => Some(Key::RControlKey), // KEY_RIGHTCTRL
        98 => Some(Key::Divide), // KEY_KPSLASH
        99 => Some(Key::PrintScreen), // KEY_SYSRQ
        100 => Some(Key::RMenu), // KEY_RIGHTALT
        102 => Some(Key::Home), // KEY_HOME
        103 => Some(Key::Up), // KEY_UP
        104 => Some(Key::PageUp), // KEY_PAGEUP
        105 => Some(Key::Left), // KEY_LEFT
        106 => Some(Key::Right), // KEY_RIGHT
        107 => Some(Key::End), // KEY_END
        108 => Some(Key::Down), // KEY_DOWN
        109 => Some(Key::PageDown), // KEY_PAGEDOWN
        110 => Some(Key::Insert), // KEY_INSERT
        111 => Some(Key::Delete), // KEY_DELETE
        113 => Some(Key::VolumeMute), // KEY_MUTE
        114 => Some(Key::VolumeDown), // KEY_VOLUMEDOWN
        115 => Some(Key::VolumeUp), // KEY_VOLUMEUP
        119 => Some(Key::Pause), // KEY_PAUSE
        125 => Some(Key::LWin), // KEY_LEFTMETA
        126 => Some(Key::RWin), // KEY_RIGHTMETA
        127 => Some(Key::Apps), // KEY_COMPOSE
        163 => Some(Key::MediaNextTrack), // KEY_NEXTSONG
        164 => Some(Key::MediaPlayPause), // KEY_PLAYPAUSE
        165 => Some(Key::MediaPreviousTrack), // KEY_PREVIOUSSONG
        166 => Some(Key::MediaStop), // KEY_STOPCD
        _ => None,
    }
}

/// Translates a Linux key code into a key.
pub fn key_convert(code: u32) -> (r: Option<Key>)
    ensures
        r == spec_key_convert(code),
{
    match code {
        1 => Some(Key::Escape), // KEY_ESC
        2 => Some(Key::D1), // KEY_1
        3 => Some(Key::D2), // KEY_2
        4 => Some(Key::D3), // KEY_3
        5 => Some(Key::D4), // KEY_4
        6 => Some(Key::D5), // KEY_5
        7 => Some(Key::D6), // KEY_6
        8 => Some(Key::D7), // KEY_7
        9 => Some(Key::D8), // KEY_8
        10 => Some(Key::D9), // KEY_9
        11 => Some(Key::D0), // KEY_0
        12 => Some(Key::OemMinus), // KEY_MINUS
        13 => Some(Key::Oemplus), // KEY_EQUAL
        14 => Some(Key::Back), // KEY_BACKSPACE
        15 => Some(Key::Tab), // KEY_TAB
        16 => Some(Key::Q), // KEY_Q
        17 => Some(Key::W), // KEY_W
        18 => Some(Key::E), // KEY_E
        19 => Some(Key::R), // KEY_R
        20 => Some(Key::T), // KEY_T
        21 => Some(Key::Y), // KEY_Y
        22 => Some(Key::U), // KEY_U
        23 => Some(Key::I), // KEY_I
        24 => Some(Key::O), // KEY_O
        25 => Some(Key::P), // KEY_P
        26 => Some(Key::Oem4), // KEY_LEFTBRACE
        27 => Some(Key::Oem6), // KEY_RIGHTBRACE
        28 => Some(Key::Enter), // KEY_ENTER
        29 => Some(Key::LControlKey), // KEY_LEFTCTRL
        30 => Some(Key::A), // KEY_A
        31 => Some(Key::S), // KEY_S
        32 => Some(Key::D), // KEY_D
        33 => Some(Key::F), // KEY_F
        34 => Some(Key::G), // KEY_G
        35 => Some(Key::H), // KEY_H
        36 => Some(Key::J), // KEY_J
        37 => Some(Key::K), // KEY_K
        38 => Some(Key::L), // KEY_L
        39 => Some(Key::Oem1), // KEY_SEMICOLON
        40 => Some(Key::Oem7), // KEY_APOSTROPHE
        41 => Some(Key::Oem3), // KEY_GRAVE
        42 => Some(Key::LShiftKey), // KEY_LEFTSHIFT
        43 => Some(Key::Oem5), // KEY_BACKSLASH
        44 => Some(Key::Z), // KEY_Z
        45 => Some(Key::X), // KEY_X
        46 => Some(Key::C), // KEY_C
        47 => Some(Key::V), // KEY_V
        48 => Some(Key::B), // KEY_B
        49 => Some(Key::N), // KEY_N
        50 => Some(Key::M), // KEY_M
        51 => Some(Key::Oemcomma), // KEY_COMMA
        52 => Some(Key::OemPeriod), // KEY_DOT
        53 => Some(Key::Oem2), // KEY_SLASH
        54 => Some(Key::RShiftKey), // KEY_RIGHTSHIFT
        55 => Some(Key::Multiply), // KEY_KPASTERISK
        56 => Some(Key::LMenu), // KEY_LEFTALT
        57 => Some(Key::Space), // KEY_SPACE
        58 => Some(Key::CapsLock), // KEY_CAPSLOCK
        59 => Some(Key::F1), // KEY_F1
        60 => Some(Key::F2), // KEY_F2
        61 => Some(Key::F3), // KEY_F3
        62 => Some(Key::F4), // KEY_F4
        63 => Some(Key::F5), // KEY_F5
        64 => Some(Key::F6), // KEY_F6
        65 => Some(Key::F7), // KEY_F7
        66 => Some(Key::F8), // KEY_F8
        67 => Some(Key::F9), // KEY_F9
        68 => Some(Key::F10), // KEY_F10
        69 => Some(Key::NumLock), // KEY_NUMLOCK
        70 => Some(Key::Scroll), // KEY_SCROLLLOCK
        71 => Some(Key::NumPad7), // KEY_KP7
        72 => Some(Key::NumPad8), // KEY_KP8
        73 => Some(Key::NumPad9), // KEY_KP9
        74 => Some(Key::Subtract), // KEY_KPMINUS
        75 => Some(Key::NumPad4), // KEY_KP4
        76 => Some(Key::NumPad5), // KEY_KP5
        77 => Some(Key::NumPad6), // KEY_KP6
        78 => Some(Key::Add), // KEY_KPPLUS
        79 => Some(Key::NumPad1), // KEY_KP1
        80 => Some(Key::NumPad2), // KEY_KP2
        81 => Some(Key::NumPad3), // KEY_KP3
        82 => Some(Key::NumPad0), // KEY_KP0
        83 => Some(Key::Decimal), // KEY_KPDOT
        86 => Some(Key::Oem102), // KEY_102ND
        87 => Some(Key::F11), // KEY_F11
        88 => Some(Key::F12), // KEY_F12
        96 => Some(Key::Separator), // KEY_KPENTER
        97 => Some(Key::RControlKey), // KEY_RIGHTCTRL
        98 => Some(Key::Divide), // KEY_KPSLASH
        99 => Some(Key::PrintScreen), // KEY_SYSRQ
        100 => Some(Key::RMenu), // KEY_RIGHTALT
        102 => Some(Key::Home), // KEY_HOME
        103 => Some(Key::Up), // KEY_UP
        104 => Some(Key::PageUp), // KEY_PAGEUP
        105 => Some(Key::Left), // KEY_LEFT
        106 => Some(Key::Right), // KEY_RIGHT
        107 => Some(Key::End), // KEY_END
        108 => Some(Key::Down), // KEY_DOWN
        109 => Some(Key::PageDown), // KEY_PAGEDOWN
        110 => Some(Key::Insert), // KEY_INSERT
        111 => Some(Key::Delete), // KEY_DELETE
        113 => Some(Key::VolumeMute), // KEY_MUTE
        114 => Some(Key::VolumeDown), // KEY_VOLUMEDOWN
        115 => Some(Key::VolumeUp), // KEY_VOLUMEUP
        119 => Some(Key::Pause), // KEY_PAUSE
        125 => Some(Key::LWin), // KEY_LEFTMETA
        126 => Some(Key::RWin), // KEY_RIGHTMETA
        127 => Some(Key::Apps), // KEY_COMPOSE
        163 => Some(Key::MediaNextTrack), // KEY_NEXTSONG
        164 => Some(Key::MediaPlayPause), // KEY_PLAYPAUSE
        165 => Some(Key::MediaPreviousTrack), // KEY_PREVIOUSSONG
        166 => Some(Key::MediaStop), // KEY_STOPCD
        _ => None,
    }
}

} // verus!
