//! The keys by their names, and the numbers that each system gives them.
//!
//! A key is named by what stands on it in the usual arrangement. HID usages count
//! letters by the alphabet and digits from one to zero; Linux counts the rows of
//! a keyboard; a Mac counts as its first keyboard was wired.
use vstd::prelude::*;

use crate::input::{consumer_usage, keyboard_usage, HidUsage, Modifier};
use crate::linux::mapping::hid_of_code;
use crate::macos::keys::usage_of_mac_code;

verus! {

/// A key.
pub enum Key {
    /// A letter, from `a` to `z`.
    Letter(char),
    /// A digit above the letters.
    Digit(int),
    KeypadDigit(int),
    /// A function key, from one on.
    Function(int),
    Enter,
    Escape,
    Backspace,
    Tab,
    Space,
    Minus,
    Equal,
    LeftBracket,
    RightBracket,
    Backslash,
    Semicolon,
    Apostrophe,
    Grave,
    Comma,
    Period,
    Slash,
    CapsLock,
    PrintScreen,
    ScrollLock,
    Pause,
    Insert,
    Home,
    PageUp,
    Delete,
    End,
    PageDown,
    Right,
    Left,
    Down,
    Up,
    NumLock,
    KeypadSlash,
    KeypadAsterisk,
    KeypadMinus,
    KeypadPlus,
    KeypadEnter,
    KeypadPeriod,
    /// The key beside the left shift key, with angle brackets.
    Angle,
    Application,
    KeypadEqual,
    Execute,
    Help,
    Menu,
    Select,
    Stop,
    Again,
    Undo,
    Cut,
    Copy,
    Paste,
    Find,
    KeypadComma,
    Ro,
    KatakanaHiragana,
    Yen,
    Henkan,
    Muhenkan,
    KeypadJapaneseComma,
    Hangeul,
    Hanja,
    Katakana,
    Hiragana,
    ZenkakuHankaku,
    Properties,
    KeypadLeftParenthesis,
    KeypadRightParenthesis,
    LeftControl,
    LeftShift,
    LeftAlt,
    LeftMeta,
    RightControl,
    RightShift,
    RightAlt,
    RightMeta,
    Power,
    Sleep,
    WakeUp,
    Record,
    Rewind,
    NextTrack,
    PreviousTrack,
    StopPlaying,
    Eject,
    PlayPause,
    Mute,
    VolumeUp,
    VolumeDown,
    Mail,
    Calculator,
    Computer,
    Browser,
    NewDocument,
    HomePage,
    Back,
    Forward,
    Refresh,
    Bookmarks,
    Redo,
}

/// The usage of a key in the HID usage tables.
pub open spec fn usage_of_key(key: Key) -> HidUsage {
    match key {
        Key::Letter(letter) => keyboard_usage((0x04 + letter as int - 'a' as int) as u16),
        Key::Digit(digit) => keyboard_usage(
            if digit == 0 {
                0x27
            } else {
                (0x1d + digit) as u16
            },
        ),
        Key::KeypadDigit(digit) => keyboard_usage(
            if digit == 0 {
                0x62
            } else {
                (0x58 + digit) as u16
            },
        ),
        Key::Function(number) => keyboard_usage(
            if number <= 12 {
                (0x39 + number) as u16
            } else {
                (0x5b + number) as u16
            },
        ),
        Key::Enter => keyboard_usage(0x28),
        Key::Escape => keyboard_usage(0x29),
        Key::Backspace => keyboard_usage(0x2a),
        Key::Tab => keyboard_usage(0x2b),
        Key::Space => keyboard_usage(0x2c),
        Key::Minus => keyboard_usage(0x2d),
        Key::Equal => keyboard_usage(0x2e),
        Key::LeftBracket => keyboard_usage(0x2f),
        Key::RightBracket => keyboard_usage(0x30),
        Key::Backslash => keyboard_usage(0x31),
        Key::Semicolon => keyboard_usage(0x33),
        Key::Apostrophe => keyboard_usage(0x34),
        Key::Grave => keyboard_usage(0x35),
        Key::Comma => keyboard_usage(0x36),
        Key::Period => keyboard_usage(0x37),
        Key::Slash => keyboard_usage(0x38),
        Key::CapsLock => keyboard_usage(0x39),
        Key::PrintScreen => keyboard_usage(0x46),
        Key::ScrollLock => keyboard_usage(0x47),
        Key::Pause => keyboard_usage(0x48),
        Key::Insert => keyboard_usage(0x49),
        Key::Home => keyboard_usage(0x4a),
        Key::PageUp => keyboard_usage(0x4b),
        Key::Delete => keyboard_usage(0x4c),
        Key::End => keyboard_usage(0x4d),
        Key::PageDown => keyboard_usage(0x4e),
        Key::Right => keyboard_usage(0x4f),
        Key::Left => keyboard_usage(0x50),
        Key::Down => keyboard_usage(0x51),
        Key::Up => keyboard_usage(0x52),
        Key::NumLock => keyboard_usage(0x53),
        Key::KeypadSlash => keyboard_usage(0x54),
        Key::KeypadAsterisk => keyboard_usage(0x55),
        Key::KeypadMinus => keyboard_usage(0x56),
        Key::KeypadPlus => keyboard_usage(0x57),
        Key::KeypadEnter => keyboard_usage(0x58),
        Key::KeypadPeriod => keyboard_usage(0x63),
        Key::Angle => keyboard_usage(0x64),
        Key::Application => keyboard_usage(0x65),
        Key::KeypadEqual => keyboard_usage(0x67),
        Key::Execute => keyboard_usage(0x74),
        Key::Help => keyboard_usage(0x75),
        Key::Menu => keyboard_usage(0x76),
        Key::Select => keyboard_usage(0x77),
        Key::Stop => keyboard_usage(0x78),
        Key::Again => keyboard_usage(0x79),
        Key::Undo => keyboard_usage(0x7a),
        Key::Cut => keyboard_usage(0x7b),
        Key::Copy => keyboard_usage(0x7c),
        Key::Paste => keyboard_usage(0x7d),
        Key::Find => keyboard_usage(0x7e),
        Key::KeypadComma => keyboard_usage(0x85),
        Key::Ro => keyboard_usage(0x87),
        Key::KatakanaHiragana => keyboard_usage(0x88),
        Key::Yen => keyboard_usage(0x89),
        Key::Henkan => keyboard_usage(0x8a),
        Key::Muhenkan => keyboard_usage(0x8b),
        Key::KeypadJapaneseComma => keyboard_usage(0x8c),
        Key::Hangeul => keyboard_usage(0x90),
        Key::Hanja => keyboard_usage(0x91),
        Key::Katakana => keyboard_usage(0x92),
        Key::Hiragana => keyboard_usage(0x93),
        Key::ZenkakuHankaku => keyboard_usage(0x94),
        Key::Properties => keyboard_usage(0xa3),
        Key::KeypadLeftParenthesis => keyboard_usage(0xb6),
        Key::KeypadRightParenthesis => keyboard_usage(0xb7),
        Key::LeftControl => keyboard_usage(0xe0),
        Key::LeftShift => keyboard_usage(0xe1),
        Key::LeftAlt => keyboard_usage(0xe2),
        Key::LeftMeta => keyboard_usage(0xe3),
        Key::RightControl => keyboard_usage(0xe4),
        Key::RightShift => keyboard_usage(0xe5),
        Key::RightAlt => keyboard_usage(0xe6),
        Key::RightMeta => keyboard_usage(0xe7),
        Key::Power => consumer_usage(0x30),
        Key::Sleep => consumer_usage(0x32),
        Key::WakeUp => consumer_usage(0x83),
        Key::Record => consumer_usage(0xb2),
        Key::Rewind => consumer_usage(0xb4),
        Key::NextTrack => consumer_usage(0xb5),
        Key::PreviousTrack => consumer_usage(0xb6),
        Key::StopPlaying => consumer_usage(0xb7),
        Key::Eject => consumer_usage(0xb8),
        Key::PlayPause => consumer_usage(0xcd),
        Key::Mute => consumer_usage(0xe2),
        Key::VolumeUp => consumer_usage(0xe9),
        Key::VolumeDown => consumer_usage(0xea),
        Key::Mail => consumer_usage(0x18a),
        Key::Calculator => consumer_usage(0x192),
        Key::Computer => consumer_usage(0x194),
        Key::Browser => consumer_usage(0x196),
        Key::NewDocument => consumer_usage(0x201),
        Key::HomePage => consumer_usage(0x223),
        Key::Back => consumer_usage(0x224),
        Key::Forward => consumer_usage(0x225),
        Key::Refresh => consumer_usage(0x227),
        Key::Bookmarks => consumer_usage(0x22a),
        Key::Redo => consumer_usage(0x279),
    }
}

/// The key that a Linux key code names.
pub open spec fn linux_key(code: u16) -> Option<Key> {
    match code {
        1 => Some(Key::Escape),
        2 => Some(Key::Digit(1)),
        3 => Some(Key::Digit(2)),
        4 => Some(Key::Digit(3)),
        5 => Some(Key::Digit(4)),
        6 => Some(Key::Digit(5)),
        7 => Some(Key::Digit(6)),
        8 => Some(Key::Digit(7)),
        9 => Some(Key::Digit(8)),
        10 => Some(Key::Digit(9)),
        11 => Some(Key::Digit(0)),
        12 => Some(Key::Minus),
        13 => Some(Key::Equal),
        14 => Some(Key::Backspace),
        15 => Some(Key::Tab),
        16 => Some(Key::Letter('q')),
        17 => Some(Key::Letter('w')),
        18 => Some(Key::Letter('e')),
        19 => Some(Key::Letter('r')),
        20 => Some(Key::Letter('t')),
        21 => Some(Key::Letter('y')),
        22 => Some(Key::Letter('u')),
        23 => Some(Key::Letter('i')),
        24 => Some(Key::Letter('o')),
        25 => Some(Key::Letter('p')),
        26 => Some(Key::LeftBracket),
        27 => Some(Key::RightBracket),
        28 => Some(Key::Enter),
        29 => Some(Key::LeftControl),
        30 => Some(Key::Letter('a')),
        31 => Some(Key::Letter('s')),
        32 => Some(Key::Letter('d')),
        33 => Some(Key::Letter('f')),
        34 => Some(Key::Letter('g')),
        35 => Some(Key::Letter('h')),
        36 => Some(Key::Letter('j')),
        37 => Some(Key::Letter('k')),
        38 => Some(Key::Letter('l')),
        39 => Some(Key::Semicolon),
        40 => Some(Key::Apostrophe),
        41 => Some(Key::Grave),
        42 => Some(Key::LeftShift),
        43 => Some(Key::Backslash),
        44 => Some(Key::Letter('z')),
        45 => Some(Key::Letter('x')),
        46 => Some(Key::Letter('c')),
        47 => Some(Key::Letter('v')),
        48 => Some(Key::Letter('b')),
        49 => Some(Key::Letter('n')),
        50 => Some(Key::Letter('m')),
        51 => Some(Key::Comma),
        52 => Some(Key::Period),
        53 => Some(Key::Slash),
        54 => Some(Key::RightShift),
        55 => Some(Key::KeypadAsterisk),
        56 => Some(Key::LeftAlt),
        57 => Some(Key::Space),
        58 => Some(Key::CapsLock),
        59 => Some(Key::Function(1)),
        60 => Some(Key::Function(2)),
        61 => Some(Key::Function(3)),
        62 => Some(Key::Function(4)),
        63 => Some(Key::Function(5)),
        64 => Some(Key::Function(6)),
        65 => Some(Key::Function(7)),
        66 => Some(Key::Function(8)),
        67 => Some(Key::Function(9)),
        68 => Some(Key::Function(10)),
        69 => Some(Key::NumLock),
        70 => Some(Key::ScrollLock),
        71 => Some(Key::KeypadDigit(7)),
        72 => Some(Key::KeypadDigit(8)),
        73 => Some(Key::KeypadDigit(9)),
        74 => Some(Key::KeypadMinus),
        75 => Some(Key::KeypadDigit(4)),
        76 => Some(Key::KeypadDigit(5)),
        77 => Some(Key::KeypadDigit(6)),
        78 => Some(Key::KeypadPlus),
        79 => Some(Key::KeypadDigit(1)),
        80 => Some(Key::KeypadDigit(2)),
        81 => Some(Key::KeypadDigit(3)),
        82 => Some(Key::KeypadDigit(0)),
        83 => Some(Key::KeypadPeriod),
        85 => Some(Key::ZenkakuHankaku),
        86 => Some(Key::Angle),
        87 => Some(Key::Function(11)),
        88 => Some(Key::Function(12)),
        89 => Some(Key::Ro),
        90 => Some(Key::Katakana),
        91 => Some(Key::Hiragana),
        92 => Some(Key::Henkan),
        93 => Some(Key::KatakanaHiragana),
        94 => Some(Key::Muhenkan),
        95 => Some(Key::KeypadJapaneseComma),
        96 => Some(Key::KeypadEnter),
        97 => Some(Key::RightControl),
        98 => Some(Key::KeypadSlash),
        99 => Some(Key::PrintScreen),
        100 => Some(Key::RightAlt),
        102 => Some(Key::Home),
        103 => Some(Key::Up),
        104 => Some(Key::PageUp),
        105 => Some(Key::Left),
        106 => Some(Key::Right),
        107 => Some(Key::End),
        108 => Some(Key::Down),
        109 => Some(Key::PageDown),
        110 => Some(Key::Insert),
        111 => Some(Key::Delete),
        113 => Some(Key::Mute),
        114 => Some(Key::VolumeDown),
        115 => Some(Key::VolumeUp),
        116 => Some(Key::Power),
        117 => Some(Key::KeypadEqual),
        119 => Some(Key::Pause),
        121 => Some(Key::KeypadComma),
        122 => Some(Key::Hangeul),
        123 => Some(Key::Hanja),
        124 => Some(Key::Yen),
        125 => Some(Key::LeftMeta),
        126 => Some(Key::RightMeta),
        127 => Some(Key::Application),
        128 => Some(Key::Stop),
        129 => Some(Key::Again),
        130 => Some(Key::Properties),
        131 => Some(Key::Undo),
        132 => Some(Key::Select),
        133 => Some(Key::Copy),
        134 => Some(Key::Execute),
        135 => Some(Key::Paste),
        136 => Some(Key::Find),
        137 => Some(Key::Cut),
        138 => Some(Key::Help),
        139 => Some(Key::Menu),
        140 => Some(Key::Calculator),
        142 => Some(Key::Sleep),
        143 => Some(Key::WakeUp),
        150 => Some(Key::Browser),
        155 => Some(Key::Mail),
        156 => Some(Key::Bookmarks),
        157 => Some(Key::Computer),
        158 => Some(Key::Back),
        159 => Some(Key::Forward),
        161 => Some(Key::Eject),
        163 => Some(Key::NextTrack),
        164 => Some(Key::PlayPause),
        165 => Some(Key::PreviousTrack),
        166 => Some(Key::StopPlaying),
        167 => Some(Key::Record),
        168 => Some(Key::Rewind),
        172 => Some(Key::HomePage),
        173 => Some(Key::Refresh),
        179 => Some(Key::KeypadLeftParenthesis),
        180 => Some(Key::KeypadRightParenthesis),
        181 => Some(Key::NewDocument),
        182 => Some(Key::Redo),
        183 => Some(Key::Function(13)),
        184 => Some(Key::Function(14)),
        185 => Some(Key::Function(15)),
        186 => Some(Key::Function(16)),
        187 => Some(Key::Function(17)),
        188 => Some(Key::Function(18)),
        189 => Some(Key::Function(19)),
        190 => Some(Key::Function(20)),
        191 => Some(Key::Function(21)),
        192 => Some(Key::Function(22)),
        193 => Some(Key::Function(23)),
        194 => Some(Key::Function(24)),
        _ => None,
    }
}

/// The key that a virtual key code of a Mac names. The key that is marked "clear"
/// stands where num lock does, and the one marked "help" where insert does.
pub open spec fn mac_key(code: u16) -> Option<Key> {
    match code {
        0 => Some(Key::Letter('a')),
        1 => Some(Key::Letter('s')),
        2 => Some(Key::Letter('d')),
        3 => Some(Key::Letter('f')),
        4 => Some(Key::Letter('h')),
        5 => Some(Key::Letter('g')),
        6 => Some(Key::Letter('z')),
        7 => Some(Key::Letter('x')),
        8 => Some(Key::Letter('c')),
        9 => Some(Key::Letter('v')),
        11 => Some(Key::Letter('b')),
        12 => Some(Key::Letter('q')),
        13 => Some(Key::Letter('w')),
        14 => Some(Key::Letter('e')),
        15 => Some(Key::Letter('r')),
        16 => Some(Key::Letter('y')),
        17 => Some(Key::Letter('t')),
        18 => Some(Key::Digit(1)),
        19 => Some(Key::Digit(2)),
        20 => Some(Key::Digit(3)),
        21 => Some(Key::Digit(4)),
        22 => Some(Key::Digit(6)),
        23 => Some(Key::Digit(5)),
        24 => Some(Key::Equal),
        25 => Some(Key::Digit(9)),
        26 => Some(Key::Digit(7)),
        27 => Some(Key::Minus),
        28 => Some(Key::Digit(8)),
        29 => Some(Key::Digit(0)),
        30 => Some(Key::RightBracket),
        31 => Some(Key::Letter('o')),
        32 => Some(Key::Letter('u')),
        33 => Some(Key::LeftBracket),
        34 => Some(Key::Letter('i')),
        35 => Some(Key::Letter('p')),
        36 => Some(Key::Enter),
        37 => Some(Key::Letter('l')),
        38 => Some(Key::Letter('j')),
        39 => Some(Key::Apostrophe),
        40 => Some(Key::Letter('k')),
        41 => Some(Key::Semicolon),
        42 => Some(Key::Backslash),
        43 => Some(Key::Comma),
        44 => Some(Key::Slash),
        45 => Some(Key::Letter('n')),
        46 => Some(Key::Letter('m')),
        47 => Some(Key::Period),
        48 => Some(Key::Tab),
        49 => Some(Key::Space),
        50 => Some(Key::Grave),
        51 => Some(Key::Backspace),
        53 => Some(Key::Escape),
        54 => Some(Key::RightMeta),
        55 => Some(Key::LeftMeta),
        56 => Some(Key::LeftShift),
        57 => Some(Key::CapsLock),
        58 => Some(Key::LeftAlt),
        59 => Some(Key::LeftControl),
        60 => Some(Key::RightShift),
        61 => Some(Key::RightAlt),
        62 => Some(Key::RightControl),
        65 => Some(Key::KeypadPeriod),
        67 => Some(Key::KeypadAsterisk),
        69 => Some(Key::KeypadPlus),
        71 => Some(Key::NumLock),
        75 => Some(Key::KeypadSlash),
        76 => Some(Key::KeypadEnter),
        78 => Some(Key::KeypadMinus),
        81 => Some(Key::KeypadEqual),
        82 => Some(Key::KeypadDigit(0)),
        83 => Some(Key::KeypadDigit(1)),
        84 => Some(Key::KeypadDigit(2)),
        85 => Some(Key::KeypadDigit(3)),
        86 => Some(Key::KeypadDigit(4)),
        87 => Some(Key::KeypadDigit(5)),
        88 => Some(Key::KeypadDigit(6)),
        89 => Some(Key::KeypadDigit(7)),
        91 => Some(Key::KeypadDigit(8)),
        92 => Some(Key::KeypadDigit(9)),
        96 => Some(Key::Function(5)),
        97 => Some(Key::Function(6)),
        98 => Some(Key::Function(7)),
        99 => Some(Key::Function(3)),
        100 => Some(Key::Function(8)),
        101 => Some(Key::Function(9)),
        103 => Some(Key::Function(11)),
        105 => Some(Key::Function(13)),
        106 => Some(Key::Function(16)),
        107 => Some(Key::Function(14)),
        109 => Some(Key::Function(10)),
        111 => Some(Key::Function(12)),
        113 => Some(Key::Function(15)),
        114 => Some(Key::Insert),
        115 => Some(Key::Home),
        116 => Some(Key::PageUp),
        117 => Some(Key::Delete),
        118 => Some(Key::Function(4)),
        119 => Some(Key::End),
        120 => Some(Key::Function(2)),
        121 => Some(Key::PageDown),
        122 => Some(Key::Function(1)),
        123 => Some(Key::Left),
        124 => Some(Key::Right),
        125 => Some(Key::Down),
        126 => Some(Key::Up),
        _ => None,
    }
}

pub open spec fn usage_of_named(key: Option<Key>) -> Option<HidUsage> {
    match key {
        Some(key) => Some(usage_of_key(key)),
        None => None,
    }
}

/// A Linux key code stands for the usage of the key that it names, and for none if
/// it names no key.
pub proof fn linux_codes_have_the_usage_of_their_key(code: u16)
    ensures
        hid_of_code(code) == usage_of_named(linux_key(code)),
{
}

/// A virtual key code of a Mac stands for the usage of the key that it names, and
/// for none if it names no key.
pub proof fn mac_codes_have_the_usage_of_their_key(code: u16)
    ensures
        match usage_of_mac_code(code) {
            Some(usage) => usage_of_named(mac_key(code)) == Some(keyboard_usage(usage)),
            None => mac_key(code) is None,
        },
{
}

/// What is typed on a Mac is typed on Linux: codes of the two systems that name
/// the same key have the same usage.
pub proof fn keys_keep_their_names_between_systems(mac: u16, linux: u16)
    requires
        mac_key(mac) is Some,
        mac_key(mac) == linux_key(linux),
    ensures
        usage_of_mac_code(mac) is Some,
        hid_of_code(linux) == Some(keyboard_usage(usage_of_mac_code(mac)->0)),
{
    mac_codes_have_the_usage_of_their_key(mac);
    linux_codes_have_the_usage_of_their_key(linux);
}

/// A modifier has the usage of the key with its name.
pub proof fn modifiers_have_the_usage_of_their_key(modifier: Modifier)
    ensures
        keyboard_usage((0xe0 + modifier.index()) as u16) == usage_of_key(
            match modifier {
                Modifier::LeftControl => Key::LeftControl,
                Modifier::LeftShift => Key::LeftShift,
                Modifier::LeftAlt => Key::LeftAlt,
                Modifier::LeftMeta => Key::LeftMeta,
                Modifier::RightControl => Key::RightControl,
                Modifier::RightShift => Key::RightShift,
                Modifier::RightAlt => Key::RightAlt,
                Modifier::RightMeta => Key::RightMeta,
            },
        ),
{
}

} // verus!
