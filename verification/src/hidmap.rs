//! Linux evdev keycode -> USB HID usage mapping.
//!
//! Uses raw numeric Linux keycodes (input-event-codes.h) so the same table
//! serves both raw evdev capture and the InputCapture portal path, which
//! also delivers evdev keycodes.

use vstd::prelude::*;

verus! {

/// The letter rows and the digit row, as the keys stand on the board.
/// HID numbers the letters alphabetically from 0x04, and the digits 1 to 9
/// and then 0 from 0x1e.
pub open spec fn character_usage(code: int) -> Option<int> {
    let top = seq!['q', 'w', 'e', 'r', 't', 'y', 'u', 'i', 'o', 'p'];
    let home = seq!['a', 's', 'd', 'f', 'g', 'h', 'j', 'k', 'l'];
    let bottom = seq!['z', 'x', 'c', 'v', 'b', 'n', 'm'];
    if 2 <= code <= 11 {
        Some(0x1e + (code - 2))
    } else if 16 <= code <= 25 {
        Some(0x04 + (top[code - 16] as int - 'a' as int))
    } else if 30 <= code <= 38 {
        Some(0x04 + (home[code - 30] as int - 'a' as int))
    } else if 44 <= code <= 50 {
        Some(0x04 + (bottom[code - 44] as int - 'a' as int))
    } else {
        None
    }
}

/// Punctuation and the other keys around the letter rows.
pub open spec fn punctuation_usage(code: int) -> Option<int> {
    if code == 1 {
        // Escape
        Some(0x29)
    } else if 12 <= code <= 15 {
        // - = Backspace Tab
        Some(seq![0x2d, 0x2e, 0x2a, 0x2bint][code - 12])
    } else if 26 <= code <= 28 {
        // [ ] Enter
        Some(seq![0x2f, 0x30, 0x28int][code - 26])
    } else if 39 <= code <= 41 {
        // ; ' `
        Some(0x33 + (code - 39))
    } else if code == 43 {
        // Backslash
        Some(0x31)
    } else if 51 <= code <= 53 {
        // , . /
        Some(0x36 + (code - 51))
    } else if 57 <= code <= 58 {
        // Space CapsLock
        Some(seq![0x2c, 0x39int][code - 57])
    } else if code == 86 {
        // the extra key of ISO boards
        Some(0x64)
    } else {
        None
    }
}

/// The modifiers: HID numbers them from 0xe0, in the order of their bits in
/// a keyboard report (control, shift, alt, meta; left before right).
pub open spec fn modifier_usage(code: int) -> Option<int> {
    if code == 29 {
        Some(0xe0)
    } else if code == 42 {
        Some(0xe1)
    } else if code == 56 {
        Some(0xe2)
    } else if code == 125 {
        Some(0xe3)
    } else if code == 97 {
        Some(0xe4)
    } else if code == 54 {
        Some(0xe5)
    } else if code == 100 {
        Some(0xe6)
    } else if code == 126 {
        Some(0xe7)
    } else {
        None
    }
}

/// F1 to F12, the lock and system keys, and the navigation block.
pub open spec fn function_usage(code: int) -> Option<int> {
    if 59 <= code <= 68 {
        // F1 .. F10
        Some(0x3a + (code - 59))
    } else if 87 <= code <= 88 {
        // F11 F12
        Some(0x44 + (code - 87))
    } else if 69 <= code <= 70 {
        // NumLock ScrollLock
        Some(seq![0x53, 0x47int][code - 69])
    } else if code == 99 {
        // PrintScreen
        Some(0x46)
    } else if 102 <= code <= 111 {
        // Home Up PageUp Left Right End Down PageDown Insert Delete
        Some(
            seq![0x4a, 0x52, 0x4b, 0x50, 0x4f, 0x4d, 0x51, 0x4e, 0x49, 0x4cint][code - 102],
        )
    } else if code == 119 {
        // Pause
        Some(0x48)
    } else if code == 127 {
        // Menu
        Some(0x65)
    } else {
        None
    }
}

/// The keypad: HID numbers 1 to 9 from 0x59, row by row from the bottom.
pub open spec fn keypad_usage(code: int) -> Option<int> {
    if code == 55 {
        // *
        Some(0x55)
    } else if 71 <= code <= 73 {
        // 7 8 9
        Some(0x5f + (code - 71))
    } else if code == 74 {
        // -
        Some(0x56)
    } else if 75 <= code <= 77 {
        // 4 5 6
        Some(0x5c + (code - 75))
    } else if code == 78 {
        // +
        Some(0x57)
    } else if 79 <= code <= 81 {
        // 1 2 3
        Some(0x59 + (code - 79))
    } else if 82 <= code <= 83 {
        // 0 .
        Some(0x62 + (code - 82))
    } else if code == 96 {
        // Enter
        Some(0x58)
    } else if code == 98 {
        // /
        Some(0x54)
    } else {
        None
    }
}

/// The HID usage of a keycode: no key stands in two of the groups.
pub open spec fn usage_of(code: int) -> Option<int> {
    if character_usage(code) is Some {
        character_usage(code)
    } else if punctuation_usage(code) is Some {
        punctuation_usage(code)
    } else if modifier_usage(code) is Some {
        modifier_usage(code)
    } else if function_usage(code) is Some {
        function_usage(code)
    } else {
        keypad_usage(code)
    }
}

/// Map a Linux keycode to a HID usage id (page 0x07).
/// Modifiers map to 0xE0..0xE7. Returns None for unmapped keys.
pub fn keycode_to_usage(code: u16) -> (usage: Option<u8>)
    ensures
        match usage {
            Some(u) => usage_of(code as int) == Some(u as int),
            None => usage_of(code as int) is None,
        },
{
    Some(match code {
        1 => 0x29,   // ESC
        2..=10 => (code - 2) as u8 + 0x1e, // 1..9
        11 => 0x27,  // 0
        12 => 0x2d,  // -
        13 => 0x2e,  // =
        14 => 0x2a,  // Backspace
        15 => 0x2b,  // Tab
        16 => 0x14,  // q
        17 => 0x1a,  // w
        18 => 0x08,  // e
        19 => 0x15,  // r
        20 => 0x17,  // t
        21 => 0x1c,  // y
        22 => 0x18,  // u
        23 => 0x0c,  // i
        24 => 0x12,  // o
        25 => 0x13,  // p
        26 => 0x2f,  // [
        27 => 0x30,  // ]
        28 => 0x28,  // Enter
        29 => 0xe0,  // LCtrl
        30 => 0x04,  // a
        31 => 0x16,  // s
        32 => 0x07,  // d
        33 => 0x09,  // f
        34 => 0x0a,  // g
        35 => 0x0b,  // h
        36 => 0x0d,  // j
        37 => 0x0e,  // k
        38 => 0x0f,  // l
        39 => 0x33,  // ;
        40 => 0x34,  // '
        41 => 0x35,  // `
        42 => 0xe1,  // LShift
        43 => 0x31,  // backslash
        44 => 0x1d,  // z
        45 => 0x1b,  // x
        46 => 0x06,  // c
        47 => 0x19,  // v
        48 => 0x05,  // b
        49 => 0x11,  // n
        50 => 0x10,  // m
        51 => 0x36,  // ,
        52 => 0x37,  // .
        53 => 0x38,  // /
        54 => 0xe5,  // RShift
        55 => 0x55,  // KP *
        56 => 0xe2,  // LAlt
        57 => 0x2c,  // Space
        58 => 0x39,  // CapsLock
        59..=68 => (code - 59) as u8 + 0x3a, // F1..F10
        69 => 0x53,  // NumLock
        70 => 0x47,  // ScrollLock
        71..=73 => (code - 71) as u8 + 0x5f, // KP 7 8 9
        74 => 0x56,  // KP -
        75..=77 => (code - 75) as u8 + 0x5c, // KP 4 5 6
        78 => 0x57,  // KP +
        79..=81 => (code - 79) as u8 + 0x59, // KP 1 2 3
        82 => 0x62,  // KP 0
        83 => 0x63,  // KP .
        86 => 0x64,  // ISO extra key (102nd)
        87 => 0x44,  // F11
        88 => 0x45,  // F12
        96 => 0x58,  // KP Enter
        97 => 0xe4,  // RCtrl
        98 => 0x54,  // KP /
        99 => 0x46,  // PrintScreen/SysRq
        100 => 0xe6, // RAlt
        102 => 0x4a, // Home
        103 => 0x52, // Up
        104 => 0x4b, // PageUp
        105 => 0x50, // Left
        106 => 0x4f, // Right
        107 => 0x4d, // End
        108 => 0x51, // Down
        109 => 0x4e, // PageDown
        110 => 0x49, // Insert
        111 => 0x4c, // Delete
        119 => 0x48, // Pause
        125 => 0xe3, // LMeta (Super)
        126 => 0xe7, // RMeta
        127 => 0x65, // Menu/Compose
        _ => return None,
    })
}

/// Mouse button evdev codes -> protocol button bit: left, right, middle.
pub fn button_to_bit(code: u16) -> (bit: Option<u8>)
    ensures
        bit == if code == 0x110 {
            Some(0x01u8)
        } else if code == 0x111 {
            Some(0x02u8)
        } else if code == 0x112 {
            Some(0x04u8)
        } else {
            None
        },
{
    Some(
        match code {
            0x110 => 0x01,  // BTN_LEFT
            0x111 => 0x02,  // BTN_RIGHT
            0x112 => 0x04,  // BTN_MIDDLE
            _ => {
                return None;
            },
        },
    )
}

pub fn is_modifier_usage(usage: u8) -> (b: bool)
    ensures
        b == (0xe0 <= usage <= 0xe7),
{
    0xe0 <= usage && usage <= 0xe7
}

/// What a code of a key event stands for.
#[derive(Debug, Clone, Copy, PartialEq, Eq, Structural)]
pub enum Mapped {
    /// A key, by its HID usage.
    Usage(u8),
    /// A mouse button, by its bit.
    Button(u8),
    Unmapped,
}

/// What a code of a key event stands for.
pub fn map_code(code: u16) -> (m: Mapped)
    ensures
        match m {
            Mapped::Usage(u) => usage_of(code as int) == Some(u as int),
            Mapped::Button(b) => (code == 0x110 && b == 0x01) || (code == 0x111 && b == 0x02) || (
            code == 0x112 && b == 0x04),
            Mapped::Unmapped => usage_of(code as int) is None && !(0x110 <= code <= 0x112),
        },
{
    match keycode_to_usage(code) {
        Some(u) => Mapped::Usage(u),
        None => match button_to_bit(code) {
            Some(b) => Mapped::Button(b),
            None => Mapped::Unmapped,
        },
    }
}

/// What the value of a key event says.
pub fn action_name(value: i32) -> (s: &'static str)
    ensures
        s@ == if value == 0 {
            "up"@
        } else if value == 1 {
            "down"@
        } else {
            "repeat"@
        },
{
    match value {
        0 => "up",
        1 => "down",
        _ => "repeat",
    }
}

/// Every mapped key has a usage that no other key has, and that is a key in
/// the HID sense (0 to 3 are not).
pub proof fn usages_are_distinct(a: int, b: int)
    requires
        usage_of(a) is Some,
        usage_of(b) is Some,
    ensures
        0x04 <= usage_of(a)->0 <= 0xff,
        usage_of(a) == usage_of(b) ==> a == b,
{
}

/// A key is a modifier to HID exactly when it is one of the eight modifier
/// keys.
pub proof fn modifiers_are_the_modifier_keys(code: int)
    ensures
        (usage_of(code) matches Some(u) && 0xe0 <= u <= 0xe7) <==> modifier_usage(code) is Some,
{
}

/// The keycode of each HID usage, in the order in which HID numbers the
/// keys: letters, digits, the keys around them, the function row, the
/// navigation block, the keypad; and the eight modifiers.
pub open spec fn keycode_of(usage: int) -> Option<int> {
    let keys = seq![
        // A .. Z
        30int, 48, 46, 32, 18, 33, 34, 35, 23, 36, 37, 38, 50,
        49, 24, 25, 16, 19, 31, 20, 22, 47, 17, 45, 21, 44,
        // 1 .. 9, 0
        2, 3, 4, 5, 6, 7, 8, 9, 10, 11,
        // Enter Escape Backspace Tab Space - = [ ] backslash
        28, 1, 14, 15, 57, 12, 13, 26, 27, 43,
        // (none) ; ' ` , . / CapsLock
        0, 39, 40, 41, 51, 52, 53, 58,
        // F1 .. F12
        59, 60, 61, 62, 63, 64, 65, 66, 67, 68, 87, 88,
        // PrintScreen ScrollLock Pause Insert Home PageUp Delete End PageDown
        99, 70, 119, 110, 102, 104, 111, 107, 109,
        // Right Left Down Up
        106, 105, 108, 103,
        // NumLock, keypad / * - + Enter 1 .. 9 0 .
        69, 98, 55, 74, 78, 96, 79, 80, 81, 75, 76, 77, 71, 72, 73, 82, 83,
        // the extra key of ISO boards, Menu
        86, 127,
    ];
    let modifiers = seq![29int, 42, 56, 125, 97, 54, 100, 126];
    if 4 <= usage < 4 + keys.len() && usage != 0x32 {
        Some(keys[usage - 4])
    } else if 0xe0 <= usage <= 0xe7 {
        Some(modifiers[usage - 0xe0])
    } else {
        None
    }
}

/// Every usage that has a key comes from that key, and no key has another
/// usage.
pub proof fn usages_come_from_their_keys(usage: int)
    ensures
        keycode_of(usage) matches Some(code) ==> usage_of(code) == Some(usage),
{
}

/// A key has the usage under which HID numbers it, or none if HID numbers
/// no key that it stands for.
pub proof fn keys_have_their_hid_usage(code: int)
    ensures
        usage_of(code) matches Some(usage) ==> keycode_of(usage) == Some(code),
{
}

} // verus!
