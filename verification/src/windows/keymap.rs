//! Windows virtual key codes (VK_*) as physical key classes.
//!
//! Windows only converts manually, at spaces: space is the only word
//! boundary, every other printable character (digits and punctuation too)
//! is part of the word. The replacement types over a Ctrl+Shift+Left
//! selection without counting backspaces, so any character in a word is
//! safe.
use vstd::prelude::*;
use crate::table::{assoc, find_u16};
use crate::text::{spec_upper, to_upper};
use crate::tracker::KeyClass;

verus! {

/// The Hangul/English key. The low-level hook watches it to track the IME
/// mode (the newer Windows 11 Hangul IME does not answer the mode query).
pub const VK_HANGUL_KEY: u16 = 0x15;

/// The digit row (US layout shifted symbols) and the OEM punctuation keys:
/// the character without and with Shift.
pub const SYMBOL_KEYS: [(u16, (char, char)); 21] = [
    (0x30, ('0', ')')), (0x31, ('1', '!')), (0x32, ('2', '@')), (0x33, ('3', '#')), (0x34, ('4', '$')),
    (0x35, ('5', '%')), (0x36, ('6', '^')), (0x37, ('7', '&')), (0x38, ('8', '*')), (0x39, ('9', '(')),
    (0xBA, (';', ':')), (0xBB, ('=', '+')), (0xBC, (',', '<')), (0xBD, ('-', '_')), (0xBE, ('.', '>')),
    (0xBF, ('/', '?')), (0xC0, ('`', '~')), (0xDB, ('[', '{')), (0xDC, ('\\', '|')), (0xDD, (']', '}')),
    (0xDE, ('\'', '"')),
];

/// The keypad operator keys.
pub const KEYPAD_OPERATORS: [(u16, char); 5] = [(0x6A, '*'), (0x6B, '+'), (0x6D, '-'), (0x6E, '.'), (0x6F, '/')];

/// Shift, Control, Menu (and their left/right forms), Caps Lock, Windows,
/// Hangul (0x15), Hanja (0x19).
pub open spec fn ignored_key(vk: u16) -> bool {
    (0x10 <= vk <= 0x12) || vk == 0x14 || vk == 0x15 || vk == 0x19 || vk == 0x5B || vk == 0x5C
        || (0xA0 <= vk <= 0xA5)
}

/// The class of a key press: space is the only boundary; letters (upper
/// case with Shift), digits, punctuation and keypad characters are part of
/// the word; backspace; Enter, cursor movement and other keys give up
/// tracking. `None` for modifiers and the IME keys.
pub open spec fn spec_classify(vk: u16, shift: bool) -> Option<KeyClass> {
    if ignored_key(vk) {
        None
    } else if vk == 0x20 {
        Some(KeyClass::Boundary(' '))
    } else if vk == 0x08 {
        Some(KeyClass::Backspace)
    } else if 0x41 <= vk <= 0x5A {
        let c = (('a' as u32) + (vk - 0x41)) as char;
        Some(KeyClass::Letter(if shift { spec_upper(c) } else { c }))
    } else if assoc(SYMBOL_KEYS@, vk) is Some {
        let (plain, shifted) = assoc(SYMBOL_KEYS@, vk)->0;
        Some(KeyClass::Letter(if shift { shifted } else { plain }))
    } else if 0x60 <= vk <= 0x69 {
        Some(KeyClass::Letter((('0' as u32) + (vk - 0x60)) as char))
    } else if assoc(KEYPAD_OPERATORS@, vk) is Some {
        Some(KeyClass::Letter(assoc(KEYPAD_OPERATORS@, vk)->0))
    } else {
        Some(KeyClass::Clear)
    }
}

/// `None`: a key that leaves the word buffer alone (modifiers, the Hangul
/// and Hanja keys).
pub fn classify(vk: u16, shift: bool) -> (r: Option<KeyClass>)
    ensures
        r == spec_classify(vk, shift),
{
    if (0x10 <= vk && vk <= 0x12) || vk == 0x14 || vk == 0x15 || vk == 0x19 || vk == 0x5B || vk == 0x5C
        || (0xA0 <= vk && vk <= 0xA5) {
        return None;
    }
    if vk == 0x20 {
        return Some(KeyClass::Boundary(' '));
    }
    if vk == 0x08 {
        return Some(KeyClass::Backspace);
    }
    if 0x41 <= vk && vk <= 0x5A {
        let b: u8 = (vk - 0x41) as u8 + 97;
        let c = b as char;
        assert(c == (('a' as u32) + (vk - 0x41)) as char);
        return Some(KeyClass::Letter(if shift { to_upper(c) } else { c }));
    }
    match find_u16(&SYMBOL_KEYS, vk) {
        Some(i) => {
            let (plain, shifted) = SYMBOL_KEYS[i].1;
            return Some(KeyClass::Letter(if shift { shifted } else { plain }));
        },
        None => {},
    }
    if 0x60 <= vk && vk <= 0x69 {
        let b: u8 = (vk - 0x60) as u8 + 48;
        let c = b as char;
        assert(c == (('0' as u32) + (vk - 0x60)) as char);
        return Some(KeyClass::Letter(c));
    }
    match find_u16(&KEYPAD_OPERATORS, vk) {
        Some(i) => Some(KeyClass::Letter(KEYPAD_OPERATORS[i].1)),
        None => Some(KeyClass::Clear),
    }
}

} // verus!
