//! X11 key codes (evdev + 8, standard QWERTY xkb layout) as physical key
//! classes.
//!
//! X11 also reports modifiers (Shift, Ctrl, ...) as key presses; they are
//! ignored (`None`): treating them as `Clear` would break shifted typing and
//! hotkeys.
use vstd::prelude::*;
use crate::table::{assoc, contains_u16, find_u16};
use crate::text::{spec_upper, to_upper};
use crate::tracker::KeyClass;

verus! {

/// Key codes usually used to switch Hangul/English (Hangul, right Alt),
/// overridden by `linux_toggle_keycodes = 130,108` in `config.txt`.
pub const DEFAULT_TOGGLE_KEYCODES: [u8; 2] = [130, 108];

pub const SPACE_KEYCODE: u8 = 65;
pub const BACKSPACE_KEYCODE: u8 = 22;

// X11 modifier state bits.
pub const SHIFT_MASK: u16 = 1;
pub const CONTROL_MASK: u16 = 4;
/// Alt.
pub const MOD1_MASK: u16 = 8;
/// Super.
pub const MOD4_MASK: u16 = 64;

/// Shift (50, 62), Ctrl (37, 105), Alt (64, 108), Super (133, 134), Caps
/// Lock (66), Hangul and Hanja (130, 131): keys that leave the buffer alone.
pub const IGNORED_KEYCODES: [u16; 11] = [50, 62, 37, 105, 64, 108, 133, 134, 66, 130, 131];

/// The letter keys.
pub const LETTER_KEYCODES: [(u16, char); 26] = [
    (24, 'q'), (25, 'w'), (26, 'e'), (27, 'r'), (28, 't'), (29, 'y'), (30, 'u'), (31, 'i'), (32, 'o'),
    (33, 'p'), (38, 'a'), (39, 's'), (40, 'd'), (41, 'f'), (42, 'g'), (43, 'h'), (44, 'j'), (45, 'k'),
    (46, 'l'), (52, 'z'), (53, 'x'), (54, 'c'), (55, 'v'), (56, 'b'), (57, 'n'), (58, 'm'),
];

/// The digit and punctuation keys: the character without and with Shift.
pub const SYMBOL_KEYCODES: [(u16, (char, char)); 21] = [
    (10, ('1', '!')), (11, ('2', '@')), (12, ('3', '#')), (13, ('4', '$')), (14, ('5', '%')),
    (15, ('6', '^')), (16, ('7', '&')), (17, ('8', '*')), (18, ('9', '(')), (19, ('0', ')')),
    (20, ('-', '_')), (21, ('=', '+')), (34, ('[', '{')), (35, (']', '}')), (47, (';', ':')),
    (48, ('\'', '"')), (49, ('`', '~')), (51, ('\\', '|')), (59, (',', '<')), (60, ('.', '>')),
    (61, ('/', '?')),
];

/// The class of a key press: letters (upper case with Shift), space and
/// the digit and punctuation keys end a word, backspace; modifiers and the
/// Hangul keys are ignored; Enter (it may submit) and every other key
/// (it may move the cursor) give up tracking.
pub open spec fn spec_classify(keycode: u8, shift: bool) -> Option<KeyClass> {
    let k = keycode as u16;
    if IGNORED_KEYCODES@.contains(k) {
        None
    } else if assoc(LETTER_KEYCODES@, k) is Some {
        let c = assoc(LETTER_KEYCODES@, k)->0;
        Some(KeyClass::Letter(if shift { spec_upper(c) } else { c }))
    } else if k == SPACE_KEYCODE as u16 {
        Some(KeyClass::Boundary(' '))
    } else if assoc(SYMBOL_KEYCODES@, k) is Some {
        let (plain, shifted) = assoc(SYMBOL_KEYCODES@, k)->0;
        Some(KeyClass::Boundary(if shift { shifted } else { plain }))
    } else if k == BACKSPACE_KEYCODE as u16 {
        Some(KeyClass::Backspace)
    } else {
        Some(KeyClass::Clear)
    }
}

/// `None`: a key that leaves the word buffer alone (modifiers, the Hangul
/// toggle).
pub fn classify(keycode: u8, shift: bool) -> (r: Option<KeyClass>)
    ensures
        r == spec_classify(keycode, shift),
{
    let k = keycode as u16;
    if contains_u16(&IGNORED_KEYCODES, k) {
        return None;
    }
    match find_u16(&LETTER_KEYCODES, k) {
        Some(i) => {
            let c = LETTER_KEYCODES[i].1;
            return Some(KeyClass::Letter(if shift { to_upper(c) } else { c }));
        },
        None => {},
    }
    if k == SPACE_KEYCODE as u16 {
        return Some(KeyClass::Boundary(' '));
    }
    match find_u16(&SYMBOL_KEYCODES, k) {
        Some(i) => {
            let (plain, shifted) = SYMBOL_KEYCODES[i].1;
            return Some(KeyClass::Boundary(if shift { shifted } else { plain }));
        },
        None => {},
    }
    if k == BACKSPACE_KEYCODE as u16 {
        Some(KeyClass::Backspace)
    } else {
        Some(KeyClass::Clear)
    }
}

} // verus!
