//! macOS ANSI virtual key codes (kVK_ANSI_*) as physical key classes.
//!
//! The point is to track which QWERTY key was pressed whatever the active
//! IME; what a Hangul-mode screen shows is reproduced by the composer.
use vstd::prelude::*;
use crate::table::{assoc, find_i64};
use crate::text::{spec_upper, to_upper};
use crate::tracker::KeyClass;

verus! {

pub const SPACE_KEYCODE: i64 = 49;
pub const DELETE_KEYCODE: i64 = 51;

/// The letter keys.
pub const LETTER_KEYCODES: [(i64, char); 26] = [
    (0, 'a'), (1, 's'), (2, 'd'), (3, 'f'), (4, 'h'), (5, 'g'), (6, 'z'), (7, 'x'), (8, 'c'), (9, 'v'),
    (11, 'b'), (12, 'q'), (13, 'w'), (14, 'e'), (15, 'r'), (16, 'y'), (17, 't'), (31, 'o'), (32, 'u'),
    (34, 'i'), (35, 'p'), (37, 'l'), (38, 'j'), (40, 'k'), (45, 'n'), (46, 'm'),
];

/// The digit and punctuation keys: the character without and with Shift.
pub const SYMBOL_KEYCODES: [(i64, (char, char)); 21] = [
    (18, ('1', '!')), (19, ('2', '@')), (20, ('3', '#')), (21, ('4', '$')), (23, ('5', '%')),
    (22, ('6', '^')), (26, ('7', '&')), (28, ('8', '*')), (25, ('9', '(')), (29, ('0', ')')),
    (27, ('-', '_')), (24, ('=', '+')), (33, ('[', '{')), (30, (']', '}')), (42, ('\\', '|')),
    (41, (';', ':')), (39, ('\'', '"')), (43, (',', '<')), (47, ('.', '>')), (44, ('/', '?')),
    (50, ('`', '~')),
];

/// The keypad keys, which Shift leaves unchanged.
pub const KEYPAD_KEYCODES: [(i64, char); 15] = [
    (82, '0'), (83, '1'), (84, '2'), (85, '3'), (86, '4'), (87, '5'), (88, '6'), (89, '7'), (91, '8'),
    (92, '9'), (65, '.'), (67, '*'), (69, '+'), (75, '/'), (78, '-'),
];

/// The class of a key press: letters (upper case with Shift); space, the
/// digit, punctuation and keypad keys end a word; delete; Enter (it may
/// submit) and every other key (it may move the cursor) give up tracking.
pub open spec fn spec_classify(keycode: i64, shift: bool) -> KeyClass {
    if assoc(LETTER_KEYCODES@, keycode) is Some {
        let c = assoc(LETTER_KEYCODES@, keycode)->0;
        KeyClass::Letter(if shift { spec_upper(c) } else { c })
    } else if keycode == SPACE_KEYCODE {
        KeyClass::Boundary(' ')
    } else if assoc(SYMBOL_KEYCODES@, keycode) is Some {
        let (plain, shifted) = assoc(SYMBOL_KEYCODES@, keycode)->0;
        KeyClass::Boundary(if shift { shifted } else { plain })
    } else if assoc(KEYPAD_KEYCODES@, keycode) is Some {
        KeyClass::Boundary(assoc(KEYPAD_KEYCODES@, keycode)->0)
    } else if keycode == DELETE_KEYCODE {
        KeyClass::Backspace
    } else {
        KeyClass::Clear
    }
}

pub fn classify(keycode: i64, shift: bool) -> (r: KeyClass)
    ensures
        r == spec_classify(keycode, shift),
{
    match find_i64(&LETTER_KEYCODES, keycode) {
        Some(i) => {
            let c = LETTER_KEYCODES[i].1;
            return KeyClass::Letter(if shift { to_upper(c) } else { c });
        },
        None => {},
    }
    if keycode == SPACE_KEYCODE {
        return KeyClass::Boundary(' ');
    }
    match find_i64(&SYMBOL_KEYCODES, keycode) {
        Some(i) => {
            let (plain, shifted) = SYMBOL_KEYCODES[i].1;
            return KeyClass::Boundary(if shift { shifted } else { plain });
        },
        None => {},
    }
    match find_i64(&KEYPAD_KEYCODES, keycode) {
        Some(i) => {
            return KeyClass::Boundary(KEYPAD_KEYCODES[i].1);
        },
        None => {},
    }
    if keycode == DELETE_KEYCODE {
        KeyClass::Backspace
    } else {
        KeyClass::Clear
    }
}

} // verus!
