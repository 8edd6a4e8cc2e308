//! Keyboard layouts: dubeolsik (KS X 5002) and sebeolsik (390 / final)
//! mapped onto QWERTY keys.
//!
//! Dubeolsik puts the double consonants and two vowels on Shift (upper
//! case); its consonants carry no position, so the composer decides between
//! initial and final (`KeyJamo::Dual`). In sebeolsik every jamo key names
//! its position, and digit and punctuation keys can produce jamo too.
use vstd::prelude::*;
use crate::hangul::{cho_seq, is_vowel_jamo, jong_seq, jung_seq, spec_split_jong, spec_split_jung};
use crate::text::{spec_lower, to_lower};

verus! {

/// Supported keyboard layouts.
#[derive(Debug, Clone, Copy, PartialEq, Eq, Structural)]
pub enum Layout {
    Dubeolsik,
    Sebeolsik390,
    SebeolsikFinal,
}

impl Default for Layout {
    fn default() -> (r: Self)
        ensures
            r == Layout::Dubeolsik,
    {
        Layout::Dubeolsik
    }
}

/// The jamo a key produces, with its position.
#[derive(Debug, Clone, Copy, PartialEq, Eq, Structural)]
pub enum KeyJamo {
    /// A dubeolsik consonant: the composer decides initial or final.
    Dual(char),
    Cho(char),
    Jung(char),
    Jong(char),
    /// A key that produces a non-jamo character in this layout.
    Other(char),
}

/// Sebeolsik tables: one entry per printable ASCII key, in key order:
/// (key, kind: 0 = initial, 1 = vowel, 2 = final, 3 = other character, jamo or character).
pub const SEBEOLSIK_390: [(char, u8, char); 94] = [
    ('!', 2, 'ㅈ'),
    ('"', 3, '"'),
    ('#', 3, '#'),
    ('$', 3, '$'),
    ('%', 3, '%'),
    ('&', 3, '&'),
    ('\'', 0, 'ㅌ'),
    ('(', 3, '('),
    (')', 3, ')'),
    ('*', 3, '*'),
    ('+', 3, '+'),
    (',', 3, ','),
    ('-', 3, '-'),
    ('.', 3, '.'),
    ('/', 1, 'ㅗ'),
    ('0', 0, 'ㅋ'),
    ('1', 2, 'ㅎ'),
    ('2', 2, 'ㅆ'),
    ('3', 2, 'ㅂ'),
    ('4', 1, 'ㅛ'),
    ('5', 1, 'ㅠ'),
    ('6', 1, 'ㅑ'),
    ('7', 1, 'ㅖ'),
    ('8', 1, 'ㅢ'),
    ('9', 1, 'ㅜ'),
    (':', 3, ':'),
    (';', 0, 'ㅂ'),
    ('<', 3, '2'),
    ('=', 3, '='),
    ('>', 3, '3'),
    ('?', 3, '?'),
    ('@', 3, '@'),
    ('A', 2, 'ㄷ'),
    ('B', 3, '!'),
    ('C', 2, 'ㄻ'),
    ('D', 2, 'ㄺ'),
    ('E', 2, 'ㅋ'),
    ('F', 2, 'ㄲ'),
    ('G', 3, '/'),
    ('H', 3, '\''),
    ('I', 3, '8'),
    ('J', 3, '4'),
    ('K', 3, '5'),
    ('L', 3, '6'),
    ('M', 3, '1'),
    ('N', 3, '0'),
    ('O', 3, '9'),
    ('P', 3, '>'),
    ('Q', 2, 'ㅍ'),
    ('R', 1, 'ㅒ'),
    ('S', 2, 'ㄶ'),
    ('T', 3, ';'),
    ('U', 3, '7'),
    ('V', 2, 'ㅀ'),
    ('W', 2, 'ㅌ'),
    ('X', 2, 'ㅄ'),
    ('Y', 3, '<'),
    ('Z', 2, 'ㅊ'),
    ('[', 3, '['),
    ('\\', 3, '\\'),
    (']', 3, ']'),
    ('^', 3, '^'),
    ('_', 3, '_'),
    ('`', 3, '`'),
    ('a', 2, 'ㅇ'),
    ('b', 1, 'ㅜ'),
    ('c', 1, 'ㅔ'),
    ('d', 1, 'ㅣ'),
    ('e', 1, 'ㅕ'),
    ('f', 1, 'ㅏ'),
    ('g', 1, 'ㅡ'),
    ('h', 0, 'ㄴ'),
    ('i', 0, 'ㅁ'),
    ('j', 0, 'ㅇ'),
    ('k', 0, 'ㄱ'),
    ('l', 0, 'ㅈ'),
    ('m', 0, 'ㅎ'),
    ('n', 0, 'ㅅ'),
    ('o', 0, 'ㅊ'),
    ('p', 0, 'ㅍ'),
    ('q', 2, 'ㅅ'),
    ('r', 1, 'ㅐ'),
    ('s', 2, 'ㄴ'),
    ('t', 1, 'ㅓ'),
    ('u', 0, 'ㄷ'),
    ('v', 1, 'ㅗ'),
    ('w', 2, 'ㄹ'),
    ('x', 2, 'ㄱ'),
    ('y', 0, 'ㄹ'),
    ('z', 2, 'ㅁ'),
    ('{', 3, '{'),
    ('|', 3, '|'),
    ('}', 3, '}'),
    ('~', 3, '~'),
];

pub const SEBEOLSIK_FINAL: [(char, u8, char); 94] = [
    ('!', 2, 'ㄲ'),
    ('"', 3, '·'),
    ('#', 2, 'ㅈ'),
    ('$', 2, 'ㄿ'),
    ('%', 2, 'ㄾ'),
    ('&', 3, '“'),
    ('\'', 0, 'ㅌ'),
    ('(', 3, '\''),
    (')', 3, '~'),
    ('*', 3, '”'),
    ('+', 3, '+'),
    (',', 3, ','),
    ('-', 3, ')'),
    ('.', 3, '.'),
    ('/', 1, 'ㅗ'),
    ('0', 0, 'ㅋ'),
    ('1', 2, 'ㅎ'),
    ('2', 2, 'ㅆ'),
    ('3', 2, 'ㅂ'),
    ('4', 1, 'ㅛ'),
    ('5', 1, 'ㅠ'),
    ('6', 1, 'ㅑ'),
    ('7', 1, 'ㅖ'),
    ('8', 1, 'ㅢ'),
    ('9', 1, 'ㅜ'),
    (':', 3, '4'),
    (';', 0, 'ㅂ'),
    ('<', 3, ','),
    ('=', 3, '>'),
    ('>', 3, '.'),
    ('?', 3, '!'),
    ('@', 2, 'ㄺ'),
    ('A', 2, 'ㄷ'),
    ('B', 3, '?'),
    ('C', 2, 'ㅋ'),
    ('D', 2, 'ㄼ'),
    ('E', 2, 'ㄵ'),
    ('F', 2, 'ㄻ'),
    ('G', 1, 'ㅒ'),
    ('H', 3, '0'),
    ('I', 3, '7'),
    ('J', 3, '1'),
    ('K', 3, '2'),
    ('L', 3, '3'),
    ('M', 3, '"'),
    ('N', 3, '-'),
    ('O', 3, '8'),
    ('P', 3, '9'),
    ('Q', 2, 'ㅍ'),
    ('R', 2, 'ㅀ'),
    ('S', 2, 'ㄶ'),
    ('T', 2, 'ㄽ'),
    ('U', 3, '6'),
    ('V', 2, 'ㄳ'),
    ('W', 2, 'ㅌ'),
    ('X', 2, 'ㅄ'),
    ('Y', 3, '5'),
    ('Z', 2, 'ㅊ'),
    ('[', 3, '('),
    ('\\', 3, ':'),
    (']', 3, '<'),
    ('^', 3, '='),
    ('_', 3, ';'),
    ('`', 3, '*'),
    ('a', 2, 'ㅇ'),
    ('b', 1, 'ㅜ'),
    ('c', 1, 'ㅔ'),
    ('d', 1, 'ㅣ'),
    ('e', 1, 'ㅕ'),
    ('f', 1, 'ㅏ'),
    ('g', 1, 'ㅡ'),
    ('h', 0, 'ㄴ'),
    ('i', 0, 'ㅁ'),
    ('j', 0, 'ㅇ'),
    ('k', 0, 'ㄱ'),
    ('l', 0, 'ㅈ'),
    ('m', 0, 'ㅎ'),
    ('n', 0, 'ㅅ'),
    ('o', 0, 'ㅊ'),
    ('p', 0, 'ㅍ'),
    ('q', 2, 'ㅅ'),
    ('r', 1, 'ㅐ'),
    ('s', 2, 'ㄴ'),
    ('t', 1, 'ㅓ'),
    ('u', 0, 'ㄷ'),
    ('v', 1, 'ㅗ'),
    ('w', 2, 'ㄹ'),
    ('x', 2, 'ㄱ'),
    ('y', 0, 'ㄹ'),
    ('z', 2, 'ㅁ'),
    ('{', 3, '%'),
    ('|', 3, '\\'),
    ('}', 3, '/'),
    ('~', 3, '※'),
];

pub open spec fn sebeolsik_seq(layout: Layout) -> Seq<(char, u8, char)> {
    match layout {
        Layout::Sebeolsik390 => SEBEOLSIK_390@,
        Layout::SebeolsikFinal => SEBEOLSIK_FINAL@,
        Layout::Dubeolsik => Seq::empty(),
    }
}

/// The (kind, jamo) of the first table entry for `key`, searching from `i`.
pub open spec fn find_entry(t: Seq<(char, u8, char)>, key: char, i: int) -> Option<(u8, char)>
    decreases t.len() - i,
{
    if i < 0 || i >= t.len() {
        None
    } else if t[i].0 == key {
        Some((t[i].1, t[i].2))
    } else {
        find_entry(t, key, i + 1)
    }
}

/// The key of the first table entry with this kind and jamo, searching from `i`.
pub open spec fn find_key(t: Seq<(char, u8, char)>, kind: u8, jamo: char, i: int) -> Option<char>
    decreases t.len() - i,
{
    if i < 0 || i >= t.len() {
        None
    } else if t[i].1 == kind && t[i].2 == jamo {
        Some(t[i].0)
    } else {
        find_key(t, kind, jamo, i + 1)
    }
}

fn sebeolsik_table(layout: Layout) -> (t: &'static [(char, u8, char); 94])
    requires
        layout != Layout::Dubeolsik,
    ensures
        t@ == sebeolsik_seq(layout),
{
    match layout {
        Layout::Sebeolsik390 => &SEBEOLSIK_390,
        _ => &SEBEOLSIK_FINAL,
    }
}

/// The dubeolsik jamo of a lower-case key.
pub open spec fn lower_key_jamo(k: char) -> Option<char> {
    if k == 'q' { Some('ㅂ') }
    else if k == 'w' { Some('ㅈ') }
    else if k == 'e' { Some('ㄷ') }
    else if k == 'r' { Some('ㄱ') }
    else if k == 't' { Some('ㅅ') }
    else if k == 'y' { Some('ㅛ') }
    else if k == 'u' { Some('ㅕ') }
    else if k == 'i' { Some('ㅑ') }
    else if k == 'o' { Some('ㅐ') }
    else if k == 'p' { Some('ㅔ') }
    else if k == 'a' { Some('ㅁ') }
    else if k == 's' { Some('ㄴ') }
    else if k == 'd' { Some('ㅇ') }
    else if k == 'f' { Some('ㄹ') }
    else if k == 'g' { Some('ㅎ') }
    else if k == 'h' { Some('ㅗ') }
    else if k == 'j' { Some('ㅓ') }
    else if k == 'k' { Some('ㅏ') }
    else if k == 'l' { Some('ㅣ') }
    else if k == 'z' { Some('ㅋ') }
    else if k == 'x' { Some('ㅌ') }
    else if k == 'c' { Some('ㅊ') }
    else if k == 'v' { Some('ㅍ') }
    else if k == 'b' { Some('ㅠ') }
    else if k == 'n' { Some('ㅜ') }
    else if k == 'm' { Some('ㅡ') }
    else { None }
}

/// The dubeolsik jamo of a key: the Shift jamo for Q W E R T O P, otherwise
/// the jamo of the lower-case key.
pub open spec fn spec_key_to_jamo(key: char) -> Option<char> {
    if key == 'Q' { Some('ㅃ') }
    else if key == 'W' { Some('ㅉ') }
    else if key == 'E' { Some('ㄸ') }
    else if key == 'R' { Some('ㄲ') }
    else if key == 'T' { Some('ㅆ') }
    else if key == 'O' { Some('ㅒ') }
    else if key == 'P' { Some('ㅖ') }
    else { lower_key_jamo(spec_lower(key)) }
}

/// The dubeolsik key of a single jamo (upper case for the Shift jamo).
pub open spec fn spec_jamo_to_key(jamo: char) -> Option<char> {
    if jamo == 'ㅂ' { Some('q') }
    else if jamo == 'ㅃ' { Some('Q') }
    else if jamo == 'ㅈ' { Some('w') }
    else if jamo == 'ㅉ' { Some('W') }
    else if jamo == 'ㄷ' { Some('e') }
    else if jamo == 'ㄸ' { Some('E') }
    else if jamo == 'ㄱ' { Some('r') }
    else if jamo == 'ㄲ' { Some('R') }
    else if jamo == 'ㅅ' { Some('t') }
    else if jamo == 'ㅆ' { Some('T') }
    else if jamo == 'ㅛ' { Some('y') }
    else if jamo == 'ㅕ' { Some('u') }
    else if jamo == 'ㅑ' { Some('i') }
    else if jamo == 'ㅐ' { Some('o') }
    else if jamo == 'ㅒ' { Some('O') }
    else if jamo == 'ㅔ' { Some('p') }
    else if jamo == 'ㅖ' { Some('P') }
    else if jamo == 'ㅁ' { Some('a') }
    else if jamo == 'ㄴ' { Some('s') }
    else if jamo == 'ㅇ' { Some('d') }
    else if jamo == 'ㄹ' { Some('f') }
    else if jamo == 'ㅎ' { Some('g') }
    else if jamo == 'ㅗ' { Some('h') }
    else if jamo == 'ㅓ' { Some('j') }
    else if jamo == 'ㅏ' { Some('k') }
    else if jamo == 'ㅣ' { Some('l') }
    else if jamo == 'ㅋ' { Some('z') }
    else if jamo == 'ㅌ' { Some('x') }
    else if jamo == 'ㅊ' { Some('c') }
    else if jamo == 'ㅍ' { Some('v') }
    else if jamo == 'ㅠ' { Some('b') }
    else if jamo == 'ㅜ' { Some('n') }
    else if jamo == 'ㅡ' { Some('m') }
    else { None }
}

pub open spec fn entry_key_jamo(kind: u8, jamo: char) -> KeyJamo {
    if kind == 0 {
        KeyJamo::Cho(jamo)
    } else if kind == 1 {
        KeyJamo::Jung(jamo)
    } else if kind == 2 {
        KeyJamo::Jong(jamo)
    } else {
        KeyJamo::Other(jamo)
    }
}

/// What a key produces in a layout; `None` for keys outside the layout.
pub open spec fn spec_key_jamo(layout: Layout, key: char) -> Option<KeyJamo> {
    match layout {
        Layout::Dubeolsik => match spec_key_to_jamo(key) {
            Some(j) => Some(if jung_seq().contains(j) { KeyJamo::Jung(j) } else { KeyJamo::Dual(j) }),
            None => None,
        },
        _ => match find_entry(sebeolsik_seq(layout), key, 0) {
            Some((kind, j)) => Some(entry_key_jamo(kind, j)),
            None => None,
        },
    }
}

/// The key that produces `jamo` at position `kind` (0 initial, 1 vowel,
/// 2 final) in a layout; compound jamo without a key of their own give `None`.
pub open spec fn spec_key_for_jamo(layout: Layout, kind: u8, jamo: char) -> Option<char> {
    match layout {
        Layout::Dubeolsik => spec_jamo_to_key(jamo),
        _ => find_key(sebeolsik_seq(layout), kind, jamo, 0),
    }
}

pub open spec fn is_jamo_key(k: Option<KeyJamo>) -> bool {
    match k {
        Some(KeyJamo::Dual(_)) | Some(KeyJamo::Cho(_)) | Some(KeyJamo::Jung(_)) | Some(KeyJamo::Jong(_)) => true,
        _ => false,
    }
}

/// The jamo (with position) a key produces in a layout. Keys outside the
/// layout (space and the like) give `None`.
pub fn key_jamo(layout: Layout, key: char) -> (r: Option<KeyJamo>)
    ensures
        r == spec_key_jamo(layout, key),
{
    match layout {
        Layout::Dubeolsik => {
            match key_to_jamo(key) {
                Some(jamo) => Some(if is_vowel_jamo(jamo) {
                    KeyJamo::Jung(jamo)
                } else {
                    KeyJamo::Dual(jamo)
                }),
                None => None,
            }
        },
        _ => {
            let table = sebeolsik_table(layout);
            let mut i: usize = 0;
            while i < 94
                invariant
                    i <= 94,
                    table@ == sebeolsik_seq(layout),
                    layout != Layout::Dubeolsik,
                    find_entry(table@, key, 0) == find_entry(table@, key, i as int),
                decreases 94 - i,
            {
                let (k, kind, jamo) = table[i];
                if k == key {
                    return Some(
                        if kind == 0 {
                            KeyJamo::Cho(jamo)
                        } else if kind == 1 {
                            KeyJamo::Jung(jamo)
                        } else if kind == 2 {
                            KeyJamo::Jong(jamo)
                        } else {
                            KeyJamo::Other(jamo)
                        },
                    );
                }
                i = i + 1;
            }
            None
        },
    }
}

/// Whether the key makes part of a word in this layout (produces a jamo).
/// In sebeolsik digits and punctuation can be jamo keys.
pub fn is_word_key(layout: Layout, key: char) -> (b: bool)
    ensures
        b == is_jamo_key(spec_key_jamo(layout, key)),
{
    match key_jamo(layout, key) {
        Some(KeyJamo::Dual(_)) | Some(KeyJamo::Cho(_)) | Some(KeyJamo::Jung(_)) | Some(KeyJamo::Jong(_)) => true,
        _ => false,
    }
}

/// The key producing `jamo` at position `kind` (0 initial, 1 vowel, 2 final).
/// Compound jamo without a key of their own give `None`: the caller splits
/// them and looks up the parts.
pub fn key_for_jamo(layout: Layout, kind: u8, jamo: char) -> (r: Option<char>)
    ensures
        r == spec_key_for_jamo(layout, kind, jamo),
{
    match layout {
        Layout::Dubeolsik => jamo_to_key(jamo),
        _ => {
            let table = sebeolsik_table(layout);
            let mut i: usize = 0;
            while i < 94
                invariant
                    i <= 94,
                    table@ == sebeolsik_seq(layout),
                    layout != Layout::Dubeolsik,
                    find_key(table@, kind, jamo, 0) == find_key(table@, kind, jamo, i as int),
                decreases 94 - i,
            {
                let (k, kd, j) = table[i];
                if kd == kind && j == jamo {
                    return Some(k);
                }
                i = i + 1;
            }
            None
        },
    }
}

/// A QWERTY key as a dubeolsik jamo. Keys without a jamo (digits, symbols)
/// give `None`.
pub fn key_to_jamo(key: char) -> (r: Option<char>)
    ensures
        r == spec_key_to_jamo(key),
{
    match key {
        'Q' => Some('ㅃ'),
        'W' => Some('ㅉ'),
        'E' => Some('ㄸ'),
        'R' => Some('ㄲ'),
        'T' => Some('ㅆ'),
        'O' => Some('ㅒ'),
        'P' => Some('ㅖ'),
        _ => match to_lower(key) {
            'q' => Some('ㅂ'),
            'w' => Some('ㅈ'),
            'e' => Some('ㄷ'),
            'r' => Some('ㄱ'),
            't' => Some('ㅅ'),
            'y' => Some('ㅛ'),
            'u' => Some('ㅕ'),
            'i' => Some('ㅑ'),
            'o' => Some('ㅐ'),
            'p' => Some('ㅔ'),
            'a' => Some('ㅁ'),
            's' => Some('ㄴ'),
            'd' => Some('ㅇ'),
            'f' => Some('ㄹ'),
            'g' => Some('ㅎ'),
            'h' => Some('ㅗ'),
            'j' => Some('ㅓ'),
            'k' => Some('ㅏ'),
            'l' => Some('ㅣ'),
            'z' => Some('ㅋ'),
            'x' => Some('ㅌ'),
            'c' => Some('ㅊ'),
            'v' => Some('ㅍ'),
            'b' => Some('ㅠ'),
            'n' => Some('ㅜ'),
            'm' => Some('ㅡ'),
            _ => None,
        },
    }
}

/// A single jamo as a QWERTY key. Compound jamo (ㄳ, ㅘ, ...) must be split
/// by the caller first.
pub fn jamo_to_key(jamo: char) -> (r: Option<char>)
    ensures
        r == spec_jamo_to_key(jamo),
{
    match jamo {
        'ㅂ' => Some('q'),
        'ㅃ' => Some('Q'),
        'ㅈ' => Some('w'),
        'ㅉ' => Some('W'),
        'ㄷ' => Some('e'),
        'ㄸ' => Some('E'),
        'ㄱ' => Some('r'),
        'ㄲ' => Some('R'),
        'ㅅ' => Some('t'),
        'ㅆ' => Some('T'),
        'ㅛ' => Some('y'),
        'ㅕ' => Some('u'),
        'ㅑ' => Some('i'),
        'ㅐ' => Some('o'),
        'ㅒ' => Some('O'),
        'ㅔ' => Some('p'),
        'ㅖ' => Some('P'),
        'ㅁ' => Some('a'),
        'ㄴ' => Some('s'),
        'ㅇ' => Some('d'),
        'ㄹ' => Some('f'),
        'ㅎ' => Some('g'),
        'ㅗ' => Some('h'),
        'ㅓ' => Some('j'),
        'ㅏ' => Some('k'),
        'ㅣ' => Some('l'),
        'ㅋ' => Some('z'),
        'ㅌ' => Some('x'),
        'ㅊ' => Some('c'),
        'ㅍ' => Some('v'),
        'ㅠ' => Some('b'),
        'ㅜ' => Some('n'),
        'ㅡ' => Some('m'),
        _ => None,
    }
}

/// The dubeolsik keys and their jamo invert each other: every jamo with a key
/// maps back to itself, and every jamo key maps back to itself once
/// lower-cased unless it is one of the Shift keys Q W E R T O P.
pub proof fn lemma_dubeolsik_key_roundtrip(key: char, jamo: char)
    ensures
        spec_jamo_to_key(jamo) matches Some(k) ==> spec_key_to_jamo(k) == Some(jamo),
        spec_key_to_jamo(key) matches Some(j) ==> spec_jamo_to_key(j) == Some(
            if key == 'Q' || key == 'W' || key == 'E' || key == 'R' || key == 'T' || key == 'O' || key == 'P' {
                key
            } else {
                spec_lower(key)
            },
        ),
{
}


/// An entry's jamo belongs to the table of its position.
pub open spec fn valid_entry(e: (char, u8, char)) -> bool {
    &&& e.1 == 0 ==> cho_seq().contains(e.2)
    &&& e.1 == 1 ==> jung_seq().contains(e.2)
    &&& e.1 == 2 ==> jong_seq().contains(e.2)
}

proof fn lemma_find_entry_in_table(t: Seq<(char, u8, char)>, key: char, i: int)
    requires
        forall|k: int| 0 <= k < t.len() ==> valid_entry(#[trigger] t[k]),
    ensures
        find_entry(t, key, i) matches Some((kind, j)) ==> valid_entry((key, kind, j)),
    decreases t.len() - i,
{
    if 0 <= i < t.len() && t[i].0 != key {
        lemma_find_entry_in_table(t, key, i + 1);
    }
}

proof fn lemma_tables_valid()
    ensures
        forall|k: int| 0 <= k < 94 ==> valid_entry(#[trigger] SEBEOLSIK_390@[k]),
        forall|k: int| 0 <= k < 94 ==> valid_entry(#[trigger] SEBEOLSIK_FINAL@[k]),
{
    assert(cho_seq()[0] == 'ㄱ' && cho_seq()[1] == 'ㄲ' && cho_seq()[2] == 'ㄴ' && cho_seq()[3] == 'ㄷ'
        && cho_seq()[5] == 'ㄹ' && cho_seq()[6] == 'ㅁ' && cho_seq()[7] == 'ㅂ' && cho_seq()[9] == 'ㅅ'
        && cho_seq()[11] == 'ㅇ' && cho_seq()[12] == 'ㅈ' && cho_seq()[14] == 'ㅊ' && cho_seq()[15] == 'ㅋ'
        && cho_seq()[16] == 'ㅌ' && cho_seq()[17] == 'ㅍ' && cho_seq()[18] == 'ㅎ');
    assert(jung_seq()[0] == 'ㅏ' && jung_seq()[1] == 'ㅐ' && jung_seq()[2] == 'ㅑ' && jung_seq()[3] == 'ㅒ'
        && jung_seq()[4] == 'ㅓ' && jung_seq()[5] == 'ㅔ' && jung_seq()[6] == 'ㅕ' && jung_seq()[7] == 'ㅖ'
        && jung_seq()[8] == 'ㅗ' && jung_seq()[12] == 'ㅛ' && jung_seq()[13] == 'ㅜ' && jung_seq()[17] == 'ㅠ'
        && jung_seq()[18] == 'ㅡ' && jung_seq()[19] == 'ㅢ' && jung_seq()[20] == 'ㅣ');
    assert(jong_seq()[0] == 'ㄱ' && jong_seq()[1] == 'ㄲ' && jong_seq()[2] == 'ㄳ' && jong_seq()[3] == 'ㄴ'
        && jong_seq()[4] == 'ㄵ' && jong_seq()[5] == 'ㄶ' && jong_seq()[6] == 'ㄷ' && jong_seq()[7] == 'ㄹ'
        && jong_seq()[8] == 'ㄺ' && jong_seq()[9] == 'ㄻ' && jong_seq()[10] == 'ㄼ' && jong_seq()[11] == 'ㄽ'
        && jong_seq()[12] == 'ㄾ' && jong_seq()[13] == 'ㄿ' && jong_seq()[14] == 'ㅀ' && jong_seq()[15] == 'ㅁ'
        && jong_seq()[16] == 'ㅂ' && jong_seq()[17] == 'ㅄ' && jong_seq()[18] == 'ㅅ' && jong_seq()[19] == 'ㅆ'
        && jong_seq()[20] == 'ㅇ' && jong_seq()[21] == 'ㅈ' && jong_seq()[22] == 'ㅊ' && jong_seq()[23] == 'ㅋ'
        && jong_seq()[24] == 'ㅌ' && jong_seq()[25] == 'ㅍ' && jong_seq()[26] == 'ㅎ');
}

/// Every jamo key of every layout produces a jamo of the table of its
/// position.
pub proof fn lemma_key_jamo_valid(layout: Layout, key: char)
    ensures
        spec_key_jamo(layout, key) matches Some(KeyJamo::Dual(c)) ==> cho_seq().contains(c),
        spec_key_jamo(layout, key) matches Some(KeyJamo::Cho(c)) ==> cho_seq().contains(c),
        spec_key_jamo(layout, key) matches Some(KeyJamo::Jung(c)) ==> jung_seq().contains(c),
        spec_key_jamo(layout, key) matches Some(KeyJamo::Jong(c)) ==> jong_seq().contains(c),
{
    lemma_tables_valid();
    if layout != Layout::Dubeolsik {
        lemma_find_entry_in_table(sebeolsik_seq(layout), key, 0);
    } else {
        assert(cho_seq()[0] == 'ㄱ' && cho_seq()[1] == 'ㄲ' && cho_seq()[2] == 'ㄴ' && cho_seq()[3] == 'ㄷ'
            && cho_seq()[4] == 'ㄸ' && cho_seq()[5] == 'ㄹ' && cho_seq()[6] == 'ㅁ' && cho_seq()[7] == 'ㅂ'
            && cho_seq()[8] == 'ㅃ' && cho_seq()[9] == 'ㅅ' && cho_seq()[10] == 'ㅆ' && cho_seq()[11] == 'ㅇ'
            && cho_seq()[12] == 'ㅈ' && cho_seq()[13] == 'ㅉ' && cho_seq()[14] == 'ㅊ' && cho_seq()[15] == 'ㅋ'
            && cho_seq()[16] == 'ㅌ' && cho_seq()[17] == 'ㅍ' && cho_seq()[18] == 'ㅎ');
    }
}


/// Dubeolsik keys produce single jamo: no compound vowel or final.
pub proof fn lemma_dubeolsik_key_simple(key: char)
    ensures
        spec_key_to_jamo(key) matches Some(j) ==> spec_split_jung(j) is None && spec_split_jong(j) is None,
{
}

} // verus!
