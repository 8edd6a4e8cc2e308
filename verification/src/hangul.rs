//! Hangul syllable and jamo tables, with the primitives that compose and
//! split syllables and compound jamo.
//!
//! Only precomposed syllables (U+AC00..U+D7A3) and compatibility jamo
//! (U+3131..U+3163) are handled.
use vstd::prelude::*;
use crate::text::char_from_u32;

verus! {

pub const SYLLABLE_BASE: u32 = 0xAC00;
pub const SYLLABLE_LAST: u32 = 0xD7A3;

/// The 19 initial consonants, in Unicode choseong order.
pub const CHOSEONG: [char; 19] = [
    'ㄱ', 'ㄲ', 'ㄴ', 'ㄷ', 'ㄸ', 'ㄹ', 'ㅁ', 'ㅂ', 'ㅃ', 'ㅅ', 'ㅆ', 'ㅇ', 'ㅈ', 'ㅉ', 'ㅊ', 'ㅋ',
    'ㅌ', 'ㅍ', 'ㅎ',
];

/// The 21 medial vowels, in Unicode jungseong order.
pub const JUNGSEONG: [char; 21] = [
    'ㅏ', 'ㅐ', 'ㅑ', 'ㅒ', 'ㅓ', 'ㅔ', 'ㅕ', 'ㅖ', 'ㅗ', 'ㅘ', 'ㅙ', 'ㅚ', 'ㅛ', 'ㅜ', 'ㅝ', 'ㅞ',
    'ㅟ', 'ㅠ', 'ㅡ', 'ㅢ', 'ㅣ',
];

/// The 27 final consonants. Array index + 1 is the Unicode jongseong code
/// (code 0 means "no final consonant").
pub const JONGSEONG: [char; 27] = [
    'ㄱ', 'ㄲ', 'ㄳ', 'ㄴ', 'ㄵ', 'ㄶ', 'ㄷ', 'ㄹ', 'ㄺ', 'ㄻ', 'ㄼ', 'ㄽ', 'ㄾ', 'ㄿ', 'ㅀ', 'ㅁ',
    'ㅂ', 'ㅄ', 'ㅅ', 'ㅆ', 'ㅇ', 'ㅈ', 'ㅊ', 'ㅋ', 'ㅌ', 'ㅍ', 'ㅎ',
];

pub open spec fn cho_seq() -> Seq<char> {
    seq![
        'ㄱ', 'ㄲ', 'ㄴ', 'ㄷ', 'ㄸ', 'ㄹ', 'ㅁ', 'ㅂ', 'ㅃ', 'ㅅ', 'ㅆ', 'ㅇ', 'ㅈ', 'ㅉ', 'ㅊ', 'ㅋ',
        'ㅌ', 'ㅍ', 'ㅎ',
    ]
}

pub open spec fn jung_seq() -> Seq<char> {
    seq![
        'ㅏ', 'ㅐ', 'ㅑ', 'ㅒ', 'ㅓ', 'ㅔ', 'ㅕ', 'ㅖ', 'ㅗ', 'ㅘ', 'ㅙ', 'ㅚ', 'ㅛ', 'ㅜ', 'ㅝ', 'ㅞ',
        'ㅟ', 'ㅠ', 'ㅡ', 'ㅢ', 'ㅣ',
    ]
}

pub open spec fn jong_seq() -> Seq<char> {
    seq![
        'ㄱ', 'ㄲ', 'ㄳ', 'ㄴ', 'ㄵ', 'ㄶ', 'ㄷ', 'ㄹ', 'ㄺ', 'ㄻ', 'ㄼ', 'ㄽ', 'ㄾ', 'ㄿ', 'ㅀ', 'ㅁ',
        'ㅂ', 'ㅄ', 'ㅅ', 'ㅆ', 'ㅇ', 'ㅈ', 'ㅊ', 'ㅋ', 'ㅌ', 'ㅍ', 'ㅎ',
    ]
}

/// Position of `c` among the initial consonants, or -1.
pub open spec fn cho_pos(c: char) -> int {
    if cho_seq().contains(c) { choose|i: int| 0 <= i < 19 && cho_seq()[i] == c } else { -1 }
}

/// Position of `c` among the vowels, or -1.
pub open spec fn jung_pos(c: char) -> int {
    if jung_seq().contains(c) { choose|i: int| 0 <= i < 21 && jung_seq()[i] == c } else { -1 }
}

/// Position of `c` among the final consonants (jongseong code - 1), or -1.
pub open spec fn jong_pos(c: char) -> int {
    if jong_seq().contains(c) { choose|i: int| 0 <= i < 27 && jong_seq()[i] == c } else { -1 }
}

/// The tables hold no character twice, so a position is determined by its
/// character.
pub proof fn lemma_tables_distinct()
    ensures
        forall|i: int, j: int| 0 <= i < 19 && 0 <= j < 19 && cho_seq()[i] == cho_seq()[j] ==> i == j,
        forall|i: int, j: int| 0 <= i < 21 && 0 <= j < 21 && jung_seq()[i] == jung_seq()[j] ==> i == j,
        forall|i: int, j: int| 0 <= i < 27 && 0 <= j < 27 && jong_seq()[i] == jong_seq()[j] ==> i == j,
{
    assert(cho_seq().len() == 19);
    assert(jung_seq().len() == 21);
    assert(jong_seq().len() == 27);
}

/// A character's position in a table, and the character at a position,
/// determine each other.
pub proof fn lemma_pos_index()
    ensures
        forall|i: int| 0 <= i < 19 ==> #[trigger] cho_pos(cho_seq()[i]) == i,
        forall|i: int| 0 <= i < 21 ==> #[trigger] jung_pos(jung_seq()[i]) == i,
        forall|i: int| 0 <= i < 27 ==> #[trigger] jong_pos(jong_seq()[i]) == i,
        forall|c: char| cho_seq().contains(c) ==> 0 <= #[trigger] cho_pos(c) < 19 && cho_seq()[cho_pos(c)] == c,
        forall|c: char| jung_seq().contains(c) ==> 0 <= #[trigger] jung_pos(c) < 21 && jung_seq()[jung_pos(c)] == c,
        forall|c: char| jong_seq().contains(c) ==> 0 <= #[trigger] jong_pos(c) < 27 && jong_seq()[jong_pos(c)] == c,
{
    lemma_tables_distinct();
    assert forall|i: int| 0 <= i < 19 implies #[trigger] cho_pos(cho_seq()[i]) == i by {
        assert(cho_seq().contains(cho_seq()[i]));
    }
    assert forall|i: int| 0 <= i < 21 implies #[trigger] jung_pos(jung_seq()[i]) == i by {
        assert(jung_seq().contains(jung_seq()[i]));
    }
    assert forall|i: int| 0 <= i < 27 implies #[trigger] jong_pos(jong_seq()[i]) == i by {
        assert(jong_seq().contains(jong_seq()[i]));
    }
}

/// Index of `c` among the initial consonants.
pub fn cho_index(c: char) -> (r: Option<usize>)
    ensures
        match r {
            Some(i) => i < 19 && cho_seq()[i as int] == c && cho_pos(c) == i,
            None => !cho_seq().contains(c) && cho_pos(c) == -1,
        },
{
    proof { lemma_pos_index(); }
    let mut i: usize = 0;
    while i < 19
        invariant
            i <= 19,
            CHOSEONG@ == cho_seq(),
            forall|j: int| 0 <= j < i ==> cho_seq()[j] != c,
        decreases 19 - i,
    {
        if CHOSEONG[i] == c {
            return Some(i);
        }
        i = i + 1;
    }
    None
}

/// Index of `c` among the vowels.
pub fn jung_index(c: char) -> (r: Option<usize>)
    ensures
        match r {
            Some(i) => i < 21 && jung_seq()[i as int] == c && jung_pos(c) == i,
            None => !jung_seq().contains(c) && jung_pos(c) == -1,
        },
{
    proof { lemma_pos_index(); }
    let mut i: usize = 0;
    while i < 21
        invariant
            i <= 21,
            JUNGSEONG@ == jung_seq(),
            forall|j: int| 0 <= j < i ==> jung_seq()[j] != c,
        decreases 21 - i,
    {
        if JUNGSEONG[i] == c {
            return Some(i);
        }
        i = i + 1;
    }
    None
}

/// Index of `c` among the final consonants (Unicode jongseong code - 1).
pub fn jong_index(c: char) -> (r: Option<usize>)
    ensures
        match r {
            Some(i) => i < 27 && jong_seq()[i as int] == c && jong_pos(c) == i,
            None => !jong_seq().contains(c) && jong_pos(c) == -1,
        },
{
    proof { lemma_pos_index(); }
    let mut i: usize = 0;
    while i < 27
        invariant
            i <= 27,
            JONGSEONG@ == jong_seq(),
            forall|j: int| 0 <= j < i ==> jong_seq()[j] != c,
        decreases 27 - i,
    {
        if JONGSEONG[i] == c {
            return Some(i);
        }
        i = i + 1;
    }
    None
}

pub fn is_vowel_jamo(c: char) -> (b: bool)
    ensures
        b == jung_seq().contains(c),
{
    jung_index(c).is_some()
}

pub open spec fn spec_is_compat_jamo(c: char) -> bool {
    0x3131 <= c as u32 <= 0x3163
}

/// U+3131..U+3163 compatibility jamo (compound jamo included).
pub fn is_compat_jamo(c: char) -> (b: bool)
    ensures
        b == spec_is_compat_jamo(c),
{
    let v = c as u32;
    0x3131 <= v && v <= 0x3163
}

pub open spec fn spec_is_syllable(c: char) -> bool {
    SYLLABLE_BASE <= c as u32 <= SYLLABLE_LAST
}

pub fn is_syllable(c: char) -> (b: bool)
    ensures
        b == spec_is_syllable(c),
{
    let v = c as u32;
    SYLLABLE_BASE <= v && v <= SYLLABLE_LAST
}

/// The double initial consonant typed as the same initial twice.
pub open spec fn spec_double_cho(a: char) -> Option<char> {
    if a == 'ㄱ' {
        Some('ㄲ')
    } else if a == 'ㄷ' {
        Some('ㄸ')
    } else if a == 'ㅂ' {
        Some('ㅃ')
    } else if a == 'ㅅ' {
        Some('ㅆ')
    } else if a == 'ㅈ' {
        Some('ㅉ')
    } else {
        None
    }
}

pub open spec fn spec_combine_cho(a: char, b: char) -> Option<char> {
    if a != b {
        None
    } else {
        spec_double_cho(a)
    }
}

pub open spec fn spec_split_cho(c: char) -> Option<(char, char)> {
    if c == 'ㄲ' {
        Some(('ㄱ', 'ㄱ'))
    } else if c == 'ㄸ' {
        Some(('ㄷ', 'ㄷ'))
    } else if c == 'ㅃ' {
        Some(('ㅂ', 'ㅂ'))
    } else if c == 'ㅆ' {
        Some(('ㅅ', 'ㅅ'))
    } else if c == 'ㅉ' {
        Some(('ㅈ', 'ㅈ'))
    } else {
        None
    }
}

/// The compound vowel made of two vowels.
pub open spec fn spec_combine_jung(a: char, b: char) -> Option<char> {
    if a == 'ㅗ' && b == 'ㅏ' {
        Some('ㅘ')
    } else if a == 'ㅗ' && b == 'ㅐ' {
        Some('ㅙ')
    } else if a == 'ㅗ' && b == 'ㅣ' {
        Some('ㅚ')
    } else if a == 'ㅜ' && b == 'ㅓ' {
        Some('ㅝ')
    } else if a == 'ㅜ' && b == 'ㅔ' {
        Some('ㅞ')
    } else if a == 'ㅜ' && b == 'ㅣ' {
        Some('ㅟ')
    } else if a == 'ㅡ' && b == 'ㅣ' {
        Some('ㅢ')
    } else {
        None
    }
}

pub open spec fn spec_split_jung(c: char) -> Option<(char, char)> {
    if c == 'ㅘ' {
        Some(('ㅗ', 'ㅏ'))
    } else if c == 'ㅙ' {
        Some(('ㅗ', 'ㅐ'))
    } else if c == 'ㅚ' {
        Some(('ㅗ', 'ㅣ'))
    } else if c == 'ㅝ' {
        Some(('ㅜ', 'ㅓ'))
    } else if c == 'ㅞ' {
        Some(('ㅜ', 'ㅔ'))
    } else if c == 'ㅟ' {
        Some(('ㅜ', 'ㅣ'))
    } else if c == 'ㅢ' {
        Some(('ㅡ', 'ㅣ'))
    } else {
        None
    }
}

/// The compound final consonant made of two final consonants.
pub open spec fn spec_combine_jong(a: char, b: char) -> Option<char> {
    if a == 'ㄱ' && b == 'ㅅ' {
        Some('ㄳ')
    } else if a == 'ㄴ' && b == 'ㅈ' {
        Some('ㄵ')
    } else if a == 'ㄴ' && b == 'ㅎ' {
        Some('ㄶ')
    } else if a == 'ㄹ' && b == 'ㄱ' {
        Some('ㄺ')
    } else if a == 'ㄹ' && b == 'ㅁ' {
        Some('ㄻ')
    } else if a == 'ㄹ' && b == 'ㅂ' {
        Some('ㄼ')
    } else if a == 'ㄹ' && b == 'ㅅ' {
        Some('ㄽ')
    } else if a == 'ㄹ' && b == 'ㅌ' {
        Some('ㄾ')
    } else if a == 'ㄹ' && b == 'ㅍ' {
        Some('ㄿ')
    } else if a == 'ㄹ' && b == 'ㅎ' {
        Some('ㅀ')
    } else if a == 'ㅂ' && b == 'ㅅ' {
        Some('ㅄ')
    } else {
        None
    }
}

pub open spec fn spec_split_jong(c: char) -> Option<(char, char)> {
    if c == 'ㄳ' {
        Some(('ㄱ', 'ㅅ'))
    } else if c == 'ㄵ' {
        Some(('ㄴ', 'ㅈ'))
    } else if c == 'ㄶ' {
        Some(('ㄴ', 'ㅎ'))
    } else if c == 'ㄺ' {
        Some(('ㄹ', 'ㄱ'))
    } else if c == 'ㄻ' {
        Some(('ㄹ', 'ㅁ'))
    } else if c == 'ㄼ' {
        Some(('ㄹ', 'ㅂ'))
    } else if c == 'ㄽ' {
        Some(('ㄹ', 'ㅅ'))
    } else if c == 'ㄾ' {
        Some(('ㄹ', 'ㅌ'))
    } else if c == 'ㄿ' {
        Some(('ㄹ', 'ㅍ'))
    } else if c == 'ㅀ' {
        Some(('ㄹ', 'ㅎ'))
    } else if c == 'ㅄ' {
        Some(('ㅂ', 'ㅅ'))
    } else {
        None
    }
}

pub fn combine_cho(a: char, b: char) -> (r: Option<char>)
    ensures
        r == spec_combine_cho(a, b),
{
    if a != b {
        return None;
    }
    match a {
        'ㄱ' => Some('ㄲ'),
        'ㄷ' => Some('ㄸ'),
        'ㅂ' => Some('ㅃ'),
        'ㅅ' => Some('ㅆ'),
        'ㅈ' => Some('ㅉ'),
        _ => None,
    }
}

pub fn split_cho(c: char) -> (r: Option<(char, char)>)
    ensures
        r == spec_split_cho(c),
{
    match c {
        'ㄲ' => Some(('ㄱ', 'ㄱ')),
        'ㄸ' => Some(('ㄷ', 'ㄷ')),
        'ㅃ' => Some(('ㅂ', 'ㅂ')),
        'ㅆ' => Some(('ㅅ', 'ㅅ')),
        'ㅉ' => Some(('ㅈ', 'ㅈ')),
        _ => None,
    }
}

pub fn combine_jung(a: char, b: char) -> (r: Option<char>)
    ensures
        r == spec_combine_jung(a, b),
{
    match (a, b) {
        ('ㅗ', 'ㅏ') => Some('ㅘ'),
        ('ㅗ', 'ㅐ') => Some('ㅙ'),
        ('ㅗ', 'ㅣ') => Some('ㅚ'),
        ('ㅜ', 'ㅓ') => Some('ㅝ'),
        ('ㅜ', 'ㅔ') => Some('ㅞ'),
        ('ㅜ', 'ㅣ') => Some('ㅟ'),
        ('ㅡ', 'ㅣ') => Some('ㅢ'),
        _ => None,
    }
}

pub fn split_jung(c: char) -> (r: Option<(char, char)>)
    ensures
        r == spec_split_jung(c),
{
    match c {
        'ㅘ' => Some(('ㅗ', 'ㅏ')),
        'ㅙ' => Some(('ㅗ', 'ㅐ')),
        'ㅚ' => Some(('ㅗ', 'ㅣ')),
        'ㅝ' => Some(('ㅜ', 'ㅓ')),
        'ㅞ' => Some(('ㅜ', 'ㅔ')),
        'ㅟ' => Some(('ㅜ', 'ㅣ')),
        'ㅢ' => Some(('ㅡ', 'ㅣ')),
        _ => None,
    }
}

pub fn combine_jong(a: char, b: char) -> (r: Option<char>)
    ensures
        r == spec_combine_jong(a, b),
{
    match (a, b) {
        ('ㄱ', 'ㅅ') => Some('ㄳ'),
        ('ㄴ', 'ㅈ') => Some('ㄵ'),
        ('ㄴ', 'ㅎ') => Some('ㄶ'),
        ('ㄹ', 'ㄱ') => Some('ㄺ'),
        ('ㄹ', 'ㅁ') => Some('ㄻ'),
        ('ㄹ', 'ㅂ') => Some('ㄼ'),
        ('ㄹ', 'ㅅ') => Some('ㄽ'),
        ('ㄹ', 'ㅌ') => Some('ㄾ'),
        ('ㄹ', 'ㅍ') => Some('ㄿ'),
        ('ㄹ', 'ㅎ') => Some('ㅀ'),
        ('ㅂ', 'ㅅ') => Some('ㅄ'),
        _ => None,
    }
}

pub fn split_jong(c: char) -> (r: Option<(char, char)>)
    ensures
        r == spec_split_jong(c),
{
    match c {
        'ㄳ' => Some(('ㄱ', 'ㅅ')),
        'ㄵ' => Some(('ㄴ', 'ㅈ')),
        'ㄶ' => Some(('ㄴ', 'ㅎ')),
        'ㄺ' => Some(('ㄹ', 'ㄱ')),
        'ㄻ' => Some(('ㄹ', 'ㅁ')),
        'ㄼ' => Some(('ㄹ', 'ㅂ')),
        'ㄽ' => Some(('ㄹ', 'ㅅ')),
        'ㄾ' => Some(('ㄹ', 'ㅌ')),
        'ㄿ' => Some(('ㄹ', 'ㅍ')),
        'ㅀ' => Some(('ㄹ', 'ㅎ')),
        'ㅄ' => Some(('ㅂ', 'ㅅ')),
        _ => None,
    }
}

/// Combining two jamo and splitting the result are inverse to each other,
/// for the initial doubles, the compound vowels and the compound finals.
pub proof fn lemma_combine_split_inverse(a: char, b: char, c: char)
    ensures
        spec_combine_cho(a, b) == Some(c) <==> spec_split_cho(c) == Some((a, b)),
        spec_combine_jung(a, b) == Some(c) <==> spec_split_jung(c) == Some((a, b)),
        spec_combine_jong(a, b) == Some(c) <==> spec_split_jong(c) == Some((a, b)),
{
}

/// Code point of the syllable with initial index `cho`, vowel index `jung`
/// and final code `jong_code` (0 = none).
pub open spec fn syllable_code(cho: int, jung: int, jong_code: int) -> int {
    SYLLABLE_BASE + (cho * 21 + jung) * 28 + jong_code
}


pub proof fn lemma_syllable_code_range(cho: int, jung: int, jong_code: int)
    requires
        0 <= cho < 19,
        0 <= jung < 21,
        0 <= jong_code < 28,
    ensures
        SYLLABLE_BASE <= syllable_code(cho, jung, jong_code) <= SYLLABLE_LAST,
        (syllable_code(cho, jung, jong_code) - SYLLABLE_BASE) % 28 == jong_code,
        ((syllable_code(cho, jung, jong_code) - SYLLABLE_BASE) / 28) % 21 == jung,
        (syllable_code(cho, jung, jong_code) - SYLLABLE_BASE) / 28 / 21 == cho,
{
    let off = (cho * 21 + jung) * 28 + jong_code;
    assert(0 <= cho * 21 + jung <= 18 * 21 + 20) by (nonlinear_arith)
        requires 0 <= cho < 19, 0 <= jung < 21;
    assert(0 <= off <= (18 * 21 + 20) * 28 + 27) by (nonlinear_arith)
        requires 0 <= cho * 21 + jung <= 18 * 21 + 20, 0 <= jong_code < 28, off == (cho * 21 + jung) * 28 + jong_code;
    assert(off % 28 == jong_code && off / 28 == cho * 21 + jung) by (nonlinear_arith)
        requires off == (cho * 21 + jung) * 28 + jong_code, 0 <= jong_code < 28, 0 <= cho * 21 + jung;
    assert((cho * 21 + jung) % 21 == jung && (cho * 21 + jung) / 21 == cho) by (nonlinear_arith)
        requires 0 <= jung < 21, 0 <= cho;
}

/// Builds the precomposed syllable from initial index, vowel index and final
/// code (0 = no final consonant).
pub fn compose_syllable(cho: usize, jung: usize, jong_code: usize) -> (c: char)
    requires
        cho < 19,
        jung < 21,
        jong_code < 28,
    ensures
        c as u32 == syllable_code(cho as int, jung as int, jong_code as int),
        c == (syllable_code(cho as int, jung as int, jong_code as int) as u32) as char,
        spec_is_syllable(c),
{
    proof { lemma_syllable_code_range(cho as int, jung as int, jong_code as int); }
    let code = SYLLABLE_BASE + ((cho as u32) * 21 + jung as u32) * 28 + jong_code as u32;
    char_from_u32(code).unwrap()
}

/// The (initial index, vowel index, final code) of a precomposed syllable.
pub open spec fn spec_decompose(c: char) -> Option<(int, int, int)> {
    if spec_is_syllable(c) {
        let off = c as u32 - SYLLABLE_BASE;
        Some((off / 28 / 21, (off / 28) % 21, off % 28))
    } else {
        None
    }
}

/// Splits a precomposed syllable into (initial index, vowel index, final code).
pub fn decompose_syllable(c: char) -> (r: Option<(usize, usize, usize)>)
    ensures
        match r {
            Some((cho, jung, jong)) => spec_decompose(c) == Some((cho as int, jung as int, jong as int))
                && cho < 19 && jung < 21 && jong < 28,
            None => spec_decompose(c) is None,
        },
{
    if !is_syllable(c) {
        return None;
    }
    let offset = c as u32 - SYLLABLE_BASE;
    assert(offset / 28 / 21 < 19) by (nonlinear_arith)
        requires offset <= 11171;
    let jong = (offset % 28) as usize;
    let jung = ((offset / 28) % 21) as usize;
    let cho = (offset / 28 / 21) as usize;
    Some((cho, jung, jong))
}

/// Decomposing a composed syllable gives back its parts, and composing the
/// parts of a syllable gives back the syllable.
pub proof fn lemma_compose_decompose(cho: int, jung: int, jong_code: int, c: char)
    ensures
        (0 <= cho < 19 && 0 <= jung < 21 && 0 <= jong_code < 28 && c as u32 == syllable_code(cho, jung, jong_code))
            ==> spec_decompose(c) == Some((cho, jung, jong_code)),
        spec_decompose(c) == Some((cho, jung, jong_code)) ==> (0 <= cho < 19 && 0 <= jung < 21
            && 0 <= jong_code < 28 && c as u32 == syllable_code(cho, jung, jong_code)),
{
    if 0 <= cho < 19 && 0 <= jung < 21 && 0 <= jong_code < 28 && c as u32 == syllable_code(cho, jung, jong_code) {
        lemma_syllable_code_range(cho, jung, jong_code);
    }
    if spec_decompose(c) == Some((cho, jung, jong_code)) {
        let off = (c as u32 - SYLLABLE_BASE) as int;
        assert(0 <= off <= 11171);
        assert(off == (cho * 21 + jung) * 28 + jong_code && cho < 19) by (nonlinear_arith)
            requires 0 <= off <= 11171, cho == off / 28 / 21, jung == (off / 28) % 21, jong_code == off % 28;
    }
}


pub proof fn lemma_table_values()
    ensures
        cho_seq()[0] == 'ㄱ' && cho_seq()[1] == 'ㄲ' && cho_seq()[2] == 'ㄴ' && cho_seq()[3] == 'ㄷ'
            && cho_seq()[4] == 'ㄸ' && cho_seq()[5] == 'ㄹ' && cho_seq()[6] == 'ㅁ' && cho_seq()[7] == 'ㅂ'
            && cho_seq()[8] == 'ㅃ' && cho_seq()[9] == 'ㅅ' && cho_seq()[10] == 'ㅆ' && cho_seq()[11] == 'ㅇ'
            && cho_seq()[12] == 'ㅈ' && cho_seq()[13] == 'ㅉ' && cho_seq()[14] == 'ㅊ' && cho_seq()[15] == 'ㅋ'
            && cho_seq()[16] == 'ㅌ' && cho_seq()[17] == 'ㅍ' && cho_seq()[18] == 'ㅎ',
        jung_seq()[0] == 'ㅏ' && jung_seq()[1] == 'ㅐ' && jung_seq()[2] == 'ㅑ' && jung_seq()[3] == 'ㅒ'
            && jung_seq()[4] == 'ㅓ' && jung_seq()[5] == 'ㅔ' && jung_seq()[6] == 'ㅕ' && jung_seq()[7] == 'ㅖ'
            && jung_seq()[8] == 'ㅗ' && jung_seq()[9] == 'ㅘ' && jung_seq()[10] == 'ㅙ' && jung_seq()[11] == 'ㅚ'
            && jung_seq()[12] == 'ㅛ' && jung_seq()[13] == 'ㅜ' && jung_seq()[14] == 'ㅝ' && jung_seq()[15] == 'ㅞ'
            && jung_seq()[16] == 'ㅟ' && jung_seq()[17] == 'ㅠ' && jung_seq()[18] == 'ㅡ' && jung_seq()[19] == 'ㅢ'
            && jung_seq()[20] == 'ㅣ',
        jong_seq()[0] == 'ㄱ' && jong_seq()[1] == 'ㄲ' && jong_seq()[2] == 'ㄳ' && jong_seq()[3] == 'ㄴ'
            && jong_seq()[4] == 'ㄵ' && jong_seq()[5] == 'ㄶ' && jong_seq()[6] == 'ㄷ' && jong_seq()[7] == 'ㄹ'
            && jong_seq()[8] == 'ㄺ' && jong_seq()[9] == 'ㄻ' && jong_seq()[10] == 'ㄼ' && jong_seq()[11] == 'ㄽ'
            && jong_seq()[12] == 'ㄾ' && jong_seq()[13] == 'ㄿ' && jong_seq()[14] == 'ㅀ' && jong_seq()[15] == 'ㅁ'
            && jong_seq()[16] == 'ㅂ' && jong_seq()[17] == 'ㅄ' && jong_seq()[18] == 'ㅅ' && jong_seq()[19] == 'ㅆ'
            && jong_seq()[20] == 'ㅇ' && jong_seq()[21] == 'ㅈ' && jong_seq()[22] == 'ㅊ' && jong_seq()[23] == 'ㅋ'
            && jong_seq()[24] == 'ㅌ' && jong_seq()[25] == 'ㅍ' && jong_seq()[26] == 'ㅎ',
        cho_seq().len() == 19 && jung_seq().len() == 21 && jong_seq().len() == 27,
{
}

/// Combined jamo stay within their tables; splitting a final consonant gives
/// a final and an initial, and a final that does not split is also an
/// initial.
pub proof fn lemma_jamo_closure(a: char, b: char, c: char)
    ensures
        spec_combine_cho(a, b) matches Some(x) ==> cho_seq().contains(x),
        spec_combine_jung(a, b) matches Some(x) ==> jung_seq().contains(x),
        spec_combine_jong(a, b) matches Some(x) ==> jong_seq().contains(x),
        spec_split_jung(c) matches Some((x, y)) ==> jung_seq().contains(x) && jung_seq().contains(y),
        spec_split_jong(c) matches Some((x, y)) ==> jong_seq().contains(x) && jong_seq().contains(y) && cho_seq().contains(y),
        jong_seq().contains(c) && spec_split_jong(c) is None ==> cho_seq().contains(c),
        spec_split_cho(c) matches Some((x, y)) ==> cho_seq().contains(x) && x == y,
        spec_split_cho(c) matches Some((x, y)) ==> spec_split_cho(x) is None && spec_split_cho(y) is None,
        spec_split_jung(c) matches Some((x, y)) ==> spec_split_jung(x) is None && spec_split_jung(y) is None,
        spec_split_jong(c) matches Some((x, y)) ==> spec_split_jong(x) is None && spec_split_jong(y) is None,
{
    lemma_table_values();
    if jong_seq().contains(c) {
        let i = choose|i: int| 0 <= i < jong_seq().len() && jong_seq()[i] == c;
        assert(0 <= i < 27);
    }
}

} // verus!
