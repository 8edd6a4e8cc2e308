//! Hangul back to the English key sequence.
//!
//! Restores text typed in Hangul mode by mistake (e.g. `"ㅗ디ㅣㅐ"`) to the
//! English that was meant (`"hello"`). Precomposed syllables are split into
//! initial, vowel and final; compound jamo into two key strokes.
use vstd::prelude::*;
use crate::hangul::{
    cho_seq, decompose_syllable, is_compat_jamo, is_vowel_jamo, jong_seq, jung_seq,
    lemma_jamo_closure, spec_decompose, spec_is_compat_jamo, spec_split_cho, spec_split_jong,
    spec_split_jung, split_cho, split_jong, split_jung, CHOSEONG, JONGSEONG, JUNGSEONG,
};
use crate::layout::{key_for_jamo, spec_key_for_jamo, Layout};
use crate::text::{chars_of, push_char};

verus! {

/// Splitting a jamo by the rule of its position (0 initial: double
/// consonant, 1 vowel: compound vowel, 2 final: compound final).
pub open spec fn split_at_kind(kind: u8, jamo: char) -> Option<(char, char)> {
    if kind == 0 {
        spec_split_cho(jamo)
    } else if kind == 1 {
        spec_split_jung(jamo)
    } else {
        spec_split_jong(jamo)
    }
}

/// The key of a single jamo, or the jamo itself when the layout has none.
pub open spec fn part_keys(layout: Layout, kind: u8, jamo: char) -> Seq<char> {
    match spec_key_for_jamo(layout, kind, jamo) {
        Some(k) => seq![k],
        None => seq![jamo],
    }
}

/// Keys of a jamo at a known position: its own key if it has one, else the
/// keys of its two parts, else the jamo unchanged (no mapping exists).
pub open spec fn jamo_keys(layout: Layout, kind: u8, jamo: char) -> Seq<char> {
    match spec_key_for_jamo(layout, kind, jamo) {
        Some(k) => seq![k],
        None => match split_at_kind(kind, jamo) {
            Some((a, b)) => part_keys(layout, kind, a) + part_keys(layout, kind, b),
            None => seq![jamo],
        },
    }
}

/// The position a lone jamo is read at: vowels as vowels; a consonant as an
/// initial if possible, else as a final.
pub open spec fn standalone_kind(layout: Layout, jamo: char) -> u8 {
    if jung_seq().contains(jamo) || spec_split_jung(jamo) is Some {
        1
    } else if spec_key_for_jamo(layout, 0, jamo) is Some || spec_split_cho(jamo) is Some {
        0
    } else {
        2
    }
}

/// The keys one character of text stands for.
pub open spec fn char_keys(layout: Layout, c: char) -> Seq<char> {
    match spec_decompose(c) {
        Some((cho, jung, jong)) => jamo_keys(layout, 0, cho_seq()[cho]) + jamo_keys(layout, 1, jung_seq()[jung])
            + if jong > 0 { jamo_keys(layout, 2, jong_seq()[jong - 1]) } else { Seq::empty() },
        None => if spec_is_compat_jamo(c) {
            jamo_keys(layout, standalone_kind(layout, c), c)
        } else {
            seq![c]
        },
    }
}

/// What `hangul_to_english_with` returns: the keys of each character, in order.
pub open spec fn decompose_text(layout: Layout, text: Seq<char>) -> Seq<char>
    decreases text.len(),
{
    if text.len() == 0 {
        Seq::empty()
    } else {
        decompose_text(layout, text.drop_last()) + char_keys(layout, text.last())
    }
}

pub open spec fn split_depth(kind: u8, jamo: char) -> int {
    if split_at_kind(kind, jamo) is Some { 1 } else { 0 }
}

/// Pushes the keys of a jamo whose position (`kind`) is known. Compound
/// jamo without a key of their own are split by the rule of their position.
fn push_jamo_keys(out: &mut String, layout: Layout, kind: u8, jamo: char)
    ensures
        final(out)@ == old(out)@ + jamo_keys(layout, kind, jamo),
    decreases split_depth(kind, jamo),
{
    proof { lemma_jamo_closure(jamo, jamo, jamo); }
    if let Some(key) = key_for_jamo(layout, kind, jamo) {
        push_char(out, key);
        return;
    }
    let split = if kind == 0 {
        split_cho(jamo)
    } else if kind == 1 {
        split_jung(jamo)
    } else {
        split_jong(jamo)
    };
    if let Some((a, b)) = split {
        proof {
            lemma_jamo_closure(a, a, a);
            lemma_jamo_closure(b, b, b);
        }
        let ghost before = out@;
        push_jamo_keys(out, layout, kind, a);
        push_jamo_keys(out, layout, kind, b);
        assert(out@ =~= before + jamo_keys(layout, kind, jamo));
    } else {
        // A jamo outside the mapping (archaic Hangul and the like) is kept.
        push_char(out, jamo);
    }
}

/// A lone jamo: its position is unknown, so a consonant is read as an
/// initial if the layout has one, else as a final (ambiguous only in
/// sebeolsik).
fn push_standalone_jamo(out: &mut String, layout: Layout, jamo: char)
    ensures
        final(out)@ == old(out)@ + jamo_keys(layout, standalone_kind(layout, jamo), jamo),
{
    let kind: u8 = if is_vowel_jamo(jamo) || split_jung(jamo).is_some() {
        1
    } else if key_for_jamo(layout, 0, jamo).is_some() || split_cho(jamo).is_some() {
        0
    } else {
        2
    };
    push_jamo_keys(out, layout, kind, jamo);
}

/// Converts text typed in Hangul mode by mistake into English keys
/// (dubeolsik). For example `"ㅗ디ㅣㅐ"` gives `"hello"` and `"한글"` gives
/// `"gksrmf"`.
pub fn hangul_to_english(input: &str) -> (s: String)
    ensures
        s@ == decompose_text(Layout::Dubeolsik, input@),
{
    hangul_to_english_with(Layout::Dubeolsik, input)
}

/// Reverse conversion in a given layout.
pub fn hangul_to_english_with(layout: Layout, input: &str) -> (s: String)
    ensures
        s@ == decompose_text(layout, input@),
{
    let text = chars_of(input);
    let mut out = String::new();
    let mut i: usize = 0;
    while i < text.len()
        invariant
            i <= text.len(),
            text@ == input@,
            out@ == decompose_text(layout, text@.take(i as int)),
        decreases text.len() - i,
    {
        let c = text[i];
        proof {
            assert(text@.take(i + 1).drop_last() =~= text@.take(i as int));
        }
        let ghost before = out@;
        if let Some((cho, jung, jong_code)) = decompose_syllable(c) {
            push_jamo_keys(&mut out, layout, 0, CHOSEONG[cho]);
            push_jamo_keys(&mut out, layout, 1, JUNGSEONG[jung]);
            if jong_code > 0 {
                push_jamo_keys(&mut out, layout, 2, JONGSEONG[jong_code - 1]);
            }
        } else if is_compat_jamo(c) {
            push_standalone_jamo(&mut out, layout, c);
        } else {
            push_char(&mut out, c);
        }
        assert(CHOSEONG@ == cho_seq() && JUNGSEONG@ == jung_seq() && JONGSEONG@ == jong_seq());
        assert(out@ =~= before + char_keys(layout, c));
        i = i + 1;
    }
    proof {
        assert(text@.take(text.len() as int) =~= text@);
    }
    out
}

} // verus!
