//! Conversion laws for the sebeolsik layouts: Hangul turned into the keys
//! of a sebeolsik layout and composed again gives back the Hangul.
//!
//! Sebeolsik keys say the position of their jamo (initial, vowel, final),
//! so a syllable's keys build it slot by slot: the initial (a doubled one
//! typed twice), the vowel (a compound one as its two parts where it has no
//! key), and the final (likewise).
use vstd::prelude::*;
use crate::compose::{
    cho_explicit_step, compose_keys, feed_keys, flush_spec, initial_state, jong_explicit_step, vowel_step,
    ComposerState,
};
use crate::decompose::{char_keys, decompose_text, jamo_keys, part_keys};
use crate::hangul::{
    cho_seq, jong_seq, jung_seq, lemma_combine_split_inverse, lemma_compose_decompose, lemma_jamo_closure,
    lemma_table_values, spec_decompose, spec_is_syllable, spec_split_cho, spec_split_jong, spec_split_jung,
};
use crate::layout::{
    entry_key_jamo, find_entry, find_key, is_jamo_key, sebeolsik_seq, spec_key_for_jamo, spec_key_jamo, KeyJamo, Layout, SEBEOLSIK_390,
    SEBEOLSIK_FINAL,
};
use crate::text::{spec_is_ascii_alpha, spec_is_ascii_lower, spec_is_ascii_upper, spec_lower};
use crate::roundtrip::{
    all_syllables, lemma_cho_cases, lemma_feed_append, lemma_feed_single, lemma_jong_cases, lemma_jung_cases,
    lemma_korean_roundtrip, lemma_syllable_state_flush, syllable_state,
};

verus! {

pub open spec fn is_sebeolsik(layout: Layout) -> bool {
    layout != Layout::Dubeolsik
}

/// The keys of a sebeolsik table are the printable ASCII characters, in
/// order.
proof fn lemma_table_keys(layout: Layout)
    requires
        is_sebeolsik(layout),
    ensures
        sebeolsik_seq(layout).len() == 94,
        forall|k: int| 0 <= k < 94 ==> (#[trigger] sebeolsik_seq(layout)[k]).0 as u32 == 0x21 + k,
{
    assert(forall|k: int| 0 <= k < 94 ==> (#[trigger] SEBEOLSIK_390@[k]).0 as u32 == 0x21 + k);
    assert(forall|k: int| 0 <= k < 94 ==> (#[trigger] SEBEOLSIK_FINAL@[k]).0 as u32 == 0x21 + k);
}

/// With one entry per key, looking a key up finds its entry.
proof fn lemma_find_entry_at(t: Seq<(char, u8, char)>, i: int, j: int)
    requires
        0 <= j <= i < t.len(),
        forall|k: int| 0 <= k < t.len() ==> (#[trigger] t[k]).0 as u32 == 0x21 + k,
    ensures
        find_entry(t, t[i].0, j) == Some((t[i].1, t[i].2)),
    decreases i - j,
{
    if j < i {
        assert(t[j].0 as u32 == 0x21 + j);
        assert(t[i].0 as u32 == 0x21 + i);
        lemma_find_entry_at(t, i, j + 1);
    }
}

/// A key found for a jamo comes from an entry of the table.
proof fn lemma_find_key_found(t: Seq<(char, u8, char)>, kind: u8, jamo: char, j: int)
    requires
        0 <= j,
    ensures
        find_key(t, kind, jamo, j) matches Some(k) ==> exists|i: int| 0 <= i < t.len() && #[trigger] t[i] == (k, kind, jamo),
    decreases t.len() - j,
{
    if j < t.len() {
        if t[j].1 == kind && t[j].2 == jamo {
            assert(t[j] == (t[j].0, kind, jamo));
        } else {
            lemma_find_key_found(t, kind, jamo, j + 1);
        }
    }
}

/// A jamo listed at entry `i` has a key.
proof fn lemma_find_key_at(t: Seq<(char, u8, char)>, kind: u8, jamo: char, i: int, j: int)
    requires
        0 <= j <= i < t.len(),
        t[i].1 == kind,
        t[i].2 == jamo,
    ensures
        find_key(t, kind, jamo, j) is Some,
    decreases i - j,
{
    if j < i && !(t[j].1 == kind && t[j].2 == jamo) {
        lemma_find_key_at(t, kind, jamo, i, j + 1);
    }
}

/// In a sebeolsik layout, the key given for a jamo at a position produces
/// that jamo at that position.
pub proof fn lemma_sebeolsik_key_roundtrip(layout: Layout, kind: u8, jamo: char)
    requires
        is_sebeolsik(layout),
    ensures
        spec_key_for_jamo(layout, kind, jamo) matches Some(k) ==> spec_key_jamo(layout, k) == Some(
            entry_key_jamo(kind, jamo),
        ),
{
    let t = sebeolsik_seq(layout);
    lemma_table_keys(layout);
    lemma_find_key_found(t, kind, jamo, 0);
    if let Some(k) = find_key(t, kind, jamo, 0) {
        let i = choose|i: int| 0 <= i < t.len() && #[trigger] t[i] == (k, kind, jamo);
        lemma_find_entry_at(t, i, 0);
    }
}

/// Every initial that is not doubled has a key.
proof fn lemma_cho_has_key(layout: Layout, c: char)
    requires
        is_sebeolsik(layout),
        cho_seq().contains(c),
        spec_split_cho(c) is None,
    ensures
        spec_key_for_jamo(layout, 0, c) is Some,
{
    lemma_cho_cases(c);
    lemma_table_keys(layout);
    let t = sebeolsik_seq(layout);
    let i: int = if c == 'ㄱ' { 74 } else if c == 'ㄴ' { 71 } else if c == 'ㄷ' { 84 } else if c == 'ㄹ' { 88 }
        else if c == 'ㅁ' { 72 } else if c == 'ㅂ' { 26 } else if c == 'ㅅ' { 77 } else if c == 'ㅇ' { 73 }
        else if c == 'ㅈ' { 75 } else if c == 'ㅊ' { 78 } else if c == 'ㅋ' { 15 } else if c == 'ㅌ' { 6 }
        else if c == 'ㅍ' { 79 } else { 76 };
    lemma_find_key_at(t, 0, c, i, 0);
}

/// Every vowel but the compound ones other than ㅢ has a key.
proof fn lemma_jung_has_key(layout: Layout, v: char)
    requires
        is_sebeolsik(layout),
        jung_seq().contains(v),
        spec_split_jung(v) is None || v == 'ㅢ',
    ensures
        spec_key_for_jamo(layout, 1, v) is Some,
{
    lemma_jung_cases(v);
    lemma_table_keys(layout);
    let t = sebeolsik_seq(layout);
    let i: int = if v == 'ㅏ' { 69 } else if v == 'ㅐ' { 81 } else if v == 'ㅑ' { 21 }
        else if v == 'ㅒ' { if layout == Layout::Sebeolsik390 { 49 } else { 38 } }
        else if v == 'ㅓ' { 83 } else if v == 'ㅔ' { 66 } else if v == 'ㅕ' { 68 } else if v == 'ㅖ' { 22 }
        else if v == 'ㅗ' { 14 } else if v == 'ㅛ' { 19 } else if v == 'ㅜ' { 24 } else if v == 'ㅠ' { 20 }
        else if v == 'ㅡ' { 70 } else if v == 'ㅢ' { 23 } else { 67 };
    lemma_find_key_at(t, 1, v, i, 0);
}

/// Every final that is not compound has a key.
proof fn lemma_jong_has_key(layout: Layout, f: char)
    requires
        is_sebeolsik(layout),
        jong_seq().contains(f),
        spec_split_jong(f) is None,
    ensures
        spec_key_for_jamo(layout, 2, f) is Some,
{
    lemma_jong_cases(f);
    lemma_table_keys(layout);
    let t = sebeolsik_seq(layout);
    let first = layout == Layout::Sebeolsik390;
    let i: int = if f == 'ㄱ' { 87 } else if f == 'ㄲ' { if first { 37 } else { 0 } } else if f == 'ㄴ' { 82 }
        else if f == 'ㄷ' { 32 } else if f == 'ㄹ' { 86 } else if f == 'ㅁ' { 89 } else if f == 'ㅂ' { 18 }
        else if f == 'ㅅ' { 80 } else if f == 'ㅆ' { 17 } else if f == 'ㅇ' { 64 }
        else if f == 'ㅈ' { if first { 0 } else { 2 } } else if f == 'ㅊ' { 57 }
        else if f == 'ㅋ' { if first { 36 } else { 34 } } else if f == 'ㅌ' { 54 } else if f == 'ㅍ' { 48 }
        else { 16 };
    lemma_find_key_at(t, 2, f, i, 0);
}

/// What the key of a jamo at a position does to the composer.
pub open spec fn position_step(st: ComposerState, kind: u8, j: char) -> ComposerState {
    if kind == 0 {
        cho_explicit_step(st, j)
    } else if kind == 1 {
        vowel_step(st, j)
    } else {
        jong_explicit_step(st, j)
    }
}

proof fn lemma_feed_keyed(st: ComposerState, kind: u8, j: char)
    requires
        is_sebeolsik(st.layout),
        kind <= 2,
        spec_key_for_jamo(st.layout, kind, j) is Some,
    ensures
        feed_keys(st, part_keys(st.layout, kind, j)) == position_step(st, kind, j),
{
    let k = spec_key_for_jamo(st.layout, kind, j)->0;
    lemma_sebeolsik_key_roundtrip(st.layout, kind, j);
    lemma_feed_single(st, k);
}

/// A composer holding only an initial, after the committed text `out`.
pub open spec fn with_initial(layout: Layout, out: Seq<char>, c: char) -> ComposerState {
    ComposerState { layout, cho: Some(c), jung: None, jong: None, jong_explicit: false, out }
}

/// The keys of an initial, fed to an empty composer or one holding a full
/// syllable, commit what it holds and start a syllable with the initial.
proof fn lemma_initial_keys(st: ComposerState, c: char)
    requires
        is_sebeolsik(st.layout),
        cho_seq().contains(c),
        st == initial_state(st.layout) || (st.cho is Some && st.jung is Some),
    ensures
        feed_keys(st, jamo_keys(st.layout, 0, c)) == with_initial(st.layout, flush_spec(st).out, c),
{
    let l = st.layout;
    let o = flush_spec(st).out;
    if st == initial_state(l) {
        assert(o =~= st.out);
    }
    lemma_jamo_closure(c, c, c);
    if spec_key_for_jamo(l, 0, c) is Some {
        lemma_feed_keyed(st, 0, c);
    } else {
        if spec_split_cho(c) is None {
            lemma_cho_has_key(l, c);
        }
        let (a, b) = spec_split_cho(c)->0;
        lemma_jamo_closure(a, a, a);
        if spec_split_cho(a) is None {
            lemma_cho_has_key(l, a);
        }
        let pa = part_keys(l, 0, a);
        lemma_feed_append(st, pa, pa);
        lemma_feed_keyed(st, 0, a);
        let st1 = feed_keys(st, pa);
        assert(st1 == with_initial(l, o, a));
        lemma_feed_keyed(st1, 0, a);
        lemma_combine_split_inverse(a, a, c);
    }
}

/// The keys of a vowel, fed after an initial, put the vowel in its slot.
proof fn lemma_vowel_keys(st: ComposerState, v: char)
    requires
        is_sebeolsik(st.layout),
        jung_seq().contains(v),
        st.cho is Some,
        st.jung is None,
        st.jong is None,
    ensures
        feed_keys(st, jamo_keys(st.layout, 1, v)) == (ComposerState { jung: Some(v), ..st }),
{
    let l = st.layout;
    lemma_jamo_closure(v, v, v);
    if spec_key_for_jamo(l, 1, v) is Some {
        lemma_feed_keyed(st, 1, v);
    } else {
        if spec_split_jung(v) is None || v == 'ㅢ' {
            lemma_jung_has_key(l, v);
        }
        let (a, b) = spec_split_jung(v)->0;
        lemma_jung_has_key(l, a);
        lemma_jung_has_key(l, b);
        let pa = part_keys(l, 1, a);
        let pb = part_keys(l, 1, b);
        lemma_feed_append(st, pa, pb);
        lemma_feed_keyed(st, 1, a);
        let st1 = feed_keys(st, pa);
        lemma_feed_keyed(st1, 1, b);
        lemma_combine_split_inverse(a, b, v);
    }
}

/// The keys of a final, fed after an initial and a vowel, put the final in
/// its slot.
proof fn lemma_final_keys(st: ComposerState, f: char)
    requires
        is_sebeolsik(st.layout),
        jong_seq().contains(f),
        st.cho is Some,
        st.jung is Some,
        st.jong is None,
    ensures
        feed_keys(st, jamo_keys(st.layout, 2, f)) == (ComposerState { jong: Some(f), jong_explicit: true, ..st }),
{
    let l = st.layout;
    lemma_jamo_closure(f, f, f);
    if spec_key_for_jamo(l, 2, f) is Some {
        lemma_feed_keyed(st, 2, f);
    } else {
        if spec_split_jong(f) is None {
            lemma_jong_has_key(l, f);
        }
        let (a, b) = spec_split_jong(f)->0;
        lemma_jong_has_key(l, a);
        lemma_jong_has_key(l, b);
        let pa = part_keys(l, 2, a);
        let pb = part_keys(l, 2, b);
        lemma_feed_append(st, pa, pb);
        lemma_feed_keyed(st, 2, a);
        let st1 = feed_keys(st, pa);
        lemma_feed_keyed(st1, 2, b);
        lemma_combine_split_inverse(a, b, f);
    }
}

/// The composer after the keys of a non-empty run of syllables: all but
/// the last committed, the last one in its slots.
pub open spec fn sb_syllable_state(layout: Layout, s: Seq<char>) -> ComposerState {
    let (cho, jung, jong) = spec_decompose(s.last())->0;
    ComposerState {
        layout,
        cho: Some(cho_seq()[cho]),
        jung: Some(jung_seq()[jung]),
        jong: if jong > 0 { Some(jong_seq()[jong - 1]) } else { None },
        jong_explicit: jong > 0,
        out: s.drop_last(),
    }
}

pub open spec fn sb_fed_state(layout: Layout, s: Seq<char>) -> ComposerState {
    if s.len() == 0 { initial_state(layout) } else { sb_syllable_state(layout, s) }
}

proof fn lemma_sb_flush(layout: Layout, s: Seq<char>)
    requires
        all_syllables(s),
    ensures
        flush_spec(sb_fed_state(layout, s)).out == s,
{
    if s.len() > 0 {
        lemma_syllable_state_flush(s);
        assert(flush_spec(sb_syllable_state(layout, s)).out == flush_spec(syllable_state(s)).out);
    } else {
        assert(flush_spec(initial_state(layout)).out =~= s);
    }
}

/// Feeding the keys of one more syllable keeps the composer in step.
proof fn lemma_feed_syllable(layout: Layout, s: Seq<char>, c: char)
    requires
        is_sebeolsik(layout),
        all_syllables(s.push(c)),
    ensures
        feed_keys(sb_fed_state(layout, s), char_keys(layout, c)) == sb_fed_state(layout, s.push(c)),
{
    let sc = s.push(c);
    assert(spec_is_syllable(sc[sc.len() - 1]));
    assert(all_syllables(s)) by {
        assert forall|i: int| 0 <= i < s.len() implies spec_is_syllable(#[trigger] s[i]) by {
            assert(sc[i] == s[i]);
        }
    }
    let (ci, vi, jc) = spec_decompose(c)->0;
    lemma_compose_decompose(ci, vi, jc, c);
    lemma_table_values();
    let cc = cho_seq()[ci];
    let vv = jung_seq()[vi];
    assert(cho_seq().contains(cc));
    assert(jung_seq().contains(vv));
    let st = sb_fed_state(layout, s);
    lemma_sb_flush(layout, s);
    let k0 = jamo_keys(layout, 0, cc);
    let k1 = jamo_keys(layout, 1, vv);
    let k2 = if jc > 0 { jamo_keys(layout, 2, jong_seq()[jc - 1]) } else { Seq::empty() };
    assert(char_keys(layout, c) == k0 + k1 + k2);
    lemma_feed_append(st, k0 + k1, k2);
    lemma_feed_append(st, k0, k1);
    lemma_initial_keys(st, cc);
    let st1 = with_initial(layout, s, cc);
    lemma_vowel_keys(st1, vv);
    let st2 = ComposerState { jung: Some(vv), ..st1 };
    assert(sc.drop_last() =~= s);
    if jc > 0 {
        let ff = jong_seq()[jc - 1];
        assert(jong_seq().contains(ff));
        lemma_final_keys(st2, ff);
    } else {
        assert(feed_keys(st2, k2) == st2);
    }
}

proof fn lemma_feed_syllables(layout: Layout, s: Seq<char>)
    requires
        is_sebeolsik(layout),
        all_syllables(s),
    ensures
        feed_keys(initial_state(layout), decompose_text(layout, s)) == sb_fed_state(layout, s),
    decreases s.len(),
{
    if s.len() > 0 {
        let p = s.drop_last();
        assert(all_syllables(p)) by {
            assert forall|i: int| 0 <= i < p.len() implies spec_is_syllable(#[trigger] p[i]) by {
                assert(s[i] == p[i]);
            }
        }
        lemma_feed_syllables(layout, p);
        lemma_feed_append(initial_state(layout), decompose_text(layout, p), char_keys(layout, s.last()));
        assert(p.push(s.last()) =~= s);
        lemma_feed_syllable(layout, p, s.last());
    } else {
        assert(decompose_text(layout, s) =~= Seq::<char>::empty());
        assert(feed_keys(initial_state(layout), Seq::<char>::empty()) == initial_state(layout));
    }
}

/// Korean round trip in the sebeolsik layouts: text made of precomposed
/// syllables, turned into the keys of the layout and composed again, is
/// the same text.
pub proof fn lemma_sebeolsik_roundtrip(layout: Layout, s: Seq<char>)
    requires
        is_sebeolsik(layout),
        all_syllables(s),
    ensures
        compose_keys(layout, decompose_text(layout, s)) == s,
{
    lemma_feed_syllables(layout, s);
    lemma_sb_flush(layout, s);
}

/// Korean round trip in every layout.
pub proof fn lemma_roundtrip_any_layout(layout: Layout, s: Seq<char>)
    requires
        all_syllables(s),
    ensures
        compose_keys(layout, decompose_text(layout, s)) == s,
{
    if layout == Layout::Dubeolsik {
        lemma_korean_roundtrip(s);
    } else {
        lemma_sebeolsik_roundtrip(layout, s);
    }
}


/// Which keys make part of a word: in dubeolsik exactly the ASCII letters;
/// in sebeolsik a digit can be a jamo key too (in 390, `2` is the final ㅆ).
pub proof fn lemma_word_keys(k: char)
    ensures
        is_jamo_key(spec_key_jamo(Layout::Dubeolsik, k)) == spec_is_ascii_alpha(k),
        spec_key_jamo(Layout::Sebeolsik390, '2') == Some(KeyJamo::Jong('ㅆ')),
        is_jamo_key(spec_key_jamo(Layout::Sebeolsik390, '2')),
{
    let t = sebeolsik_seq(Layout::Sebeolsik390);
    lemma_table_keys(Layout::Sebeolsik390);
    assert(t[17] == ('2', 2u8, 'ㅆ'));
    lemma_find_entry_at(t, 17, 0);
    if spec_is_ascii_upper(k) {
        assert(spec_is_ascii_lower(spec_lower(k)));
    }
}

} // verus!
