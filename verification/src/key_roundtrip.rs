//! Conversion law in the other direction: keys composed into dubeolsik
//! Hangul and split into keys again give back the keys (letters lower case,
//! but for the Shift jamo keys).
use vstd::prelude::*;
use crate::compose::{
    composer_inv, compose_keys, consonant_step, feed_keys, flush_spec, initial_state, key_step,
    lemma_key_step_bound, passthrough_step, pending_text, syllable_of, vowel_step, ComposerState,
};
use crate::decompose::{char_keys, decompose_text, jamo_keys, standalone_kind};
use crate::hangul::{
    cho_pos, cho_seq, jong_seq, jung_pos, jung_seq, lemma_combine_split_inverse,
    lemma_compose_decompose, lemma_jamo_closure, lemma_pos_index, lemma_table_values,
    spec_combine_jong, spec_combine_jung, spec_decompose, spec_is_compat_jamo, spec_is_syllable,
    spec_split_jong, spec_split_jung, syllable_code,
};
use crate::compose::jong_code;
use crate::layout::{
    lemma_dubeolsik_key_roundtrip, lemma_dubeolsik_key_simple, spec_jamo_to_key, spec_key_to_jamo, Layout,
};
use crate::roundtrip::{lemma_cho_cases, lemma_jong_cases, lemma_jung_cases};

verus! {

/// The key a key stands for once composed and split again: letters lower
/// case except the Shift jamo keys (Q W E R T O P); other keys themselves.
pub open spec fn norm_key(k: char) -> char {
    match spec_key_to_jamo(k) {
        Some(j) => match spec_jamo_to_key(j) {
            Some(x) => x,
            None => k,
        },
        None => k,
    }
}

/// A physical key: a dubeolsik letter key, or a character that is no
/// Hangul (Hangul text is not something a key types).
pub open spec fn is_key_char(k: char) -> bool {
    spec_key_to_jamo(k) is Some || (!spec_is_syllable(k) && !spec_is_compat_jamo(k))
}

/// The dubeolsik composer states: no final from a position-explicit key.
pub open spec fn dinv(s: ComposerState) -> bool {
    s.layout == Layout::Dubeolsik && composer_inv(s) && !s.jong_explicit
}

/// The keys of the syllable in composition, slot by slot.
pub open spec fn slot_keys(s: ComposerState) -> Seq<char> {
    (match s.cho {
        Some(c) => jamo_keys(Layout::Dubeolsik, 0, c),
        None => Seq::empty(),
    }) + (match s.jung {
        Some(v) => jamo_keys(Layout::Dubeolsik, 1, v),
        None => Seq::empty(),
    }) + (match s.jong {
        Some(t) => jamo_keys(Layout::Dubeolsik, 2, t),
        None => Seq::empty(),
    })
}

pub proof fn lemma_decompose_append(a: Seq<char>, b: Seq<char>)
    ensures
        decompose_text(Layout::Dubeolsik, a + b) == decompose_text(Layout::Dubeolsik, a) + decompose_text(
            Layout::Dubeolsik,
            b,
        ),
    decreases b.len(),
{
    if b.len() == 0 {
        assert(a + b =~= a);
        assert(decompose_text(Layout::Dubeolsik, a) + decompose_text(Layout::Dubeolsik, b) =~= decompose_text(
            Layout::Dubeolsik,
            a,
        ));
    } else {
        lemma_decompose_append(a, b.drop_last());
        assert((a + b).drop_last() =~= a + b.drop_last());
        assert((a + b).last() == b.last());
        assert(decompose_text(Layout::Dubeolsik, a) + decompose_text(Layout::Dubeolsik, b) =~= decompose_text(
            Layout::Dubeolsik,
            a,
        ) + decompose_text(Layout::Dubeolsik, b.drop_last()) + char_keys(Layout::Dubeolsik, b.last()));
    }
}

proof fn lemma_decompose_single(c: char)
    ensures
        decompose_text(Layout::Dubeolsik, seq![c]) == char_keys(Layout::Dubeolsik, c),
{
    assert(seq![c].drop_last() =~= Seq::<char>::empty());
    assert(decompose_text(Layout::Dubeolsik, Seq::<char>::empty()) == Seq::<char>::empty());
    assert(Seq::<char>::empty() + char_keys(Layout::Dubeolsik, c) =~= char_keys(Layout::Dubeolsik, c));
}

/// An initial consonant: a lone jamo with a key of its own.
proof fn lemma_cho_keys(c: char)
    requires
        cho_seq().contains(c),
    ensures
        spec_is_compat_jamo(c),
        !spec_is_syllable(c),
        spec_jamo_to_key(c) is Some,
        spec_key_to_jamo(spec_jamo_to_key(c)->0) == Some(c),
        jamo_keys(Layout::Dubeolsik, 0, c) == seq![spec_jamo_to_key(c)->0],
        jamo_keys(Layout::Dubeolsik, 2, c) == seq![spec_jamo_to_key(c)->0],
        char_keys(Layout::Dubeolsik, c) == seq![spec_jamo_to_key(c)->0],
        !jung_seq().contains(c),
{
    lemma_cho_cases(c);
    lemma_table_values();
    lemma_dubeolsik_key_roundtrip(c, c);
    if jung_seq().contains(c) {
        lemma_jung_cases(c);
    }
    assert(spec_decompose(c) is None);
    assert(standalone_kind(Layout::Dubeolsik, c) == 0);
}

/// A vowel: a lone jamo; a compound vowel takes the keys of its parts.
proof fn lemma_jung_keys(v: char)
    requires
        jung_seq().contains(v),
    ensures
        spec_is_compat_jamo(v),
        !spec_is_syllable(v),
        char_keys(Layout::Dubeolsik, v) == jamo_keys(Layout::Dubeolsik, 1, v),
        spec_split_jung(v) is None ==> spec_jamo_to_key(v) is Some && jamo_keys(Layout::Dubeolsik, 1, v) == seq![
            spec_jamo_to_key(v)->0,
        ],
        spec_split_jung(v) matches Some((a, b)) ==> spec_jamo_to_key(a) is Some && spec_jamo_to_key(b) is Some
            && jamo_keys(Layout::Dubeolsik, 1, v) == seq![spec_jamo_to_key(a)->0, spec_jamo_to_key(b)->0],
{
    lemma_jung_cases(v);
    lemma_table_values();
    assert(spec_decompose(v) is None);
    assert(standalone_kind(Layout::Dubeolsik, v) == 1);
    if let Some((a, b)) = spec_split_jung(v) {
        assert(seq![spec_jamo_to_key(a)->0] + seq![spec_jamo_to_key(b)->0] =~= seq![
            spec_jamo_to_key(a)->0,
            spec_jamo_to_key(b)->0,
        ]);
    }
}

/// A final consonant; a compound final takes the keys of its parts.
proof fn lemma_jong_keys(t: char)
    requires
        jong_seq().contains(t),
    ensures
        spec_split_jong(t) is None ==> spec_jamo_to_key(t) is Some && jamo_keys(Layout::Dubeolsik, 2, t) == seq![
            spec_jamo_to_key(t)->0,
        ],
        spec_split_jong(t) matches Some((a, b)) ==> spec_jamo_to_key(a) is Some && spec_jamo_to_key(b) is Some
            && jamo_keys(Layout::Dubeolsik, 2, t) == seq![spec_jamo_to_key(a)->0, spec_jamo_to_key(b)->0],
{
    lemma_jong_cases(t);
    lemma_table_values();
    if let Some((a, b)) = spec_split_jong(t) {
        assert(seq![spec_jamo_to_key(a)->0] + seq![spec_jamo_to_key(b)->0] =~= seq![
            spec_jamo_to_key(a)->0,
            spec_jamo_to_key(b)->0,
        ]);
    }
}

/// The keys of a syllable are those of its initial, vowel and final.
proof fn lemma_syllable_keys(c: char, v: char, j: Option<char>)
    requires
        cho_seq().contains(c),
        jung_seq().contains(v),
        j matches Some(t) ==> jong_seq().contains(t),
    ensures
        char_keys(Layout::Dubeolsik, syllable_of(c, v, j)) == jamo_keys(Layout::Dubeolsik, 0, c) + jamo_keys(
            Layout::Dubeolsik,
            1,
            v,
        ) + match j {
            Some(t) => jamo_keys(Layout::Dubeolsik, 2, t),
            None => Seq::empty(),
        },
{
    lemma_pos_index();
    let ci = cho_pos(c);
    let vi = jung_pos(v);
    let jc = jong_code(j);
    let ch = syllable_of(c, v, j);
    assert(0 <= jc < 28);
    crate::hangul::lemma_syllable_code_range(ci, vi, jc);
    vstd::utf8::char_u32_cast(ch, syllable_code(ci, vi, jc) as u32);
    lemma_compose_decompose(ci, vi, jc, ch);
    if let Some(t) = j {
        assert(jong_seq()[jc - 1] == t);
    } else {
        assert(jc == 0);
    }
}

/// The keys of the syllable in composition, once committed.
proof fn lemma_pending_keys(s: ComposerState)
    requires
        dinv(s),
    ensures
        decompose_text(Layout::Dubeolsik, pending_text(s)) == slot_keys(s),
{
    let d = Layout::Dubeolsik;
    match (s.cho, s.jung) {
        (Some(c), Some(v)) => {
            lemma_syllable_keys(c, v, s.jong);
            lemma_decompose_single(syllable_of(c, v, s.jong));
        },
        _ => {
            assert(s.jong is None);
            let a: Seq<char> = match s.cho { Some(c) => seq![c], None => Seq::empty() };
            let b: Seq<char> = match s.jung { Some(v) => seq![v], None => Seq::empty() };
            assert(pending_text(s) =~= a + b);
            lemma_decompose_append(a, b);
            match s.cho {
                Some(c) => {
                    lemma_cho_keys(c);
                    lemma_decompose_single(c);
                },
                None => {
                    assert(decompose_text(d, a) == Seq::<char>::empty());
                },
            }
            match s.jung {
                Some(v) => {
                    lemma_jung_keys(v);
                    lemma_decompose_single(v);
                },
                None => {
                    assert(decompose_text(d, b) == Seq::<char>::empty());
                },
            }
            assert(slot_keys(s) =~= decompose_text(d, a) + decompose_text(d, b));
        },
    }
}

/// The keys of everything a state stands for once committed.
pub open spec fn state_keys(s: ComposerState) -> Seq<char> {
    decompose_text(Layout::Dubeolsik, flush_spec(s).out)
}

proof fn lemma_state_keys(s: ComposerState)
    requires
        dinv(s),
    ensures
        state_keys(s) == decompose_text(Layout::Dubeolsik, s.out) + slot_keys(s),
{
    lemma_pending_keys(s);
    lemma_decompose_append(s.out, pending_text(s));
}

/// A vowel key adds its key to what the state stands for.
proof fn lemma_vowel_step_keys(s: ComposerState, v: char)
    requires
        dinv(s),
        jung_seq().contains(v),
        spec_split_jung(v) is None,
    ensures
        dinv(vowel_step(s, v)),
        state_keys(vowel_step(s, v)) == state_keys(s).push(spec_jamo_to_key(v)->0),
{
    let d = Layout::Dubeolsik;
    let s2 = vowel_step(s, v);
    lemma_jung_keys(v);
    let kv = spec_jamo_to_key(v)->0;
    lemma_state_keys(s);
    if let Some(jong) = s.jong {
        // The final moves to the next syllable (its second part if compound).
        lemma_jamo_closure(jong, jong, jong);
        lemma_jong_keys(jong);
        let (stay, mover) = match spec_split_jong(jong) {
            Some((first, second)) => (Some(first), second),
            None => (None, jong),
        };
        let s1 = ComposerState { jong: stay, ..s };
        if let Some(a) = stay {
            lemma_jamo_closure(a, a, a);
            lemma_jong_keys(a);
        }
        lemma_cho_keys(mover);
        assert(dinv(s1));
        lemma_pending_keys(s1);
        lemma_decompose_append(s.out, pending_text(s1));
        assert(s2.out == s.out + pending_text(s1));
        assert(dinv(s2));
        lemma_state_keys(s2);
        assert(slot_keys(s2) =~= seq![spec_jamo_to_key(mover)->0, kv]);
        assert(slot_keys(s) =~= slot_keys(s1).push(spec_jamo_to_key(mover)->0));
        assert(state_keys(s2) =~= state_keys(s).push(kv));
    } else if let Some(cur) = s.jung {
        match spec_combine_jung(cur, v) {
            Some(compound) => {
                lemma_combine_split_inverse(cur, v, compound);
                lemma_jamo_closure(cur, v, compound);
                lemma_jung_keys(cur);
                lemma_jung_keys(compound);
                assert(spec_split_jung(cur) is None) by {
                    lemma_jamo_closure(compound, compound, compound);
                }
                assert(dinv(s2));
                lemma_state_keys(s2);
                assert(jamo_keys(d, 1, compound) =~= jamo_keys(d, 1, cur).push(kv));
                assert(slot_keys(s2) =~= slot_keys(s).push(kv));
                assert(state_keys(s2) =~= state_keys(s).push(kv));
            },
            None => {
                assert(s2.out == s.out + pending_text(s));
                lemma_pending_keys(s);
                lemma_decompose_append(s.out, pending_text(s));
                assert(dinv(s2));
                lemma_state_keys(s2);
                assert(slot_keys(s2) =~= seq![kv]);
                assert(state_keys(s2) =~= state_keys(s).push(kv));
            },
        }
    } else {
        assert(dinv(s2));
        lemma_state_keys(s2);
        assert(slot_keys(s2) =~= slot_keys(s).push(kv));
        assert(state_keys(s2) =~= state_keys(s).push(kv));
    }
}

/// A consonant key adds its key to what the state stands for.
proof fn lemma_consonant_step_keys(s: ComposerState, c: char)
    requires
        dinv(s),
        cho_seq().contains(c),
        spec_split_jong(c) is None,
    ensures
        dinv(consonant_step(s, c)),
        state_keys(consonant_step(s, c)) == state_keys(s).push(spec_jamo_to_key(c)->0),
{
    let d = Layout::Dubeolsik;
    let s2 = consonant_step(s, c);
    lemma_cho_keys(c);
    let kc = spec_jamo_to_key(c)->0;
    lemma_state_keys(s);
    lemma_pending_keys(s);
    lemma_decompose_append(s.out, pending_text(s));
    let flushed = s.jung is None || s.cho is None || (s.jong matches Some(cur) && spec_combine_jong(cur, c) is None)
        || (s.jong is None && !jong_seq().contains(c));
    if flushed {
        assert(s2.out == s.out + pending_text(s));
        assert(dinv(s2));
        lemma_state_keys(s2);
        assert(slot_keys(s2) =~= seq![kc]);
        assert(state_keys(s2) =~= state_keys(s).push(kc));
    } else if let Some(cur) = s.jong {
        let compound = spec_combine_jong(cur, c)->0;
        lemma_combine_split_inverse(cur, c, compound);
        lemma_jamo_closure(cur, c, compound);
        lemma_jong_keys(cur);
        lemma_jong_keys(compound);
        assert(spec_split_jong(cur) is None) by {
            lemma_jamo_closure(compound, compound, compound);
        }
        assert(dinv(s2));
        lemma_state_keys(s2);
        assert(jamo_keys(d, 2, compound) =~= jamo_keys(d, 2, cur).push(kc));
        assert(slot_keys(s2) =~= slot_keys(s).push(kc));
        assert(state_keys(s2) =~= state_keys(s).push(kc));
    } else {
        lemma_jong_keys(c);
        assert(dinv(s2));
        lemma_state_keys(s2);
        assert(slot_keys(s2) =~= slot_keys(s).push(kc));
        assert(state_keys(s2) =~= state_keys(s).push(kc));
    }
}

/// Any key adds its normalized key to what the state stands for.
proof fn lemma_key_step_keys(s: ComposerState, k: char)
    requires
        dinv(s),
        is_key_char(k),
    ensures
        dinv(key_step(s, k)),
        state_keys(key_step(s, k)) == state_keys(s).push(norm_key(k)),
{
    lemma_key_step_bound(s, k);
    lemma_dubeolsik_key_simple(k);
    lemma_dubeolsik_key_roundtrip(k, k);
    match spec_key_to_jamo(k) {
        Some(j) => {
            crate::layout::lemma_key_jamo_valid(Layout::Dubeolsik, k);
            if jung_seq().contains(j) {
                lemma_vowel_step_keys(s, j);
            } else {
                lemma_consonant_step_keys(s, j);
            }
        },
        None => {
            let s2 = key_step(s, k);
            assert(s2 == passthrough_step(s, k));
            lemma_pending_keys(s);
            lemma_decompose_append(s.out, pending_text(s));
            lemma_decompose_append(s.out + pending_text(s), seq![k]);
            lemma_decompose_single(k);
            assert(char_keys(Layout::Dubeolsik, k) == seq![k]);
            assert(s2.out =~= s.out + pending_text(s) + seq![k]);
            assert(flush_spec(s2).out =~= s2.out);
            lemma_state_keys(s);
            assert(state_keys(s2) =~= state_keys(s).push(k));
        },
    }
}

proof fn lemma_feed_keys_roundtrip(keys: Seq<char>)
    requires
        forall|i: int| 0 <= i < keys.len() ==> is_key_char(#[trigger] keys[i]),
    ensures
        dinv(feed_keys(initial_state(Layout::Dubeolsik), keys)),
        state_keys(feed_keys(initial_state(Layout::Dubeolsik), keys)) == keys.map_values(|k: char| norm_key(k)),
    decreases keys.len(),
{
    let st0 = initial_state(Layout::Dubeolsik);
    if keys.len() == 0 {
        assert(flush_spec(st0).out =~= Seq::<char>::empty());
        assert(decompose_text(Layout::Dubeolsik, Seq::<char>::empty()) == Seq::<char>::empty());
        assert(keys.map_values(|k: char| norm_key(k)) =~= Seq::<char>::empty());
    } else {
        let init = keys.drop_last();
        assert forall|i: int| 0 <= i < init.len() implies is_key_char(#[trigger] init[i]) by {
            assert(init[i] == keys[i]);
        }
        lemma_feed_keys_roundtrip(init);
        assert(is_key_char(keys[keys.len() - 1]));
        lemma_key_step_keys(feed_keys(st0, init), keys.last());
        assert(keys.map_values(|k: char| norm_key(k)) =~= init.map_values(|k: char| norm_key(k)).push(norm_key(keys.last())));
    }
}

/// English round trip: keys (a physical key sequence, no Hangul text)
/// composed into dubeolsik Hangul and split into keys again give the keys
/// back, letters in lower case except the Shift jamo keys.
pub proof fn lemma_keys_roundtrip(keys: Seq<char>)
    requires
        forall|i: int| 0 <= i < keys.len() ==> is_key_char(#[trigger] keys[i]),
    ensures
        decompose_text(Layout::Dubeolsik, compose_keys(Layout::Dubeolsik, keys)) == keys.map_values(
            |k: char| norm_key(k),
        ),
{
    lemma_feed_keys_roundtrip(keys);
}

/// A word of lower-case letters comes back as itself.
pub proof fn lemma_english_word_roundtrip(w: Seq<char>)
    requires
        forall|i: int| 0 <= i < w.len() ==> 'a' <= #[trigger] w[i] <= 'z',
    ensures
        decompose_text(Layout::Dubeolsik, compose_keys(Layout::Dubeolsik, w)) == w,
{
    assert forall|i: int| 0 <= i < w.len() implies is_key_char(#[trigger] w[i]) && norm_key(w[i]) == w[i] by {
        let k = w[i];
        lemma_dubeolsik_key_roundtrip(k, k);
        assert(spec_key_to_jamo(k) is Some);
    }
    lemma_keys_roundtrip(w);
    assert(w.map_values(|k: char| norm_key(k)) =~= w);
}

/// Hangul text: precomposed syllables and compatibility jamo.
pub open spec fn is_hangul_char(c: char) -> bool {
    spec_is_syllable(c) || spec_is_compat_jamo(c)
}

proof fn lemma_jong_compat(t: char)
    requires
        jong_seq().contains(t),
    ensures
        spec_is_compat_jamo(t),
{
    lemma_jong_cases(t);
}

/// What a syllable in composition stands for is Hangul.
proof fn lemma_pending_hangul(x: ComposerState)
    requires
        composer_inv(x),
    ensures
        forall|i: int| 0 <= i < pending_text(x).len() ==> is_hangul_char(#[trigger] pending_text(x)[i]),
{
    match (x.cho, x.jung) {
        (Some(c), Some(v)) => {
            lemma_pos_index();
            let jc = jong_code(x.jong);
            crate::hangul::lemma_syllable_code_range(cho_pos(c), jung_pos(v), jc);
            let ch = syllable_of(c, v, x.jong);
            vstd::utf8::char_u32_cast(ch, syllable_code(cho_pos(c), jung_pos(v), jc) as u32);
            assert(spec_is_syllable(ch));
        },
        _ => {
            if let Some(c) = x.cho {
                lemma_cho_keys(c);
            }
            if let Some(v) = x.jung {
                lemma_jung_keys(v);
            }
            if let Some(t) = x.jong {
                lemma_jong_compat(t);
            }
        },
    }
}

/// What a key step appends to the committed text is Hangul, or the key
/// itself when it has no jamo.
proof fn lemma_step_output(s: ComposerState, k: char)
    requires
        dinv(s),
    ensures
        key_step(s, k).out.len() >= s.out.len(),
        forall|i: int| 0 <= i < s.out.len() ==> key_step(s, k).out[i] == s.out[i],
        forall|i: int|
            s.out.len() <= i < key_step(s, k).out.len() ==> is_hangul_char(#[trigger] key_step(s, k).out[i]) || (
            key_step(s, k).out[i] == k && spec_key_to_jamo(k) is None),
{
    let s2 = key_step(s, k);
    lemma_pending_hangul(s);
    crate::layout::lemma_key_jamo_valid(Layout::Dubeolsik, k);
    match spec_key_to_jamo(k) {
        Some(j) => {
            if jung_seq().contains(j) {
                if let Some(jong) = s.jong {
                    lemma_jamo_closure(jong, jong, jong);
                    let stay = match spec_split_jong(jong) {
                        Some((first, _)) => Some(first),
                        None => None,
                    };
                    let s1 = ComposerState { jong: stay, ..s };
                    assert(composer_inv(s1));
                    lemma_pending_hangul(s1);
                    assert(s2.out == s.out + pending_text(s1));
                }
            }
        },
        None => {
            assert(s2.out =~= s.out + pending_text(s) + seq![k]);
        },
    }
}

/// The composed text is Hangul, but for the keys that have no jamo, which
/// pass through unchanged.
pub proof fn lemma_compose_output(keys: Seq<char>)
    ensures
        forall|i: int|
            0 <= i < compose_keys(Layout::Dubeolsik, keys).len() ==> is_hangul_char(
                #[trigger] compose_keys(Layout::Dubeolsik, keys)[i],
            ) || (keys.contains(compose_keys(Layout::Dubeolsik, keys)[i]) && spec_key_to_jamo(
                compose_keys(Layout::Dubeolsik, keys)[i],
            ) is None),
{
    lemma_feed_output(keys);
    let st = feed_keys(initial_state(Layout::Dubeolsik), keys);
    lemma_pending_hangul(st);
}

proof fn lemma_feed_output(keys: Seq<char>)
    ensures
        dinv(feed_keys(initial_state(Layout::Dubeolsik), keys)),
        forall|i: int|
            0 <= i < feed_keys(initial_state(Layout::Dubeolsik), keys).out.len() ==> is_hangul_char(
                #[trigger] feed_keys(initial_state(Layout::Dubeolsik), keys).out[i],
            ) || (keys.contains(feed_keys(initial_state(Layout::Dubeolsik), keys).out[i]) && spec_key_to_jamo(
                feed_keys(initial_state(Layout::Dubeolsik), keys).out[i],
            ) is None),
    decreases keys.len(),
{
    let st0 = initial_state(Layout::Dubeolsik);
    if keys.len() > 0 {
        let init = keys.drop_last();
        lemma_feed_output(init);
        let s = feed_keys(st0, init);
        let k = keys.last();
        lemma_step_output(s, k);
        lemma_key_step_bound(s, k);
        lemma_dubeolsik_key_simple(k);
        crate::layout::lemma_key_jamo_valid(Layout::Dubeolsik, k);
        assert(dinv(key_step(s, k))) by {
            match spec_key_to_jamo(k) {
                Some(j) => {
                    if jung_seq().contains(j) {
                        lemma_jung_keys(j);
                        lemma_vowel_step_keys(s, j);
                    } else {
                        lemma_consonant_step_keys(s, j);
                    }
                },
                None => {},
            }
        }
        let s2 = key_step(s, k);
        assert forall|i: int| 0 <= i < s2.out.len() implies is_hangul_char(#[trigger] s2.out[i]) || (keys.contains(
            s2.out[i],
        ) && spec_key_to_jamo(s2.out[i]) is None) by {
            if i < s.out.len() {
                assert(s2.out[i] == s.out[i]);
                if init.contains(s.out[i]) {
                    let j = choose|j: int| 0 <= j < init.len() && init[j] == s.out[i];
                    assert(keys[j] == init[j]);
                }
            } else if !is_hangul_char(s2.out[i]) {
                assert(keys[keys.len() - 1] == k);
            }
        }
    } else {
        assert(feed_keys(st0, keys) == st0);
    }
}

/// Every ASCII letter has a dubeolsik jamo.
proof fn lemma_letters_have_jamo(k: char)
    requires
        crate::text::spec_is_ascii_alpha(k),
    ensures
        spec_key_to_jamo(k) is Some,
{
}

/// Text composed in dubeolsik from physical keys holds no ASCII letter:
/// every letter key becomes a jamo.
pub proof fn lemma_composed_has_no_latin(keys: Seq<char>)
    ensures
        forall|i: int|
            0 <= i < compose_keys(Layout::Dubeolsik, keys).len() ==> !crate::text::spec_is_ascii_alpha(
                #[trigger] compose_keys(Layout::Dubeolsik, keys)[i],
            ),
{
    lemma_compose_output(keys);
    assert forall|i: int| 0 <= i < compose_keys(Layout::Dubeolsik, keys).len() implies !crate::text::spec_is_ascii_alpha(
        #[trigger] compose_keys(Layout::Dubeolsik, keys)[i],
    ) by {
        let c = compose_keys(Layout::Dubeolsik, keys)[i];
        if crate::text::spec_is_ascii_alpha(c) {
            lemma_letters_have_jamo(c);
        }
    }
}

} // verus!
