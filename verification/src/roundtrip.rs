//! Conversion laws: Hangul turned into dubeolsik keys and composed again
//! gives back the Hangul.
use vstd::prelude::*;
use crate::compose::{
    compose_keys, consonant_step, feed_keys, flush_spec, initial_state, jamo_step, key_step, pending_keys, pending_text,
    syllable_of, vowel_step, ComposerState,
};
use crate::decompose::{char_keys, decompose_text, jamo_keys, part_keys};
use crate::hangul::{
    cho_seq, jong_seq, jung_seq, lemma_combine_split_inverse,
    lemma_compose_decompose, lemma_jamo_closure, lemma_pos_index, lemma_table_values,
    spec_combine_jong, spec_decompose, spec_is_compat_jamo, spec_is_syllable, spec_split_jong,
    spec_split_jung,
};
use crate::sebeolsik_roundtrip::lemma_word_keys;
use crate::text::spec_is_ascii_alpha;
use crate::layout::{lemma_dubeolsik_key_roundtrip, spec_jamo_to_key, spec_key_jamo, spec_key_to_jamo, KeyJamo, Layout};

verus! {

/// Feeding two key sequences one after the other is feeding their
/// concatenation.
pub proof fn lemma_feed_append(st: ComposerState, a: Seq<char>, b: Seq<char>)
    ensures
        feed_keys(st, a + b) == feed_keys(feed_keys(st, a), b),
    decreases b.len(),
{
    if b.len() == 0 {
        assert(a + b =~= a);
    } else {
        lemma_feed_append(st, a, b.drop_last());
        assert((a + b).drop_last() =~= a + b.drop_last());
        assert((a + b).last() == b.last());
    }
}

pub proof fn lemma_feed_single(st: ComposerState, k: char)
    ensures
        feed_keys(st, seq![k]) == key_step(st, k),
{
    assert(seq![k].drop_last() =~= Seq::<char>::empty());
    assert(feed_keys(st, Seq::<char>::empty()) == st);
    assert(seq![k].last() == k);
}

pub open spec fn is_jung_char(c: char) -> bool {
    c == 'ㅏ' || c == 'ㅐ' || c == 'ㅑ' || c == 'ㅒ' || c == 'ㅓ' || c == 'ㅔ' || c == 'ㅕ'
        || c == 'ㅖ' || c == 'ㅗ' || c == 'ㅘ' || c == 'ㅙ' || c == 'ㅚ' || c == 'ㅛ' || c == 'ㅜ'
        || c == 'ㅝ' || c == 'ㅞ' || c == 'ㅟ' || c == 'ㅠ' || c == 'ㅡ' || c == 'ㅢ' || c == 'ㅣ'
}

pub proof fn lemma_jung_char(c: char)
    ensures
        jung_seq().contains(c) <==> is_jung_char(c),
{
    lemma_table_values();
    if jung_seq().contains(c) {
        let i = choose|i: int| 0 <= i < jung_seq().len() && jung_seq()[i] == c;
    }
    if is_jung_char(c) {
        if c == 'ㅏ' { assert(jung_seq()[0] == c); }
        else if c == 'ㅐ' { assert(jung_seq()[1] == c); }
        else if c == 'ㅑ' { assert(jung_seq()[2] == c); }
        else if c == 'ㅒ' { assert(jung_seq()[3] == c); }
        else if c == 'ㅓ' { assert(jung_seq()[4] == c); }
        else if c == 'ㅔ' { assert(jung_seq()[5] == c); }
        else if c == 'ㅕ' { assert(jung_seq()[6] == c); }
        else if c == 'ㅖ' { assert(jung_seq()[7] == c); }
        else if c == 'ㅗ' { assert(jung_seq()[8] == c); }
        else if c == 'ㅘ' { assert(jung_seq()[9] == c); }
        else if c == 'ㅙ' { assert(jung_seq()[10] == c); }
        else if c == 'ㅚ' { assert(jung_seq()[11] == c); }
        else if c == 'ㅛ' { assert(jung_seq()[12] == c); }
        else if c == 'ㅜ' { assert(jung_seq()[13] == c); }
        else if c == 'ㅝ' { assert(jung_seq()[14] == c); }
        else if c == 'ㅞ' { assert(jung_seq()[15] == c); }
        else if c == 'ㅟ' { assert(jung_seq()[16] == c); }
        else if c == 'ㅠ' { assert(jung_seq()[17] == c); }
        else if c == 'ㅡ' { assert(jung_seq()[18] == c); }
        else if c == 'ㅢ' { assert(jung_seq()[19] == c); }
        else { assert(jung_seq()[20] == c); }
    }
}

pub proof fn lemma_cho_cases(c: char)
    requires
        cho_seq().contains(c),
    ensures
        c == 'ㄱ' || c == 'ㄲ' || c == 'ㄴ' || c == 'ㄷ' || c == 'ㄸ' || c == 'ㄹ' || c == 'ㅁ'
            || c == 'ㅂ' || c == 'ㅃ' || c == 'ㅅ' || c == 'ㅆ' || c == 'ㅇ' || c == 'ㅈ' || c == 'ㅉ'
            || c == 'ㅊ' || c == 'ㅋ' || c == 'ㅌ' || c == 'ㅍ' || c == 'ㅎ',
{
    lemma_table_values();
    let i = choose|i: int| 0 <= i < cho_seq().len() && cho_seq()[i] == c;
}

pub proof fn lemma_jung_cases(c: char)
    requires
        jung_seq().contains(c),
    ensures
        c == 'ㅏ' || c == 'ㅐ' || c == 'ㅑ' || c == 'ㅒ' || c == 'ㅓ' || c == 'ㅔ' || c == 'ㅕ'
            || c == 'ㅖ' || c == 'ㅗ' || c == 'ㅘ' || c == 'ㅙ' || c == 'ㅚ' || c == 'ㅛ' || c == 'ㅜ'
            || c == 'ㅝ' || c == 'ㅞ' || c == 'ㅟ' || c == 'ㅠ' || c == 'ㅡ' || c == 'ㅢ' || c == 'ㅣ',
{
    lemma_table_values();
    let i = choose|i: int| 0 <= i < jung_seq().len() && jung_seq()[i] == c;
}

pub proof fn lemma_jong_cases(c: char)
    requires
        jong_seq().contains(c),
    ensures
        c == 'ㄱ' || c == 'ㄲ' || c == 'ㄳ' || c == 'ㄴ' || c == 'ㄵ' || c == 'ㄶ' || c == 'ㄷ'
            || c == 'ㄹ' || c == 'ㄺ' || c == 'ㄻ' || c == 'ㄼ' || c == 'ㄽ' || c == 'ㄾ' || c == 'ㄿ'
            || c == 'ㅀ' || c == 'ㅁ' || c == 'ㅂ' || c == 'ㅄ' || c == 'ㅅ' || c == 'ㅆ' || c == 'ㅇ'
            || c == 'ㅈ' || c == 'ㅊ' || c == 'ㅋ' || c == 'ㅌ' || c == 'ㅍ' || c == 'ㅎ',
{
    lemma_table_values();
    let i = choose|i: int| 0 <= i < jong_seq().len() && jong_seq()[i] == c;
}

/// A consonant with a dubeolsik key is fed back as that consonant.
proof fn lemma_consonant_key(st: ComposerState, c: char)
    requires
        st.layout == Layout::Dubeolsik,
        spec_jamo_to_key(c) is Some,
        !jung_seq().contains(c),
    ensures
        feed_keys(st, part_keys(Layout::Dubeolsik, 0, c)) == consonant_step(st, c),
        feed_keys(st, part_keys(Layout::Dubeolsik, 2, c)) == consonant_step(st, c),
{
    let k = spec_jamo_to_key(c)->0;
    lemma_dubeolsik_key_roundtrip(k, c);
    lemma_feed_single(st, k);
}

/// A vowel with a dubeolsik key is fed back as that vowel.
proof fn lemma_vowel_key(st: ComposerState, v: char)
    requires
        st.layout == Layout::Dubeolsik,
        spec_jamo_to_key(v) is Some,
        jung_seq().contains(v),
    ensures
        feed_keys(st, part_keys(Layout::Dubeolsik, 1, v)) == vowel_step(st, v),
{
    let k = spec_jamo_to_key(v)->0;
    lemma_dubeolsik_key_roundtrip(k, v);
    lemma_feed_single(st, k);
}

proof fn lemma_initial_keys(st: ComposerState, c: char)
    requires
        st.layout == Layout::Dubeolsik,
        cho_seq().contains(c),
    ensures
        feed_keys(st, jamo_keys(Layout::Dubeolsik, 0, c)) == consonant_step(st, c),
{
    lemma_cho_cases(c);
    lemma_table_values();
    lemma_consonant_key(st, c);
}

proof fn lemma_vowel_keys(st: ComposerState, v: char)
    requires
        st.layout == Layout::Dubeolsik,
        jung_seq().contains(v),
    ensures
        feed_keys(st, jamo_keys(Layout::Dubeolsik, 1, v)) == match spec_split_jung(v) {
            Some((a, b)) => vowel_step(vowel_step(st, a), b),
            None => vowel_step(st, v),
        },
{
    lemma_jung_cases(v);
    lemma_table_values();
    match spec_split_jung(v) {
        Some((a, b)) => {
            assert(spec_jamo_to_key(v) is None);
            let pa = part_keys(Layout::Dubeolsik, 1, a);
            let pb = part_keys(Layout::Dubeolsik, 1, b);
            lemma_feed_append(st, pa, pb);
            lemma_vowel_key(st, a);
            lemma_vowel_key(feed_keys(st, pa), b);
        },
        None => {
            lemma_vowel_key(st, v);
        },
    }
}

/// What the final-consonant keys need: a simple final has a key and is a
/// consonant; a compound final has none, and its parts do.
pub proof fn lemma_final_key_facts(t: char)
    requires
        jong_seq().contains(t),
    ensures
        spec_split_jong(t) is None ==> spec_jamo_to_key(t) is Some && !is_jung_char(t),
        spec_split_jong(t) matches Some((a, b)) ==> spec_jamo_to_key(t) is None && spec_jamo_to_key(a) is Some
            && spec_jamo_to_key(b) is Some && !is_jung_char(a) && !is_jung_char(b),
{
    lemma_jong_cases(t);
}

proof fn lemma_final_keys(st: ComposerState, t: char)
    requires
        st.layout == Layout::Dubeolsik,
        jong_seq().contains(t),
    ensures
        feed_keys(st, jamo_keys(Layout::Dubeolsik, 2, t)) == match spec_split_jong(t) {
            Some((a, b)) => consonant_step(consonant_step(st, a), b),
            None => consonant_step(st, t),
        },
{
    lemma_final_key_facts(t);
    match spec_split_jong(t) {
        Some((a, b)) => {
            lemma_jung_char(a);
            lemma_jung_char(b);
            let pa = part_keys(Layout::Dubeolsik, 2, a);
            let pb = part_keys(Layout::Dubeolsik, 2, b);
            lemma_feed_append(st, pa, pb);
            lemma_consonant_key(st, a);
            lemma_consonant_key(feed_keys(st, pa), b);
        },
        None => {
            lemma_jung_char(t);
            lemma_consonant_key(st, t);
        },
    }
}

/// The state reached after feeding the keys of a non-empty run of
/// syllables: all but the last committed, the last one in composition.
pub open spec fn syllable_state(s: Seq<char>) -> ComposerState {
    let (cho, jung, jong) = spec_decompose(s.last())->0;
    ComposerState {
        layout: Layout::Dubeolsik,
        cho: Some(cho_seq()[cho]),
        jung: Some(jung_seq()[jung]),
        jong: if jong > 0 { Some(jong_seq()[jong - 1]) } else { None },
        jong_explicit: false,
        out: s.drop_last(),
    }
}

pub open spec fn all_syllables(s: Seq<char>) -> bool {
    forall|i: int| 0 <= i < s.len() ==> spec_is_syllable(#[trigger] s[i])
}

/// Committing the syllable state gives the syllables back.
pub proof fn lemma_syllable_state_flush(s: Seq<char>)
    requires
        s.len() > 0,
        all_syllables(s),
    ensures
        flush_spec(syllable_state(s)).out == s,
{
    let c = s.last();
    assert(spec_is_syllable(c));
    let (ci, vi, jc) = spec_decompose(c)->0;
    lemma_compose_decompose(ci, vi, jc, c);
    lemma_pos_index();
    let st = syllable_state(s);
    vstd::utf8::char_u32_cast(c, c as u32);
    assert(syllable_of(cho_seq()[ci], jung_seq()[vi], st.jong) == c);
    assert(s.drop_last().push(c) =~= s);
}


/// A syllable state has its last syllable in composition.
pub open spec fn fed_state(s: Seq<char>) -> ComposerState {
    if s.len() == 0 { initial_state(Layout::Dubeolsik) } else { syllable_state(s) }
}

/// The state right after the initial and the vowel of a new syllable.
pub open spec fn fresh_state(out: Seq<char>, cho: char, jung: Option<char>) -> ComposerState {
    ComposerState {
        layout: Layout::Dubeolsik,
        cho: Some(cho),
        jung,
        jong: None,
        jong_explicit: false,
        out,
    }
}

proof fn lemma_initial_not_compound_final(c: char)
    requires
        cho_seq().contains(c),
    ensures
        spec_split_jong(c) is None,
{
    lemma_cho_cases(c);
}

/// After the initial of the next syllable, its first vowel commits the
/// previous syllable (taking its final back if it had been borrowed).
proof fn lemma_initial_then_vowel(s: Seq<char>, c: char, v: char)
    requires
        all_syllables(s),
        cho_seq().contains(c),
    ensures
        vowel_step(consonant_step(fed_state(s), c), v) == fresh_state(s, c, Some(v)),
{
    lemma_initial_not_compound_final(c);
    if s.len() > 0 {
        lemma_syllable_state_flush(s);
        let st = syllable_state(s);
        assert(st.cho is Some && st.jung is Some);
        if let Some(t) = st.jong {
            if let Some(x) = spec_combine_jong(t, c) {
                lemma_combine_split_inverse(t, c, x);
                assert(flush_spec(ComposerState { jong: Some(t), ..st }) == flush_spec(st));
            }
        } else if jong_seq().contains(c) {
            assert(flush_spec(ComposerState { jong: None, ..st }) == flush_spec(st));
        }
    } else {
        assert(fed_state(s).out =~= s);
    }
}

/// Feeding the keys of one more syllable keeps the invariant.
proof fn lemma_feed_syllable(s: Seq<char>, c: char)
    requires
        all_syllables(s.push(c)),
    ensures
        feed_keys(fed_state(s), char_keys(Layout::Dubeolsik, c)) == fed_state(s.push(c)),
{
    let sc = s.push(c);
    assert(spec_is_syllable(sc[sc.len() - 1]));
    assert(all_syllables(s)) by {
        assert forall|i: int| 0 <= i < s.len() implies spec_is_syllable(#[trigger] s[i]) by {
            assert(sc[i] == s[i]);
        }
    }
    let (ci, vi, jc) = spec_decompose(c)->0;
    lemma_compose_decompose(ci, vi, jc, c);
    lemma_table_values();
    let cc = cho_seq()[ci];
    let vv = jung_seq()[vi];
    assert(cho_seq().contains(cc));
    assert(jung_seq().contains(vv));
    let st = fed_state(s);
    let k0 = jamo_keys(Layout::Dubeolsik, 0, cc);
    let k1 = jamo_keys(Layout::Dubeolsik, 1, vv);
    let k2 = if jc > 0 { jamo_keys(Layout::Dubeolsik, 2, jong_seq()[jc - 1]) } else { Seq::empty() };
    assert(char_keys(Layout::Dubeolsik, c) == k0 + k1 + k2);
    lemma_feed_append(st, k0 + k1, k2);
    lemma_feed_append(st, k0, k1);
    lemma_initial_keys(st, cc);
    let st1 = consonant_step(st, cc);
    lemma_vowel_keys(st1, vv);
    lemma_jamo_closure(vv, vv, vv);
    let st2 = feed_keys(st1, k1);
    match spec_split_jung(vv) {
        Some((a, b)) => {
            lemma_initial_then_vowel(s, cc, a);
            lemma_combine_split_inverse(a, b, vv);
        },
        None => {
            lemma_initial_then_vowel(s, cc, vv);
        },
    }
    assert(st2 == fresh_state(s, cc, Some(vv)));
    assert(sc.drop_last() =~= s);
    if jc > 0 {
        let tt = jong_seq()[jc - 1];
        assert(jong_seq().contains(tt));
        lemma_final_keys(st2, tt);
        lemma_jamo_closure(tt, tt, tt);
        match spec_split_jong(tt) {
            Some((a, b)) => {
                lemma_combine_split_inverse(a, b, tt);
            },
            None => {},
        }
    } else {
        assert(feed_keys(st2, k2) == st2);
    }
}

/// Feeding the dubeolsik keys of a run of syllables reaches the syllable
/// state.
proof fn lemma_feed_syllables(s: Seq<char>)
    requires
        all_syllables(s),
    ensures
        feed_keys(initial_state(Layout::Dubeolsik), decompose_text(Layout::Dubeolsik, s)) == fed_state(s),
    decreases s.len(),
{
    if s.len() > 0 {
        let p = s.drop_last();
        assert(all_syllables(p)) by {
            assert forall|i: int| 0 <= i < p.len() implies spec_is_syllable(#[trigger] p[i]) by {
                assert(s[i] == p[i]);
            }
        }
        lemma_feed_syllables(p);
        lemma_feed_append(
            initial_state(Layout::Dubeolsik),
            decompose_text(Layout::Dubeolsik, p),
            char_keys(Layout::Dubeolsik, s.last()),
        );
        assert(p.push(s.last()) =~= s);
        lemma_feed_syllable(p, s.last());
    } else {
        assert(decompose_text(Layout::Dubeolsik, s) =~= Seq::<char>::empty());
        assert(feed_keys(initial_state(Layout::Dubeolsik), Seq::<char>::empty()) == initial_state(Layout::Dubeolsik));
    }
}

/// Korean round trip: text made of precomposed syllables, turned into its
/// dubeolsik keys and composed again, is the same text.
pub proof fn lemma_korean_roundtrip(s: Seq<char>)
    requires
        all_syllables(s),
    ensures
        compose_keys(Layout::Dubeolsik, decompose_text(Layout::Dubeolsik, s)) == s,
{
    lemma_feed_syllables(s);
    if s.len() > 0 {
        lemma_syllable_state_flush(s);
    } else {
        assert(flush_spec(initial_state(Layout::Dubeolsik)).out =~= s);
    }
}


/// A composer whose committed text is preceded by `o`.
pub open spec fn shifted(s: ComposerState, o: Seq<char>) -> ComposerState {
    ComposerState { out: o + s.out, ..s }
}

proof fn lemma_flush_shift(s: ComposerState, o: Seq<char>)
    ensures
        flush_spec(shifted(s, o)) == shifted(flush_spec(s), o),
{
    assert((o + s.out) + pending_text(s) =~= o + (s.out + pending_text(s)));
}

/// A key acts on the committed text only by appending to it.
proof fn lemma_step_shift(s: ComposerState, o: Seq<char>, k: char)
    ensures
        key_step(shifted(s, o), k) == shifted(key_step(s, k), o),
{
    lemma_flush_shift(s, o);
    if let Some(jong) = s.jong {
        let stay = match spec_split_jong(jong) {
            Some((first, second)) => Some(first),
            None => None,
        };
        lemma_flush_shift(ComposerState { jong: stay, ..s }, o);
        assert(shifted(ComposerState { jong: stay, ..s }, o) == ComposerState { jong: stay, ..shifted(s, o) });
    }
    let f = flush_spec(s);
    assert((o + f.out).push(k) =~= o + f.out.push(k));
    if let Some(KeyJamo::Other(c)) = spec_key_jamo(s.layout, k) {
        assert((o + f.out).push(c) =~= o + f.out.push(c));
    }
}

proof fn lemma_feed_shift(s: ComposerState, o: Seq<char>, keys: Seq<char>)
    ensures
        feed_keys(shifted(s, o), keys) == shifted(feed_keys(s, keys), o),
    decreases keys.len(),
{
    if keys.len() > 0 {
        lemma_feed_shift(s, o, keys.drop_last());
        lemma_step_shift(feed_keys(s, keys.drop_last()), o, keys.last());
    }
}

proof fn lemma_feed_layout(s: ComposerState, keys: Seq<char>)
    ensures
        feed_keys(s, keys).layout == s.layout,
    decreases keys.len(),
{
    if keys.len() > 0 {
        lemma_feed_layout(s, keys.drop_last());
    }
}

/// A character outside the layout ends the composition and is copied as it
/// is: the keys on either side of it are composed on their own.
pub proof fn lemma_passthrough_splits(layout: Layout, a: Seq<char>, c: char, b: Seq<char>)
    requires
        spec_key_jamo(layout, c) is None,
    ensures
        compose_keys(layout, a + seq![c] + b) == compose_keys(layout, a) + seq![c] + compose_keys(layout, b),
{
    let init = initial_state(layout);
    lemma_feed_append(init, a + seq![c], b);
    lemma_feed_append(init, a, seq![c]);
    lemma_feed_single(feed_keys(init, a), c);
    let o = compose_keys(layout, a) + seq![c];
    assert(feed_keys(init, a + seq![c]) == shifted(init, o)) by {
        lemma_feed_layout(init, a);
        assert(o + init.out =~= o);
        assert(flush_spec(feed_keys(init, a)).out.push(c) =~= o);
    }
    lemma_feed_shift(init, o, b);
    lemma_flush_shift(feed_keys(init, b), o);
}

/// The composer after feeding dubeolsik jamo one by one.
pub open spec fn feed_jamos(s: ComposerState, jamos: Seq<char>) -> ComposerState
    decreases jamos.len(),
{
    if jamos.len() == 0 {
        s
    } else {
        jamo_step(feed_jamos(s, jamos.drop_last()), jamos.last())
    }
}

/// The dubeolsik jamo of each key.
pub open spec fn keys_jamo(keys: Seq<char>) -> Seq<char> {
    keys.map_values(|k: char| spec_key_to_jamo(k)->0)
}

/// Feeding the dubeolsik jamo of keys gives what feeding the keys gives,
/// for keys that all have a jamo.
pub proof fn lemma_jamo_feed_matches_keys(s: ComposerState, keys: Seq<char>)
    requires
        s.layout == Layout::Dubeolsik,
        forall|i: int| 0 <= i < keys.len() ==> spec_key_to_jamo(#[trigger] keys[i]) is Some,
    ensures
        feed_jamos(s, keys_jamo(keys)) == feed_keys(s, keys),
        feed_keys(s, keys).layout == Layout::Dubeolsik,
    decreases keys.len(),
{
    if keys.len() > 0 {
        let init = keys.drop_last();
        assert forall|i: int| 0 <= i < init.len() implies spec_key_to_jamo(#[trigger] init[i]) is Some by {
            assert(init[i] == keys[i]);
        }
        lemma_jamo_feed_matches_keys(s, init);
        assert(keys_jamo(keys).drop_last() =~= keys_jamo(init));
        assert(keys_jamo(keys).last() == spec_key_to_jamo(keys.last())->0);
        assert(spec_key_to_jamo(keys[keys.len() - 1]) is Some);
    }
}


/// The text composed from the dubeolsik jamo of keys, each fed as a jamo,
/// is the text the keys compose to.
pub proof fn lemma_jamo_text_matches_keys(keys: Seq<char>)
    requires
        forall|i: int| 0 <= i < keys.len() ==> spec_key_to_jamo(#[trigger] keys[i]) is Some,
    ensures
        flush_spec(feed_jamos(initial_state(Layout::Dubeolsik), keys_jamo(keys))).out == compose_keys(Layout::Dubeolsik, keys),
{
    lemma_jamo_feed_matches_keys(initial_state(Layout::Dubeolsik), keys);
}


/// Turning text into keys works character by character, in every layout:
/// the keys of two texts one after the other are the keys of the joined
/// text, and a character that is neither a syllable nor a jamo is its own
/// key.
pub proof fn lemma_decompose_concat(layout: Layout, a: Seq<char>, b: Seq<char>, ch: char)
    ensures
        decompose_text(layout, a + b) == decompose_text(layout, a) + decompose_text(layout, b),
        !spec_is_syllable(ch) && !spec_is_compat_jamo(ch) ==> decompose_text(layout, seq![ch]) == seq![ch],
    decreases b.len(),
{
    if b.len() == 0 {
        assert(a + b =~= a);
        assert(decompose_text(layout, a) + decompose_text(layout, b) =~= decompose_text(layout, a));
    } else {
        lemma_decompose_concat(layout, a, b.drop_last(), ch);
        assert((a + b).drop_last() =~= a + b.drop_last());
        assert((a + b).last() == b.last());
        assert(decompose_text(layout, a) + decompose_text(layout, b) =~= decompose_text(layout, a)
            + decompose_text(layout, b.drop_last()) + char_keys(layout, b.last()));
    }
    let one = seq![ch];
    assert(one.drop_last() =~= Seq::<char>::empty());
    assert(decompose_text(layout, Seq::<char>::empty()) =~= Seq::<char>::empty());
    if !spec_is_syllable(ch) && !spec_is_compat_jamo(ch) {
        assert(Seq::<char>::empty() + seq![ch] =~= seq![ch]);
    }
}

/// Feeding the dubeolsik jamo of ASCII letters, one by one, composes the
/// same text as the letters themselves.
pub proof fn lemma_letters_feed_as_jamo(keys: Seq<char>)
    requires
        forall|i: int| 0 <= i < keys.len() ==> spec_is_ascii_alpha(#[trigger] keys[i]),
    ensures
        flush_spec(feed_jamos(initial_state(Layout::Dubeolsik), keys_jamo(keys))).out == compose_keys(Layout::Dubeolsik, keys),
{
    assert forall|i: int| 0 <= i < keys.len() implies spec_key_to_jamo(#[trigger] keys[i]) is Some by {
        lemma_word_keys(keys[i]);
    }
    lemma_jamo_text_matches_keys(keys);
}

/// A key never takes back committed text: what was committed stays a
/// prefix, and at most five key strokes are ever in composition.
pub proof fn lemma_committed_only_grows(s: ComposerState, k: char)
    ensures
        s.out.is_prefix_of(key_step(s, k).out),
        pending_keys(key_step(s, k)) <= 5,
{
    let t = key_step(s, k);
    assert(t.out.take(s.out.len() as int) =~= s.out) by {
        let f = flush_spec(s);
        assert(f.out.take(s.out.len() as int) =~= s.out);
        assert(f.out.push(k).take(s.out.len() as int) =~= s.out);
        if let Some(KeyJamo::Other(c)) = spec_key_jamo(s.layout, k) {
            assert(f.out.push(c).take(s.out.len() as int) =~= s.out);
        }
        if let Some(jong) = s.jong {
            let stay = match spec_split_jong(jong) {
                Some((first, second)) => Some(first),
                None => None,
            };
            let g = flush_spec(ComposerState { jong: stay, ..s });
            assert(g.out.take(s.out.len() as int) =~= s.out);
        }
    }
}

} // verus!
