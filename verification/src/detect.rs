//! Detection of a wrong input mode: structural gate, dictionaries and
//! bigram evidence.
//!
//! Each word is weighed under two hypotheses ("the current mode is right" /
//! "the mode was wrong") by comparing the evidence for each language.
//!
//! The first gate is Hangul structure: an English word can only be meant as
//! Hangul if its conversion is made of complete syllables; turning complete
//! syllables into English is the riskiest direction, so it asks for a
//! dictionary match and an extra margin.
//!
//! The second is the comparison of evidence: the bigram model only filters
//! out (well-formed nonsense passes it), positive evidence comes from the
//! dictionaries and dictionary prefixes. A conversion needs both a minimum
//! of evidence for the target language and a margin that depends on the
//! sensitivity.
//!
//! Scores are exact integers in units of 10⁻⁹ (`SCALE` = 1.0).
use vstd::prelude::*;
use crate::compose::{compose_keys, english_to_hangul_with};
use crate::decompose::{decompose_text, hangul_to_english_with};
use crate::hangul::{is_compat_jamo, is_syllable, spec_is_compat_jamo, spec_is_syllable};
use crate::layout::{is_jamo_key, is_word_key, spec_key_jamo, Layout};
use crate::lexicon_data::builtin_lexicon;
use crate::lexicon::{bigram_lp, ko_symbols, longest_prefix, lower_seq, english_shaped, korean_shaped, lexicon_wf, Lexicon, LexiconState};
use crate::text::{
    chars_eq, chars_of, is_ascii_alpha, spec_is_ascii_alpha, spec_is_ascii_lower, spec_is_ascii_upper, spec_lower, string_of, to_lower, trim,
    trim_chars,
};

verus! {

/// Score unit: 1.0.
pub const SCALE: u64 = 1_000_000_000;
/// Minimum evidence for the target language, whatever the margin: weaker
/// evidence never converts ("ㅋㅋㅋ" → "zzz" is blocked).
pub const TARGET_EVIDENCE_FLOOR: u64 = 550_000_000;
/// Extra margin asked for turning fully composed Hangul into English.
pub const FULLY_COMPOSED_EXTRA_MARGIN: u64 = 150_000_000;
/// Cap on the English score of a key sequence of four or more letters that
/// composes exactly into a Korean dictionary word.
pub const DICTIONARY_ENGLISH_CAP: u64 = 750_000_000;

/// The verdict on one word.
#[derive(Debug, Clone, PartialEq, Eq)]
pub enum Verdict {
    /// Leave it.
    Keep,
    /// Hangul typed in English mode: the conversion.
    ToHangul(String),
    /// English typed in Hangul mode: the conversion.
    ToEnglish(String),
}

/// The abstract verdict.
pub ghost enum VerdictSpec {
    Keep,
    ToHangul(Seq<char>),
    ToEnglish(Seq<char>),
}

pub open spec fn verdict_view(v: Verdict) -> VerdictSpec {
    match v {
        Verdict::Keep => VerdictSpec::Keep,
        Verdict::ToHangul(s) => VerdictSpec::ToHangul(s@),
        Verdict::ToEnglish(s) => VerdictSpec::ToEnglish(s@),
    }
}

/// Automatic conversion sensitivity.
#[derive(Debug, Clone, Copy, PartialEq, Eq, Structural)]
pub enum Sensitivity {
    /// Convert only when sure (fewest false conversions).
    Conservative,
    Balanced,
    /// Convert eagerly (fewest missed conversions).
    Aggressive,
}

impl Default for Sensitivity {
    fn default() -> (r: Self)
        ensures
            r == Sensitivity::Balanced,
    {
        Sensitivity::Balanced
    }
}

pub open spec fn spec_to_hangul_margin(s: Sensitivity) -> int {
    match s {
        Sensitivity::Conservative => 400_000_000,
        Sensitivity::Balanced => 200_000_000,
        Sensitivity::Aggressive => 80_000_000,
    }
}

pub open spec fn spec_to_english_margin(s: Sensitivity) -> int {
    match s {
        Sensitivity::Conservative => 450_000_000,
        Sensitivity::Balanced => 250_000_000,
        Sensitivity::Aggressive => 100_000_000,
    }
}

impl Sensitivity {
    /// Converting to Hangul needs (Korean evidence − English evidence) of at
    /// least this much.
    pub fn to_hangul_margin(self) -> (m: u64)
        ensures
            m == spec_to_hangul_margin(self),
    {
        match self {
            Sensitivity::Conservative => 400_000_000,
            Sensitivity::Balanced => 200_000_000,
            Sensitivity::Aggressive => 80_000_000,
        }
    }

    /// Converting to English needs (English evidence − Korean evidence) of
    /// at least this much.
    pub fn to_english_margin(self) -> (m: u64)
        ensures
            m == spec_to_english_margin(self),
    {
        match self {
            Sensitivity::Conservative => 450_000_000,
            Sensitivity::Balanced => 250_000_000,
            Sensitivity::Aggressive => 100_000_000,
        }
    }
}

/// `a` is a more conservative setting than `b`.
pub open spec fn stricter(a: Sensitivity, b: Sensitivity) -> bool {
    ||| a == Sensitivity::Conservative && b != Sensitivity::Conservative
    ||| a == Sensitivity::Balanced && b == Sensitivity::Aggressive
}

/// A more conservative setting always asks for a larger margin, in both
/// directions.
pub proof fn lemma_margins_ordered(a: Sensitivity, b: Sensitivity)
    requires
        stricter(a, b),
    ensures
        spec_to_hangul_margin(b) < spec_to_hangul_margin(a),
        spec_to_english_margin(b) < spec_to_english_margin(a),
{
}

/// English consonant clusters that can start a word.
pub const ONSETS2: [(char, char); 36] = [
    ('b', 'l'), ('b', 'r'), ('c', 'h'), ('c', 'l'), ('c', 'r'), ('c', 'z'), ('d', 'r'), ('d', 'w'), ('f', 'l'), ('f', 'r'), ('g', 'h'), ('g', 'l'), ('g', 'n'), ('g', 'r'), ('k', 'n'), ('p', 'h'), ('p', 'l'), ('p', 'r'), ('p', 's'), ('q', 'u'), ('r', 'h'), ('s', 'c'), ('s', 'h'), ('s', 'k'), ('s', 'l'), ('s', 'm'), ('s', 'n'), ('s', 'p'), ('s', 't'), ('s', 'w'), ('t', 'h'), ('t', 'r'), ('t', 's'), ('t', 'w'), ('w', 'h'), ('w', 'r'),
];
pub const ONSETS3: [(char, char, char); 11] = [
    ('c', 'h', 'r'), ('p', 'h', 'r'), ('s', 'c', 'h'), ('s', 'c', 'r'), ('s', 'h', 'r'), ('s', 'p', 'h'), ('s', 'p', 'l'), ('s', 'p', 'r'), ('s', 'q', 'u'), ('s', 't', 'r'), ('t', 'h', 'r'),
];

pub open spec fn spec_is_english_vowel(c: char) -> bool {
    c == 'a' || c == 'e' || c == 'i' || c == 'o' || c == 'u' || c == 'y'
}

fn is_english_vowel(c: char) -> (b: bool)
    ensures
        b == spec_is_english_vowel(c),
{
    c == 'a' || c == 'e' || c == 'i' || c == 'o' || c == 'u' || c == 'y'
}

/// The letters of a word, lower-cased, other characters dropped.
pub open spec fn letters(w: Seq<char>) -> Seq<char>
    decreases w.len(),
{
    if w.len() == 0 {
        Seq::empty()
    } else if spec_is_ascii_alpha(w.last()) {
        letters(w.drop_last()).push(spec_lower(w.last()))
    } else {
        letters(w.drop_last())
    }
}

pub open spec fn vowel_count(l: Seq<char>) -> int
    decreases l.len(),
{
    if l.len() == 0 {
        0
    } else {
        vowel_count(l.drop_last()) + if spec_is_english_vowel(l.last()) { 1int } else { 0int }
    }
}

/// Length of the run of consonants that ends the sequence.
pub open spec fn tail_run(l: Seq<char>) -> int
    decreases l.len(),
{
    if l.len() == 0 {
        0
    } else if spec_is_english_vowel(l.last()) {
        0
    } else {
        tail_run(l.drop_last()) + 1
    }
}

/// Longest run of consonants.
pub open spec fn max_run(l: Seq<char>) -> int
    decreases l.len(),
{
    if l.len() == 0 {
        0
    } else {
        let m = max_run(l.drop_last());
        if tail_run(l) > m { tail_run(l) } else { m }
    }
}

/// Number of consonants before the first vowel.
pub open spec fn onset_len(l: Seq<char>) -> int
    decreases l.len(),
{
    if l.len() == 0 || spec_is_english_vowel(l[0]) {
        0
    } else {
        1 + onset_len(l.drop_first())
    }
}

pub open spec fn is_english_onset(o: Seq<char>) -> bool {
    ||| o.len() == 2 && ONSETS2@.contains((o[0], o[1]))
    ||| o.len() == 3 && ONSETS3@.contains((o[0], o[1], o[2]))
}

/// The onset is at most one consonant, or a cluster English allows.
pub open spec fn onset_ok(l: Seq<char>) -> bool {
    onset_len(l) <= 1 || is_english_onset(l.take(onset_len(l)))
}

pub open spec fn min(a: int, b: int) -> int {
    if a < b { a } else { b }
}

pub open spec fn max(a: int, b: int) -> int {
    if a < b { b } else { a }
}

/// The vowel-ratio feature: English words have roughly 25%..60% vowels.
pub open spec fn ratio_score(n: int, v: int) -> int {
    if v == 0 {
        0
    } else if 4 * v < n {
        4 * v * SCALE / n
    } else if 5 * v <= 3 * n {
        SCALE as int
    } else {
        5 * (n - v) * SCALE / (2 * n)
    }
}

/// The consonant-run feature: short runs look like English.
pub open spec fn run_score(r: int) -> int {
    if r <= 3 {
        SCALE as int
    } else if r == 4 {
        (SCALE as int) / 2
    } else if r == 5 {
        (SCALE as int) / 4
    } else {
        0
    }
}

/// How much a string looks like an English word, 0..=SCALE: 40% vowel
/// ratio, 25% longest consonant run, 35% legal word-initial cluster. No
/// vowel at all caps the score at 0.2, a run of six consonants or more at
/// 0.3.
pub open spec fn spec_english_score(w: Seq<char>) -> int {
    let l = letters(w);
    let n = l.len() as int;
    let v = vowel_count(l);
    let r = max_run(l);
    if n == 0 {
        0
    } else {
        let s0 = ratio_score(n, v) * 2 / 5 + run_score(r) / 4 + (if onset_ok(l) { SCALE as int } else { 0 }) * 7 / 20;
        let s1 = if v == 0 { min(s0, (SCALE as int) / 5) } else { s0 };
        if r >= 6 { min(s1, 3 * (SCALE as int) / 10) } else { s1 }
    }
}

fn is_english_onset_exec(o: &Vec<char>) -> (b: bool)
    ensures
        b == is_english_onset(o@),
{
    if o.len() == 2 {
        let key = (o[0], o[1]);
        let mut i: usize = 0;
        while i < 36
            invariant
                i <= 36,
                o@.len() == 2,
                key == (o@[0], o@[1]),
                forall|k: int| 0 <= k < i ==> ONSETS2@[k] != key,
            decreases 36 - i,
        {
            if ONSETS2[i].0 == key.0 && ONSETS2[i].1 == key.1 {
                assert(ONSETS2@[i as int] == key);
                return true;
            }
            i = i + 1;
        }
        false
    } else if o.len() == 3 {
        let key = (o[0], o[1], o[2]);
        let mut i: usize = 0;
        while i < 11
            invariant
                i <= 11,
                o@.len() == 3,
                key == (o@[0], o@[1], o@[2]),
                forall|k: int| 0 <= k < i ==> ONSETS3@[k] != key,
            decreases 11 - i,
        {
            if ONSETS3[i].0 == key.0 && ONSETS3[i].1 == key.1 && ONSETS3[i].2 == key.2 {
                assert(ONSETS3@[i as int] == key);
                return true;
            }
            i = i + 1;
        }
        false
    } else {
        false
    }
}

proof fn lemma_run_bounds(l: Seq<char>)
    ensures
        0 <= tail_run(l) <= max_run(l) <= l.len(),
        0 <= vowel_count(l) <= l.len(),
    decreases l.len(),
{
    if l.len() > 0 {
        lemma_run_bounds(l.drop_last());
    }
}

fn letters_exec(w: &Vec<char>) -> (l: Vec<char>)
    ensures
        l@ == letters(w@),
{
    let mut l: Vec<char> = Vec::new();
    let mut i: usize = 0;
    while i < w.len()
        invariant
            i <= w.len(),
            l@ == letters(w@.take(i as int)),
        decreases w.len() - i,
    {
        assert(w@.take(i + 1).drop_last() =~= w@.take(i as int));
        assert(w@.take(i + 1).last() == w@[i as int]);
        if is_ascii_alpha(w[i]) {
            l.push(to_lower(w[i]));
        }
        i = i + 1;
    }
    assert(w@.take(w.len() as int) =~= w@);
    l
}

/// How much a word looks like English, 0..=SCALE (see `spec_english_score`).
pub fn english_score(word: &str) -> (s: u64)
    ensures
        s == spec_english_score(word@),
        s <= SCALE,
{
    let w = chars_of(word);
    english_score_chars(&w)
}

fn english_score_chars(w: &Vec<char>) -> (s: u64)
    ensures
        s == spec_english_score(w@),
        s <= SCALE,
{
    let l = letters_exec(w);
    let n = l.len();
    if n == 0 {
        return 0;
    }
    let mut v: usize = 0;
    let mut run: usize = 0;
    let mut mr: usize = 0;
    let mut i: usize = 0;
    while i < n
        invariant
            i <= n == l.len(),
            v == vowel_count(l@.take(i as int)),
            run == tail_run(l@.take(i as int)),
            mr == max_run(l@.take(i as int)),
            v <= i,
            run <= i,
            mr <= i,
        decreases n - i,
    {
        assert(l@.take(i + 1).drop_last() =~= l@.take(i as int));
        assert(l@.take(i + 1).last() == l@[i as int]);
        proof { lemma_run_bounds(l@.take(i as int)); }
        if is_english_vowel(l[i]) {
            v = v + 1;
            run = 0;
        } else {
            run = run + 1;
            if run > mr {
                mr = run;
            }
        }
        i = i + 1;
    }
    assert(l@.take(n as int) =~= l@);
    // Onset: the consonants before the first vowel.
    let mut o: usize = 0;
    assert(l@.skip(0) =~= l@);
    while o < n && !is_english_vowel(l[o])
        invariant
            o <= n == l.len(),
            onset_len(l@) == o + onset_len(l@.skip(o as int)),
        decreases n - o,
    {
        assert(l@.skip(o as int).drop_first() =~= l@.skip(o + 1));
        o = o + 1;
    }
    let mut onset: Vec<char> = Vec::new();
    let mut k: usize = 0;
    while k < o
        invariant
            k <= o <= n == l.len(),
            onset@ == l@.take(k as int),
        decreases o - k,
    {
        onset.push(l[k]);
        assert(l@.take(k + 1) =~= l@.take(k as int).push(l@[k as int]));
        k = k + 1;
    }
    let ok = o <= 1 || is_english_onset_exec(&onset);
    let n128 = n as u128;
    let v128 = v as u128;
    let sc = SCALE as u128;
    let ratio: u128 = if v == 0 {
        0
    } else if 4 * v128 < n128 {
        4 * v128 * sc / n128
    } else if 5 * v128 <= 3 * n128 {
        sc
    } else {
        5 * (n128 - v128) * sc / (2 * n128)
    };
    proof {
        lemma_run_bounds(l@);
        let ni = n as int;
        let vi = v as int;
        if v > 0 && 4 * vi < ni {
            assert(4 * vi * 1_000_000_000 / ni <= 1_000_000_000) by (nonlinear_arith)
                requires 4 * vi < ni, ni > 0, vi >= 0;
        }
        if 5 * vi > 3 * ni {
            assert(5 * (ni - vi) * 1_000_000_000 / (2 * ni) <= 1_000_000_000) by (nonlinear_arith)
                requires 5 * vi > 3 * ni, ni > 0, vi <= ni;
        }
    }
    assert(ratio == ratio_score(n as int, v as int));
    assert(ratio <= sc);
    let runs: u128 = if mr <= 3 {
        sc
    } else if mr == 4 {
        sc / 2
    } else if mr == 5 {
        sc / 4
    } else {
        0
    };
    let onset_score: u128 = if ok { sc } else { 0 };
    let mut score: u128 = ratio * 2 / 5 + runs / 4 + onset_score * 7 / 20;
    if v == 0 && score > sc / 5 {
        score = sc / 5;
    }
    if mr >= 6 && score > 3 * sc / 10 {
        score = 3 * sc / 10;
    }
    score as u64
}

/// Korean evidence, 0..=SCALE: a dictionary word (1.0), a dictionary
/// prefix covering at least half the word (0.6 + 0.35 × coverage), or the
/// jamo bigram score (a filter only, so at most 0.6); the largest applies.
pub open spec fn korean_evidence(lex: LexiconState, w: Seq<char>) -> int {
    if lex.ko_words.contains(w) {
        SCALE as int
    } else {
        let total = w.len() as int;
        let prefix = longest_prefix(lex.ko_words, w, total);
        let prefix_evidence = if total >= 2 && 2 * prefix >= total {
            600_000_000 + 350_000_000 * prefix / total
        } else {
            0
        };
        let bigram_evidence = match bigram_lp(lex.ko_bigram, ko_symbols(w)) {
            Some((sum, n)) => normalize_lp(sum, n) * 3 / 5,
            None => 0,
        };
        max(prefix_evidence, bigram_evidence)
    }
}

/// An average log-probability mapped onto 0..=SCALE: (avg + 8) / 4.5,
/// clamped, where avg = sum / 256 / (symbols + 1). Common words average
/// about -3.5, random sequences -9 or below.
pub open spec fn normalize_lp(sum: int, n: int) -> int {
    let m = n + 1;
    let x = sum + 2048 * m;
    if x <= 0 {
        0
    } else if x >= 1152 * m {
        SCALE as int
    } else {
        x * SCALE / (1152 * m)
    }
}

/// The exact integer form of `normalize_lp`.
pub fn normalize_lp_scaled(sum: i128, n: usize) -> (r: u64)
    requires
        -32768 * (n + 1) <= sum <= 32767 * (n + 1),
    ensures
        r == normalize_lp(sum as int, n as int),
        r <= SCALE,
{
    let m = n as i128 + 1;
    let x = sum + 2048 * m;
    if x <= 0 {
        0
    } else if x >= 1152 * m {
        SCALE
    } else {
        assert(x * 1_000_000_000 / (1152 * m) < 1_000_000_000) by (nonlinear_arith)
            requires 0 < x < 1152 * m, m > 0;
        assert(x * 1_000_000_000 <= 1152 * m * 1_000_000_000) by (nonlinear_arith)
            requires 0 < x < 1152 * m, m > 0;
        (x * (SCALE as i128) / (1152 * m)) as u64
    }
}

/// The abstract state of a detector.
pub ghost struct DetectorState {
    pub sensitivity: Sensitivity,
    pub layout: Layout,
    pub exceptions: Set<Seq<char>>,
    pub lexicon: LexiconState,
}

/// Verdict on a word with Latin letters only: convert when it composes
/// into full syllables, is no English dictionary word, and Korean evidence
/// beats English evidence by the margin.
pub open spec fn latin_verdict(d: DetectorState, w: Seq<char>) -> VerdictSpec {
    if !(forall|i: int| 0 <= i < w.len() ==> spec_is_ascii_alpha(#[trigger] w[i]) || is_jamo_key(spec_key_jamo(d.layout, w[i]))) {
        // In sebeolsik digits and punctuation are jamo keys: only word keys.
        VerdictSpec::Keep
    } else {
        let candidate = compose_keys(d.layout, w);
        if !(candidate.len() > 0 && forall|i: int| 0 <= i < candidate.len() ==> spec_is_syllable(#[trigger] candidate[i])) {
            VerdictSpec::Keep
        } else if d.lexicon.en_words.contains(lower_seq(w)) {
            // A real English word is never touched.
            VerdictSpec::Keep
        } else {
            let korean = korean_evidence(d.lexicon, candidate);
            let english0 = spec_english_score(w);
            // Four keys or more that compose exactly into a Korean dictionary
            // word: the dictionary outweighs "looks English".
            let english = if korean == SCALE && w.len() >= 4 { min(english0, DICTIONARY_ENGLISH_CAP as int) } else { english0 };
            if korean >= TARGET_EVIDENCE_FLOOR && korean - english >= spec_to_hangul_margin(d.sensitivity) {
                VerdictSpec::ToHangul(candidate)
            } else {
                VerdictSpec::Keep
            }
        }
    }
}

/// Verdict on a Hangul word: convert when its keys are all letters and
/// English evidence beats Korean evidence by the margin. Fully composed
/// syllables (no lone jamo) are converted only into an English dictionary
/// word, with an extra margin.
pub open spec fn hangul_verdict(d: DetectorState, w: Seq<char>) -> VerdictSpec {
    if d.lexicon.ko_words.contains(w) {
        // A real Korean word is never touched.
        VerdictSpec::Keep
    } else {
        let candidate = decompose_text(d.layout, w);
        if candidate.len() == 0 || !(forall|i: int| 0 <= i < candidate.len() ==> spec_is_ascii_alpha(#[trigger] candidate[i])) {
            VerdictSpec::Keep
        } else {
            let broken = exists|i: int| 0 <= i < w.len() && spec_is_compat_jamo(#[trigger] w[i]);
            let in_dictionary = d.lexicon.en_words.contains(lower_seq(candidate));
            let english = if in_dictionary { SCALE as int } else { spec_english_score(candidate) };
            let korean = korean_evidence(d.lexicon, w);
            if !broken && !in_dictionary {
                VerdictSpec::Keep
            } else {
                let margin = spec_to_english_margin(d.sensitivity) + if broken { 0 } else { FULLY_COMPOSED_EXTRA_MARGIN as int };
                if english >= TARGET_EVIDENCE_FLOOR && english - korean >= margin {
                    VerdictSpec::ToEnglish(candidate)
                } else {
                    VerdictSpec::Keep
                }
            }
        }
    }
}

pub open spec fn has_latin(w: Seq<char>) -> bool {
    exists|i: int| 0 <= i < w.len() && spec_is_ascii_alpha(#[trigger] w[i])
}

pub open spec fn has_hangul(w: Seq<char>) -> bool {
    exists|i: int| 0 <= i < w.len() && (spec_is_syllable(#[trigger] w[i]) || spec_is_compat_jamo(w[i]))
}

/// The verdict on a word: trimmed; empty words and learned exceptions are
/// kept, and so are words mixing both scripts or using neither.
pub open spec fn spec_analyze(d: DetectorState, word: Seq<char>) -> VerdictSpec {
    let w = trim(word);
    if w.len() == 0 || d.exceptions.contains(w) {
        VerdictSpec::Keep
    } else if has_latin(w) && !has_hangul(w) {
        latin_verdict(d, w)
    } else if !has_latin(w) && has_hangul(w) {
        hangul_verdict(d, w)
    } else {
        VerdictSpec::Keep
    }
}

/// Word-level detector, with the exceptions learned from undone conversions.
#[derive(Debug)]
pub struct Detector {
    sensitivity: Sensitivity,
    layout: Layout,
    exceptions: Vec<Vec<char>>,
    lexicon: Lexicon,
}

impl View for Detector {
    type V = DetectorState;

    closed spec fn view(&self) -> DetectorState {
        DetectorState {
            sensitivity: self.sensitivity,
            layout: self.layout,
            exceptions: self.exceptions@.map_values(|v: Vec<char>| v@).to_set(),
            lexicon: self.lexicon@,
        }
    }
}

impl Detector {
    /// The lexicon is well formed.
    pub open spec fn wf(&self) -> bool {
        lexicon_wf(self@.lexicon)
    }

    /// A dubeolsik detector with the built-in dictionary.
    pub fn new(sensitivity: Sensitivity) -> (d: Self)
        ensures
            d.wf(),
            d@.sensitivity == sensitivity,
            d@.layout == Layout::Dubeolsik,
            d@.exceptions.is_empty(),
            d@.lexicon == builtin_lexicon(),
    {
        Self::with_layout(sensitivity, Layout::Dubeolsik)
    }

    /// A detector for a layout, with the built-in dictionary.
    pub fn with_layout(sensitivity: Sensitivity, layout: Layout) -> (d: Self)
        ensures
            d.wf(),
            d@.sensitivity == sensitivity,
            d@.layout == layout,
            d@.exceptions.is_empty(),
            d@.lexicon == builtin_lexicon(),
    {
        let d = Detector { sensitivity, layout, exceptions: Vec::new(), lexicon: Lexicon::builtin() };
        assert(d@.exceptions =~= Set::<Seq<char>>::empty());
        d
    }

    /// A detector for a layout with a lexicon.
    pub fn with_lexicon(sensitivity: Sensitivity, layout: Layout, lexicon: Lexicon) -> (d: Self)
        requires
            lexicon.wf(),
        ensures
            d.wf(),
            d@.sensitivity == sensitivity,
            d@.layout == layout,
            d@.exceptions.is_empty(),
            d@.lexicon == lexicon@,
    {
        let d = Detector { sensitivity, layout, exceptions: Vec::new(), lexicon };
        assert(d@.exceptions =~= Set::<Seq<char>>::empty());
        d
    }

    pub fn layout(&self) -> (l: Layout)
        ensures
            l == self@.layout,
    {
        self.layout
    }

    /// Learns a word whose automatic conversion the user undid, so that it
    /// is left alone from now on.
    pub fn record_undo(&mut self, word: &str)
        ensures
            final(self).wf() == old(self).wf(),
            final(self)@ == (DetectorState { exceptions: old(self)@.exceptions.insert(word@), ..old(self)@ }),
    {
        let w = chars_of(word);
        let ghost before = self.exceptions@;
        let ghost mapped = before.map_values(|v: Vec<char>| v@);
        if !self.contains_exception(&w) {
            self.exceptions.push(w);
            let ghost now = self.exceptions@.map_values(|v: Vec<char>| v@);
            assert(now =~= mapped.push(word@));
            assert forall|a: Seq<char>| now.contains(a) <==> mapped.contains(a) || a == word@ by {
                if a == word@ {
                    assert(now[mapped.len() as int] == a);
                }
                if mapped.contains(a) {
                    let j = choose|j: int| 0 <= j < mapped.len() && mapped[j] == a;
                    assert(now[j] == a);
                }
                if now.contains(a) {
                    let j = choose|j: int| 0 <= j < now.len() && now[j] == a;
                    if j < mapped.len() {
                        assert(mapped[j] == a);
                    }
                }
            }
        }
        assert(self@.exceptions =~= old(self)@.exceptions.insert(word@));
    }

    fn contains_exception(&self, w: &Vec<char>) -> (b: bool)
        ensures
            b == self@.exceptions.contains(w@),
    {
        let ghost ex = self.exceptions@.map_values(|v: Vec<char>| v@);
        let mut i: usize = 0;
        while i < self.exceptions.len()
            invariant
                i <= self.exceptions.len(),
                ex == self.exceptions@.map_values(|v: Vec<char>| v@),
                forall|k: int| 0 <= k < i ==> ex[k] != w@,
            decreases self.exceptions.len() - i,
        {
            if chars_eq(&self.exceptions[i], w) {
                assert(ex[i as int] == w@);
                return true;
            }
            i = i + 1;
        }
        false
    }

    pub fn is_exception(&self, word: &str) -> (b: bool)
        ensures
            b == self@.exceptions.contains(word@),
    {
        let w = chars_of(word);
        self.contains_exception(&w)
    }

    /// Judges one word committed at a word boundary.
    pub fn analyze(&self, word: &str) -> (v: Verdict)
        requires
            self.wf(),
        ensures
            verdict_view(v) == spec_analyze(self@, word@),
    {
        let raw = chars_of(word);
        let w = trim_chars(&raw);
        if w.len() == 0 || self.contains_exception(&w) {
            return Verdict::Keep;
        }
        let mut latin = false;
        let mut hangul = false;
        let mut i: usize = 0;
        while i < w.len()
            invariant
                i <= w.len(),
                latin == exists|k: int| 0 <= k < i && spec_is_ascii_alpha(#[trigger] w@[k]),
                hangul == exists|k: int| 0 <= k < i && (spec_is_syllable(#[trigger] w@[k]) || spec_is_compat_jamo(w@[k])),
            decreases w.len() - i,
        {
            if is_ascii_alpha(w[i]) {
                latin = true;
            }
            if is_syllable(w[i]) || is_compat_jamo(w[i]) {
                hangul = true;
            }
            i = i + 1;
        }
        // A word mixing both scripts is most likely intended.
        if latin && !hangul {
            self.analyze_latin(&w)
        } else if !latin && hangul {
            self.analyze_hangul(&w)
        } else {
            Verdict::Keep
        }
    }

    fn korean_evidence(&self, w: &Vec<char>) -> (e: u64)
        requires
            self.wf(),
        ensures
            e == korean_evidence(self@.lexicon, w@),
            e <= SCALE,
    {
        let s = string_of(w);
        if self.lexicon.korean_word_exists(s.as_str()) {
            return SCALE;
        }
        let total = w.len();
        let prefix = self.lexicon.korean_longest_dict_prefix_chars(s.as_str());
        proof { lemma_longest_prefix_bound(self@.lexicon.ko_words, w@, total as int); }
        let prefix_evidence: u64 = if total >= 2 && 2 * (prefix as u128) >= total as u128 {
            let p = prefix as u128;
            let t = total as u128;
            assert((350_000_000 * p) as int / (t as int) <= 350_000_000) by (nonlinear_arith)
                requires p as int <= t as int, t as int > 0;
            (600_000_000 + 350_000_000 * p / t) as u64
        } else {
            0
        };
        let bigram_evidence: u64 = match self.lexicon.korean_jamo_bigram_lp(s.as_str()) {
            Some((sum, n)) => normalize_lp_scaled(sum, n) * 3 / 5,
            None => 0,
        };
        if prefix_evidence < bigram_evidence { bigram_evidence } else { prefix_evidence }
    }

    fn analyze_latin(&self, w: &Vec<char>) -> (v: Verdict)
        requires
            self.wf(),
        ensures
            verdict_view(v) == latin_verdict(self@, w@),
    {
        let mut i: usize = 0;
        while i < w.len()
            invariant
                i <= w.len(),
                forall|k: int| 0 <= k < i ==> spec_is_ascii_alpha(#[trigger] w@[k]) || is_jamo_key(spec_key_jamo(self@.layout, w@[k])),
            decreases w.len() - i,
        {
            if !(is_ascii_alpha(w[i]) || is_word_key(self.layout, w[i])) {
                return Verdict::Keep;
            }
            i = i + 1;
        }
        let s = string_of(w);
        let candidate = english_to_hangul_with(self.layout, s.as_str());
        let cand = chars_of(candidate.as_str());
        if cand.len() == 0 {
            return Verdict::Keep;
        }
        let mut k: usize = 0;
        while k < cand.len()
            invariant
                k <= cand.len(),
                cand@ == compose_keys(self@.layout, w@),
                forall|j: int| 0 <= j < k ==> spec_is_syllable(#[trigger] cand@[j]),
            decreases cand.len() - k,
        {
            if !is_syllable(cand[k]) {
                assert(!spec_is_syllable(compose_keys(self@.layout, w@)[k as int]));
                return Verdict::Keep;
            }
            k = k + 1;
        }
        // A real English word is never touched.
        if self.lexicon.english_word_exists(s.as_str()) {
            return Verdict::Keep;
        }
        let korean = self.korean_evidence(&cand);
        let mut english = english_score_chars(w);
        if korean == SCALE && w.len() >= 4 && english > DICTIONARY_ENGLISH_CAP {
            english = DICTIONARY_ENGLISH_CAP;
        }
        if korean >= TARGET_EVIDENCE_FLOOR && (korean as i128) - (english as i128) >= self.sensitivity.to_hangul_margin() as i128 {
            Verdict::ToHangul(candidate)
        } else {
            Verdict::Keep
        }
    }

    fn analyze_hangul(&self, w: &Vec<char>) -> (v: Verdict)
        requires
            self.wf(),
        ensures
            verdict_view(v) == hangul_verdict(self@, w@),
    {
        let s = string_of(w);
        // A real Korean word is never touched.
        if self.lexicon.korean_word_exists(s.as_str()) {
            return Verdict::Keep;
        }
        let candidate = hangul_to_english_with(self.layout, s.as_str());
        let cand = chars_of(candidate.as_str());
        if cand.len() == 0 {
            return Verdict::Keep;
        }
        let mut k: usize = 0;
        while k < cand.len()
            invariant
                k <= cand.len(),
                cand@ == decompose_text(self@.layout, w@),
                forall|j: int| 0 <= j < k ==> spec_is_ascii_alpha(#[trigger] cand@[j]),
            decreases cand.len() - k,
        {
            if !is_ascii_alpha(cand[k]) {
                assert(!spec_is_ascii_alpha(decompose_text(self@.layout, w@)[k as int]));
                return Verdict::Keep;
            }
            k = k + 1;
        }
        let mut broken = false;
        let mut i: usize = 0;
        while i < w.len()
            invariant
                i <= w.len(),
                broken == exists|j: int| 0 <= j < i && spec_is_compat_jamo(#[trigger] w@[j]),
            decreases w.len() - i,
        {
            if is_compat_jamo(w[i]) {
                broken = true;
            }
            i = i + 1;
        }
        let in_dictionary = self.lexicon.english_word_exists(candidate.as_str());
        let english = if in_dictionary {
            SCALE
        } else {
            english_score_chars(&cand)
        };
        let korean = self.korean_evidence(w);
        let mut margin = self.sensitivity.to_english_margin();
        if !broken {
            // Fully composed Hangul is likely real Korean: convert only into
            // an English dictionary word, with an extra margin.
            if !in_dictionary {
                return Verdict::Keep;
            }
            margin = margin + FULLY_COMPOSED_EXTRA_MARGIN;
        }
        if english >= TARGET_EVIDENCE_FLOOR && (english as i128) - (korean as i128) >= margin as i128 {
            Verdict::ToEnglish(candidate)
        } else {
            Verdict::Keep
        }
    }
}

proof fn lemma_longest_prefix_bound(words: Seq<Seq<char>>, w: Seq<char>, k: int)
    ensures
        0 <= longest_prefix(words, w, k),
        k >= 0 ==> longest_prefix(words, w, k) <= k,
    decreases k,
{
    if k > 0 {
        lemma_longest_prefix_bound(words, w, k - 1);
    }
}

/// Undo learning: once a word has been recorded as undone, it is never
/// converted again (for a word without surrounding white space, which is
/// what the detector looks up after trimming).
pub proof fn lemma_undo_suppresses(d: DetectorState, w: Seq<char>)
    requires
        trim(w) == w,
    ensures
        spec_analyze(DetectorState { exceptions: d.exceptions.insert(w), ..d }, w) == VerdictSpec::Keep,
{
}

/// A word of the English dictionary typed in English mode is never
/// converted.
pub proof fn lemma_english_words_kept(d: DetectorState, word: Seq<char>)
    requires
        d.lexicon.en_words.contains(lower_seq(trim(word))),
        forall|i: int| 0 <= i < trim(word).len() ==> spec_is_ascii_alpha(#[trigger] trim(word)[i]),
    ensures
        spec_analyze(d, word) == VerdictSpec::Keep,
{
    let w = trim(word);
    if w.len() > 0 {
        assert(spec_is_ascii_alpha(w[0]));
        assert(!has_hangul(w));
    }
}

/// A word of the Korean dictionary typed in Hangul mode is never converted.
pub proof fn lemma_korean_words_kept(d: DetectorState, word: Seq<char>)
    requires
        d.lexicon.ko_words.contains(trim(word)),
        !has_latin(trim(word)),
    ensures
        spec_analyze(d, word) == VerdictSpec::Keep,
{
}

proof fn lemma_letters_lower(w: Seq<char>)
    ensures
        letters(lower_seq(w)) == letters(w),
    decreases w.len(),
{
    if w.len() > 0 {
        lemma_letters_lower(w.drop_last());
        assert(lower_seq(w).drop_last() =~= lower_seq(w.drop_last()));
        assert(lower_seq(w).last() == spec_lower(w.last()));
        let c = w.last();
        if spec_is_ascii_upper(c) {
            assert(spec_is_ascii_lower(spec_lower(c)));
        }
    }
}

/// The English score does not depend on ASCII letter case.
pub proof fn lemma_english_score_ignores_case(w: Seq<char>)
    ensures
        spec_english_score(lower_seq(w)) == spec_english_score(w),
{
    lemma_letters_lower(w);
}

/// A real dictionary word is never converted: whatever the detector, a
/// word whose trimmed form is in the Korean list, or, ASCII-lower-cased, in
/// the English list, is kept.
pub proof fn lemma_dictionary_words_kept(d: DetectorState, word: Seq<char>)
    requires
        lexicon_wf(d.lexicon),
        d.lexicon.en_words.contains(lower_seq(trim(word))) || d.lexicon.ko_words.contains(trim(word)),
    ensures
        spec_analyze(d, word) == VerdictSpec::Keep,
{
    let w = trim(word);
    if d.lexicon.en_words.contains(lower_seq(w)) {
        let k = choose|k: int| 0 <= k < d.lexicon.en_words.len() && d.lexicon.en_words[k] == lower_seq(w);
        assert(english_shaped(d.lexicon.en_words[k]));
        assert forall|i: int| 0 <= i < w.len() implies spec_is_ascii_alpha(#[trigger] w[i]) by {
            assert(lower_seq(w)[i] == spec_lower(w[i]));
        }
        lemma_english_words_kept(d, word);
    } else {
        let k = choose|k: int| 0 <= k < d.lexicon.ko_words.len() && d.lexicon.ko_words[k] == w;
        assert(korean_shaped(d.lexicon.ko_words[k]));
        lemma_korean_words_kept(d, word);
    }
}

/// Detectors built for one layout and lexicon, with the same learned
/// exceptions, differ only in sensitivity: what the stricter one converts,
/// the looser one converts the same way.
pub proof fn lemma_built_detectors_monotone(strict: DetectorState, loose: DetectorState, word: Seq<char>)
    requires
        strict.layout == loose.layout,
        strict.lexicon == loose.lexicon,
        strict.exceptions == loose.exceptions,
        stricter(strict.sensitivity, loose.sensitivity),
    ensures
        spec_analyze(strict, word) != VerdictSpec::Keep ==> spec_analyze(loose, word) == spec_analyze(strict, word),
{
    lemma_sensitivity_monotone(strict, loose.sensitivity, word);
    assert(loose == DetectorState { sensitivity: loose.sensitivity, ..strict });
}

/// A conversion is always the plain conversion of the trimmed word: to
/// Hangul, its keys composed into full syllables; to English, the keys of
/// its Hangul, all letters.
pub proof fn lemma_verdict_is_conversion(d: DetectorState, word: Seq<char>)
    ensures
        spec_analyze(d, word) matches VerdictSpec::ToHangul(c) ==> c == compose_keys(d.layout, trim(word))
            && c.len() > 0 && forall|i: int| 0 <= i < c.len() ==> spec_is_syllable(#[trigger] c[i]),
        spec_analyze(d, word) matches VerdictSpec::ToEnglish(c) ==> c == decompose_text(d.layout, trim(word))
            && c.len() > 0 && forall|i: int| 0 <= i < c.len() ==> spec_is_ascii_alpha(#[trigger] c[i]),
{
}

/// Words mixing Latin letters and Hangul, or holding neither, are kept.
pub proof fn lemma_mixed_words_kept(d: DetectorState, word: Seq<char>)
    requires
        has_latin(trim(word)) == has_hangul(trim(word)),
    ensures
        spec_analyze(d, word) == VerdictSpec::Keep,
{
}


/// Fully composed Hangul (no lone jamo) is only ever converted into a word
/// of the English dictionary.
pub proof fn lemma_composed_hangul_needs_dictionary(d: DetectorState, word: Seq<char>)
    requires
        forall|i: int| 0 <= i < trim(word).len() ==> !spec_is_compat_jamo(#[trigger] trim(word)[i]),
    ensures
        spec_analyze(d, word) matches VerdictSpec::ToEnglish(c) ==> d.lexicon.en_words.contains(lower_seq(c)),
{
}

/// Every conversion has at least the minimum evidence for its target
/// language, and beats the other language by the sensitivity's margin.
pub proof fn lemma_conversion_needs_evidence(d: DetectorState, word: Seq<char>)
    ensures
        spec_analyze(d, word) matches VerdictSpec::ToHangul(c) ==> korean_evidence(d.lexicon, c) >= TARGET_EVIDENCE_FLOOR,
        spec_analyze(d, word) matches VerdictSpec::ToEnglish(c) ==> (if d.lexicon.en_words.contains(lower_seq(c)) {
            SCALE as int
        } else {
            spec_english_score(c)
        }) >= TARGET_EVIDENCE_FLOOR,
{
}

/// A stricter sensitivity converts nothing that a looser one keeps: what
/// it converts, the looser one converts the same way.
pub proof fn lemma_sensitivity_monotone(d: DetectorState, looser: Sensitivity, word: Seq<char>)
    requires
        stricter(d.sensitivity, looser),
    ensures
        spec_analyze(d, word) != VerdictSpec::Keep ==> spec_analyze(DetectorState { sensitivity: looser, ..d }, word)
            == spec_analyze(d, word),
{
}


/// A dictionary prefix covering at least half of a word of two or more
/// characters is Korean evidence of at least 0.6, plus 0.35 times the part
/// it covers (a word in the dictionary counts fully).
pub proof fn lemma_prefix_evidence(lex: LexiconState, w: Seq<char>)
    requires
        w.len() >= 2,
        2 * longest_prefix(lex.ko_words, w, w.len() as int) >= w.len(),
    ensures
        korean_evidence(lex, w) >= 600_000_000 + 350_000_000 * longest_prefix(lex.ko_words, w, w.len() as int) / (w.len() as int),
        korean_evidence(lex, w) >= 600_000_000,
{
    let total = w.len() as int;
    let p = longest_prefix(lex.ko_words, w, total);
    lemma_longest_prefix_bound(lex.ko_words, w, total);
    assert(350_000_000 * p / total <= 350_000_000) by (nonlinear_arith)
        requires 0 <= p <= total, total >= 2;
    assert(350_000_000 * p / total >= 0) by (nonlinear_arith)
        requires 0 <= p, total >= 2;
}

} // verus!
