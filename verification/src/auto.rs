//! Automatic detection and correction at word boundaries, shared by all
//! platform adapters.
//!
//! An adapter calls [`AutoCorrector::on_word_committed`] when a boundary key
//! (space, punctuation) commits a word. The decision holds the replacement,
//! the text to put back on undo, and the word to learn as an exception.
//!
//! Undo protocol: one backspace right after an automatic correction undoes
//! it. That backspace already erased the boundary character, so the adapter
//! erases `replacement` length − 1 more characters, types
//! [`AutoDecision::revert`] and records [`AutoDecision::screen_word`] as an
//! exception.
use vstd::prelude::*;
use crate::compose::{compose_keys, english_to_hangul_with, lemma_feed_keys_bound};
use crate::detect::{has_hangul, has_latin, spec_analyze, Detector, DetectorState, Verdict, VerdictSpec};
use crate::hangul::{spec_is_compat_jamo, spec_is_syllable};
use crate::key_roundtrip::{is_hangul_char, lemma_composed_has_no_latin};
use crate::layout::Layout;
use crate::text::{char_count, lemma_trim_within, push_char, spec_is_ascii_alpha, trim};

verus! {

/// An automatic correction.
#[derive(Debug, PartialEq, Eq)]
pub struct AutoDecision {
    /// Characters to erase on screen (the word and the boundary character).
    pub backspaces: usize,
    /// Text to type: the converted word and the boundary character.
    pub replacement: String,
    /// Text to type back on undo: the word as it was and the boundary.
    pub revert: String,
    /// The IME mode to switch to: always the other one.
    pub to_korean_mode: bool,
    /// The word to learn as an exception: the word the detector judged.
    pub screen_word: String,
}

/// The abstract content of a decision.
pub ghost struct DecisionSpec {
    pub backspaces: int,
    pub replacement: Seq<char>,
    pub revert: Seq<char>,
    pub to_korean_mode: bool,
    pub screen_word: Seq<char>,
}

pub open spec fn decision_view(d: AutoDecision) -> DecisionSpec {
    DecisionSpec {
        backspaces: d.backspaces as int,
        replacement: d.replacement@,
        revert: d.revert@,
        to_korean_mode: d.to_korean_mode,
        screen_word: d.screen_word@,
    }
}

pub open spec fn opt_decision_view(d: Option<AutoDecision>) -> Option<DecisionSpec> {
    match d {
        Some(x) => Some(decision_view(x)),
        None => None,
    }
}

/// The word left on screen: in Korean mode, the keys composed by the layout.
pub open spec fn screen_word(d: DetectorState, korean_mode: bool, keys: Seq<char>) -> Seq<char> {
    if korean_mode { compose_keys(d.layout, keys) } else { keys }
}

/// The decision for a word committed by `boundary`.
pub open spec fn decide(d: DetectorState, korean_mode: bool, keys: Seq<char>, boundary: char) -> Option<DecisionSpec> {
    let screen = screen_word(d, korean_mode, keys);
    let made = |converted: Seq<char>, to_korean: bool| DecisionSpec {
        backspaces: screen.len() + 1int,
        replacement: converted.push(boundary),
        revert: screen.push(boundary),
        to_korean_mode: to_korean,
        screen_word: screen,
    };
    match spec_analyze(d, screen) {
        VerdictSpec::Keep => None,
        VerdictSpec::ToHangul(h) => Some(made(h, true)),
        VerdictSpec::ToEnglish(e) => Some(made(e, false)),
    }
}

/// Drives a detector at word boundaries.
pub struct AutoCorrector {
    detector: Detector,
}

impl View for AutoCorrector {
    type V = DetectorState;

    closed spec fn view(&self) -> DetectorState {
        self.detector@
    }
}

impl AutoCorrector {
    pub closed spec fn wf(&self) -> bool {
        self.detector.wf()
    }

    pub fn new(detector: Detector) -> (c: Self)
        ensures
            c@ == detector@,
            c.wf() == detector.wf(),
    {
        AutoCorrector { detector }
    }

    /// The detector, for changes of its state such as undo learning.
    pub fn detector_mut(&mut self) -> (d: &mut Detector)
        ensures
            d@ == old(self)@,
            d.wf() == old(self).wf(),
            final(self)@ == final(d)@,
            final(self).wf() == final(d).wf(),
    {
        &mut self.detector
    }

    /// Judges a word committed by a boundary character. `keys` are the
    /// physical keys, `korean_mode` the IME mode the word was typed in.
    pub fn on_word_committed(&self, korean_mode: bool, keys: &str, boundary: char) -> (r: Option<AutoDecision>)
        requires
            self.wf(),
            keys@.len() < usize::MAX,
        ensures
            opt_decision_view(r) == decide(self@, korean_mode, keys@, boundary),
    {
        // The word actually on screen: in Korean mode, composed by the layout.
        let screen_word = if korean_mode {
            english_to_hangul_with(self.detector.layout(), keys)
        } else {
            keys.to_owned()
        };
        proof {
            lemma_feed_keys_bound(self@.layout, keys@);
        }
        let (converted, to_korean_mode) = match self.detector.analyze(screen_word.as_str()) {
            Verdict::Keep => return None,
            Verdict::ToHangul(h) => (h, true),
            Verdict::ToEnglish(e) => (e, false),
        };
        let mut replacement = converted;
        push_char(&mut replacement, boundary);
        let mut revert = screen_word.clone();
        push_char(&mut revert, boundary);
        let n = char_count(screen_word.as_str());
        Some(AutoDecision { backspaces: n + 1, replacement, revert, to_korean_mode, screen_word })
    }
}

/// Undo learning: once the screen word of a correction is recorded as an
/// exception, committing the same keys again yields no correction (for a
/// screen word without surrounding white space, which is what the detector
/// looks up).
pub proof fn lemma_undo_prevents_reconversion(d: DetectorState, korean_mode: bool, keys: Seq<char>, boundary: char)
    requires
        decide(d, korean_mode, keys, boundary) is Some,
        trim(decide(d, korean_mode, keys, boundary)->0.screen_word) == decide(d, korean_mode, keys, boundary)->0.screen_word,
    ensures
        decide(
            DetectorState { exceptions: d.exceptions.insert(decide(d, korean_mode, keys, boundary)->0.screen_word), ..d },
            korean_mode,
            keys,
            boundary,
        ) is None,
{
}

/// A decision follows the detector's verdict on the word on screen: none
/// when the verdict keeps it; otherwise the screen word, one backspace per
/// character plus the boundary, the conversion and the screen word each
/// followed by the boundary, and the mode the conversion is written in.
pub proof fn lemma_decision_follows_verdict(d: DetectorState, korean_mode: bool, keys: Seq<char>, boundary: char)
    ensures
        ({
            let s = screen_word(d, korean_mode, keys);
            match decide(d, korean_mode, keys, boundary) {
                None => spec_analyze(d, s) == VerdictSpec::Keep,
                Some(r) => {
                    &&& r.screen_word == s
                    &&& r.backspaces == s.len() + 1
                    &&& r.revert == s.push(boundary)
                    &&& match spec_analyze(d, s) {
                        VerdictSpec::ToHangul(x) => r.to_korean_mode && r.replacement == x.push(boundary),
                        VerdictSpec::ToEnglish(x) => !r.to_korean_mode && r.replacement == x.push(boundary),
                        VerdictSpec::Keep => false,
                    }
                },
            }
        }),
{
}

/// A correction erases exactly what undo types back (the screen word and its
/// boundary character), and both texts it types end with the boundary.
pub proof fn lemma_decision_shape(d: DetectorState, korean_mode: bool, keys: Seq<char>, boundary: char)
    requires
        decide(d, korean_mode, keys, boundary) is Some,
    ensures
        decide(d, korean_mode, keys, boundary)->0.backspaces == decide(d, korean_mode, keys, boundary)->0.revert.len(),
        decide(d, korean_mode, keys, boundary)->0.revert.last() == boundary,
        decide(d, korean_mode, keys, boundary)->0.replacement.last() == boundary,
{
}


/// A correction always switches the IME to the other mode, with dubeolsik
/// and keys that are physical keys (no Hangul text among them): in Korean
/// mode the screen holds no Latin letter, so it can only be corrected to
/// English; in English mode it holds no Hangul, so only to Hangul.
pub proof fn lemma_correction_switches_mode(d: DetectorState, korean_mode: bool, keys: Seq<char>, boundary: char)
    requires
        d.layout == Layout::Dubeolsik,
        decide(d, korean_mode, keys, boundary) is Some,
        forall|i: int| 0 <= i < keys.len() ==> !is_hangul_char(#[trigger] keys[i]),
    ensures
        decide(d, korean_mode, keys, boundary)->0.to_korean_mode == !korean_mode,
{
    let screen = screen_word(d, korean_mode, keys);
    let w = trim(screen);
    lemma_trim_within(screen);
    if korean_mode {
        lemma_composed_has_no_latin(keys);
        assert(!has_latin(w)) by {
            if has_latin(w) {
                let i = choose|i: int| 0 <= i < w.len() && spec_is_ascii_alpha(#[trigger] w[i]);
                assert(screen.contains(w[i]));
            }
        }
    } else {
        assert(!has_hangul(w)) by {
            if has_hangul(w) {
                let i = choose|i: int| 0 <= i < w.len() && (spec_is_syllable(#[trigger] w[i]) || spec_is_compat_jamo(w[i]));
                assert(keys.contains(w[i]));
                let j = choose|j: int| 0 <= j < keys.len() && keys[j] == w[i];
                assert(!is_hangul_char(keys[j]));
            }
        }
    }
}

} // verus!
