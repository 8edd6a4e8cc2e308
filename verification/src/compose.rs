//! Dubeolsik / sebeolsik input automaton: QWERTY key sequence to Hangul.
//!
//! Composition follows the rules of a real Hangul IME:
//! - a syllable is built as initial + vowel (+ final);
//! - compound vowels (ㅗ+ㅏ=ㅘ) and compound finals (ㄹ+ㄱ=ㄺ) are combined;
//! - when a vowel follows a final consonant, the final (the second part of
//!   a compound final) moves on to start the next syllable;
//! - jamo that do not make a syllable stay as compatibility jamo
//!   (e.g. "ㅗ디ㅣㅐ").
use vstd::prelude::*;
use crate::hangul::{
    cho_index, cho_pos, cho_seq, combine_cho, combine_jong, combine_jung, compose_syllable,
    is_vowel_jamo, jong_index, jong_pos, jong_seq, jung_index, jung_pos, jung_seq,
    lemma_jamo_closure, lemma_pos_index, spec_combine_cho, spec_combine_jong, spec_combine_jung,
    spec_split_jong, spec_split_jung, split_jong, split_jung, syllable_code,
};
use crate::layout::{key_jamo, lemma_key_jamo_valid, spec_key_jamo, KeyJamo, Layout};
use crate::text::{chars_of, push_char};

verus! {

/// The abstract state of a composer: the layout, the syllable in
/// composition (initial, vowel, final), whether the final came from a
/// position-explicit (sebeolsik) key, and the committed output.
pub ghost struct ComposerState {
    pub layout: Layout,
    pub cho: Option<char>,
    pub jung: Option<char>,
    pub jong: Option<char>,
    pub jong_explicit: bool,
    pub out: Seq<char>,
}

pub open spec fn opt_seq(o: Option<char>) -> Seq<char> {
    match o {
        Some(c) => seq![c],
        None => Seq::empty(),
    }
}

/// The final code of an optional final consonant (0 = none).
pub open spec fn jong_code(jong: Option<char>) -> int {
    match jong {
        Some(j) => jong_pos(j) + 1,
        None => 0,
    }
}

/// The syllable made of an initial, a vowel and an optional final.
pub open spec fn syllable_of(cho: char, jung: char, jong: Option<char>) -> char {
    (syllable_code(cho_pos(cho), jung_pos(jung), jong_code(jong)) as u32) as char
}

/// The text the syllable in composition stands for once committed.
pub open spec fn pending_text(s: ComposerState) -> Seq<char> {
    match (s.cho, s.jung) {
        (Some(c), Some(v)) => seq![syllable_of(c, v, s.jong)],
        _ => opt_seq(s.cho) + opt_seq(s.jung) + opt_seq(s.jong),
    }
}

/// Commits the syllable in composition: a full syllable if there is an
/// initial and a vowel, otherwise the jamo one by one.
pub open spec fn flush_spec(s: ComposerState) -> ComposerState {
    ComposerState {
        layout: s.layout,
        cho: None,
        jung: None,
        jong: None,
        jong_explicit: false,
        out: s.out + pending_text(s),
    }
}

pub open spec fn vowel_step(s: ComposerState, v: char) -> ComposerState {
    if s.jong is Some && s.jong_explicit {
        ComposerState { jung: Some(v), ..flush_spec(s) }
    } else if let Some(jong) = s.jong {
        let (stay, mover) = match spec_split_jong(jong) {
            Some((first, second)) => (Some(first), second),
            None => (None, jong),
        };
        ComposerState { cho: Some(mover), jung: Some(v), ..flush_spec(ComposerState { jong: stay, ..s }) }
    } else if let Some(cur) = s.jung {
        match spec_combine_jung(cur, v) {
            Some(compound) => ComposerState { jung: Some(compound), ..s },
            None => ComposerState { jung: Some(v), ..flush_spec(s) },
        }
    } else {
        ComposerState { jung: Some(v), ..s }
    }
}

pub open spec fn consonant_step(s: ComposerState, c: char) -> ComposerState {
    if s.jung is None {
        if s.cho is Some {
            ComposerState { cho: Some(c), ..flush_spec(s) }
        } else {
            ComposerState { cho: Some(c), ..s }
        }
    } else if s.cho is None {
        ComposerState { cho: Some(c), ..flush_spec(s) }
    } else if let Some(cur) = s.jong {
        match spec_combine_jong(cur, c) {
            Some(compound) => ComposerState { jong: Some(compound), ..s },
            None => ComposerState { cho: Some(c), ..flush_spec(s) },
        }
    } else if jong_seq().contains(c) {
        ComposerState { jong: Some(c), ..s }
    } else {
        ComposerState { cho: Some(c), ..flush_spec(s) }
    }
}

pub open spec fn cho_explicit_step(s: ComposerState, c: char) -> ComposerState {
    if s.jung is None && s.jong is None && s.cho is Some && spec_combine_cho(s.cho->0, c) is Some {
        ComposerState { cho: spec_combine_cho(s.cho->0, c), ..s }
    } else if s.cho is Some || s.jung is Some || s.jong is Some {
        ComposerState { cho: Some(c), ..flush_spec(s) }
    } else {
        ComposerState { cho: Some(c), ..s }
    }
}

pub open spec fn jong_explicit_step(s: ComposerState, t: char) -> ComposerState {
    if s.cho is Some && s.jung is Some && s.jong is None {
        ComposerState { jong: Some(t), jong_explicit: true, ..s }
    } else if s.jong is Some && spec_combine_jong(s.jong->0, t) is Some {
        ComposerState { jong: spec_combine_jong(s.jong->0, t), jong_explicit: true, ..s }
    } else {
        ComposerState { jong: Some(t), jong_explicit: true, ..flush_spec(s) }
    }
}

pub open spec fn passthrough_step(s: ComposerState, c: char) -> ComposerState {
    let f = flush_spec(s);
    ComposerState { out: f.out.push(c), ..f }
}

/// The jamo a key produces in the composer's layout, fed as its position says.
pub open spec fn key_step(s: ComposerState, key: char) -> ComposerState {
    match spec_key_jamo(s.layout, key) {
        Some(KeyJamo::Dual(c)) => consonant_step(s, c),
        Some(KeyJamo::Jung(v)) => vowel_step(s, v),
        Some(KeyJamo::Cho(c)) => cho_explicit_step(s, c),
        Some(KeyJamo::Jong(t)) => jong_explicit_step(s, t),
        Some(KeyJamo::Other(c)) => passthrough_step(s, c),
        None => passthrough_step(s, key),
    }
}

/// Feeding a dubeolsik jamo: vowels as vowels, anything else as a consonant.
pub open spec fn jamo_step(s: ComposerState, jamo: char) -> ComposerState {
    if jung_seq().contains(jamo) {
        vowel_step(s, jamo)
    } else {
        consonant_step(s, jamo)
    }
}

/// The state after feeding `keys` one by one.
pub open spec fn feed_keys(s: ComposerState, keys: Seq<char>) -> ComposerState
    decreases keys.len(),
{
    if keys.len() == 0 {
        s
    } else {
        key_step(feed_keys(s, keys.drop_last()), keys.last())
    }
}

pub open spec fn initial_state(layout: Layout) -> ComposerState {
    ComposerState {
        layout,
        cho: None,
        jung: None,
        jong: None,
        jong_explicit: false,
        out: Seq::empty(),
    }
}

/// What `english_to_hangul_with` returns: the keys composed in the layout,
/// with the last syllable committed.
pub open spec fn compose_keys(layout: Layout, keys: Seq<char>) -> Seq<char> {
    flush_spec(feed_keys(initial_state(layout), keys)).out
}

/// Number of key strokes a jamo in composition took (compound jamo take two).
pub open spec fn jung_keys(j: char) -> int {
    if spec_split_jung(j) is Some { 2 } else { 1 }
}

pub open spec fn jong_keys(j: char) -> int {
    if spec_split_jong(j) is Some { 2 } else { 1 }
}

pub open spec fn pending_keys(s: ComposerState) -> int {
    (if s.cho is Some { 1int } else { 0int })
        + match s.jung { Some(j) => jung_keys(j), None => 0 }
        + match s.jong { Some(j) => jong_keys(j), None => 0 }
}

/// The slots of the syllable in composition only hold jamo of their tables.
pub open spec fn state_wf(s: ComposerState) -> bool {
    &&& s.cho matches Some(c) ==> cho_seq().contains(c)
    &&& s.jung matches Some(v) ==> jung_seq().contains(v)
    &&& s.jong matches Some(t) ==> jong_seq().contains(t)
}

/// A state machine composing Hangul from a stream of keys or jamo; platform
/// adapters can feed it key events one at a time.
#[derive(Debug)]
pub struct Composer {
    layout: Layout,
    cho: Option<char>,
    jung: Option<char>,
    jong: Option<char>,
    /// The final came from a position-explicit (sebeolsik) key: a following
    /// vowel then does not take it over.
    jong_explicit: bool,
    out: String,
}

impl View for Composer {
    type V = ComposerState;

    closed spec fn view(&self) -> ComposerState {
        ComposerState {
            layout: self.layout,
            cho: self.cho,
            jung: self.jung,
            jong: self.jong,
            jong_explicit: self.jong_explicit,
            out: self.out@,
        }
    }
}

impl Composer {
    pub open spec fn wf(&self) -> bool {
        state_wf(self@)
    }

    pub fn new() -> (c: Self)
        ensures
            c@ == initial_state(Layout::Dubeolsik),
            c.wf(),
    {
        Self::with_layout(Layout::Dubeolsik)
    }

    pub fn with_layout(layout: Layout) -> (c: Self)
        ensures
            c@ == initial_state(layout),
            c.wf(),
    {
        Composer { layout, cho: None, jung: None, jong: None, jong_explicit: false, out: String::new() }
    }

    /// Feeds one physical key, read through the composer's layout.
    pub fn feed_key(&mut self, key: char)
        requires
            old(self).wf(),
        ensures
            final(self).wf(),
            final(self)@ == key_step(old(self)@, key),
    {
        proof { lemma_key_jamo_valid(self.layout, key); }
        match key_jamo(self.layout, key) {
            Some(KeyJamo::Dual(c)) => self.feed_consonant(c),
            Some(KeyJamo::Jung(v)) => self.feed_vowel(v),
            Some(KeyJamo::Cho(c)) => self.feed_cho_explicit(c),
            Some(KeyJamo::Jong(t)) => self.feed_jong_explicit(t),
            Some(KeyJamo::Other(c)) => self.feed_passthrough(c),
            None => self.feed_passthrough(key),
        }
    }

    /// Commits the syllable in composition to the output.
    fn flush(&mut self)
        requires
            old(self).wf(),
        ensures
            final(self).wf(),
            final(self)@ == flush_spec(old(self)@),
    {
        proof { lemma_pos_index(); }
        let cho = self.cho.take();
        let jung = self.jung.take();
        let jong = self.jong.take();
        self.jong_explicit = false;
        if let (Some(c), Some(v)) = (cho, jung) {
            let ci = match cho_index(c) {
                Some(i) => i,
                None => 0,
            };
            let vi = match jung_index(v) {
                Some(i) => i,
                None => 0,
            };
            let jc = match jong {
                Some(j) => match jong_index(j) {
                    Some(i) => i + 1,
                    None => 0,
                },
                None => 0,
            };
            let syl = compose_syllable(ci, vi, jc);
            push_char(&mut self.out, syl);
            assert(self.out@ =~= old(self).out@ + pending_text(old(self)@));
            return;
        }
        // Jamo that do not make a syllable are committed one by one (a
        // sebeolsik final may stand alone).
        if let Some(c) = cho {
            push_char(&mut self.out, c);
        }
        if let Some(v) = jung {
            push_char(&mut self.out, v);
        }
        if let Some(t) = jong {
            push_char(&mut self.out, t);
        }
        assert(self.out@ =~= old(self).out@ + pending_text(old(self)@));
    }

    /// Feeds one dubeolsik jamo.
    pub fn feed_jamo(&mut self, jamo: char)
        requires
            old(self).wf(),
            cho_seq().contains(jamo) || jung_seq().contains(jamo),
        ensures
            final(self).wf(),
            final(self)@ == jamo_step(old(self)@, jamo),
    {
        if is_vowel_jamo(jamo) {
            self.feed_vowel(jamo);
        } else {
            self.feed_consonant(jamo);
        }
    }

    fn feed_vowel(&mut self, v: char)
        requires
            old(self).wf(),
            jung_seq().contains(v),
        ensures
            final(self).wf(),
            final(self)@ == vowel_step(old(self)@, v),
    {
        if self.jong.is_some() && self.jong_explicit {
            // Sebeolsik: the final's position is explicit, it stays.
            self.flush();
            self.jung = Some(v);
        } else if let Some(jong) = self.jong.take() {
            // The final (the second part of a compound final) moves on to
            // start the next syllable.
            proof { lemma_jamo_closure(jong, jong, jong); }
            let (stay, mover) = match split_jong(jong) {
                Some((first, second)) => (Some(first), second),
                None => (None, jong),
            };
            self.jong = stay;
            self.flush();
            self.cho = Some(mover);
            self.jung = Some(v);
        } else if let Some(cur) = self.jung {
            proof { lemma_jamo_closure(cur, v, cur); }
            if let Some(compound) = combine_jung(cur, v) {
                self.jung = Some(compound);
            } else {
                self.flush();
                self.jung = Some(v);
            }
        } else {
            self.jung = Some(v);
        }
    }

    fn feed_consonant(&mut self, c: char)
        requires
            old(self).wf(),
            cho_seq().contains(c),
        ensures
            final(self).wf(),
            final(self)@ == consonant_step(old(self)@, c),
    {
        if self.jung.is_none() {
            // Only an initial, or nothing: a second consonant commits the
            // first as a lone jamo.
            if self.cho.is_some() {
                self.flush();
            }
            self.cho = Some(c);
        } else if self.cho.is_none() {
            // A lone vowel followed by a consonant: commit the vowel.
            self.flush();
            self.cho = Some(c);
        } else if let Some(cur) = self.jong {
            proof { lemma_jamo_closure(cur, c, cur); }
            if let Some(compound) = combine_jong(cur, c) {
                self.jong = Some(compound);
            } else {
                self.flush();
                self.cho = Some(c);
            }
        } else if jong_index(c).is_some() {
            self.jong = Some(c);
        } else {
            // ㄸ, ㅃ and ㅉ cannot be finals.
            self.flush();
            self.cho = Some(c);
        }
    }

    /// Sebeolsik initial key: starts a new syllable or fills the initial. The
    /// same initial twice makes the double consonant.
    fn feed_cho_explicit(&mut self, c: char)
        requires
            old(self).wf(),
            cho_seq().contains(c),
        ensures
            final(self).wf(),
            final(self)@ == cho_explicit_step(old(self)@, c),
    {
        if self.jung.is_none() && self.jong.is_none() {
            if let Some(cur) = self.cho {
                proof { lemma_jamo_closure(cur, c, cur); }
                if let Some(double) = combine_cho(cur, c) {
                    self.cho = Some(double);
                    return;
                }
            }
        }
        if self.cho.is_some() || self.jung.is_some() || self.jong.is_some() {
            self.flush();
        }
        self.cho = Some(c);
    }

    /// Sebeolsik final key: attaches only to a syllable that has an initial
    /// and a vowel.
    fn feed_jong_explicit(&mut self, t: char)
        requires
            old(self).wf(),
            jong_seq().contains(t),
        ensures
            final(self).wf(),
            final(self)@ == jong_explicit_step(old(self)@, t),
    {
        let attachable = self.cho.is_some() && self.jung.is_some();
        if attachable && self.jong.is_none() {
            self.jong = Some(t);
            self.jong_explicit = true;
            return;
        }
        if let Some(cur) = self.jong {
            proof { lemma_jamo_closure(cur, t, cur); }
            if let Some(compound) = combine_jong(cur, t) {
                self.jong = Some(compound);
                self.jong_explicit = true;
                return;
            }
        }
        // Nowhere to attach: commit what there is and keep the lone final.
        self.flush();
        self.jong = Some(t);
        self.jong_explicit = true;
    }

    /// Characters outside the layout (space, digits, symbols) end the
    /// composition and are copied as they are.
    pub fn feed_passthrough(&mut self, c: char)
        requires
            old(self).wf(),
        ensures
            final(self).wf(),
            final(self)@ == passthrough_step(old(self)@, c),
    {
        self.flush();
        push_char(&mut self.out, c);
    }

    /// Commits what is left in composition and returns the text.
    pub fn finish(self) -> (s: String)
        requires
            self.wf(),
        ensures
            s@ == flush_spec(self@).out,
    {
        let mut me = self;
        me.flush();
        me.out
    }

    /// The committed output, without the syllable in composition.
    pub fn committed(&self) -> (s: &str)
        ensures
            s@ == self@.out,
    {
        self.out.as_str()
    }

    /// Number of key strokes in the syllable in composition. In a real IME's
    /// preedit one backspace removes one jamo key, so an adapter deletes
    /// `committed().chars().count() + pending_key_count()` characters to
    /// erase what is on screen.
    pub fn pending_key_count(&self) -> (n: usize)
        ensures
            n == pending_keys(self@),
    {
        let mut n: usize = 0;
        if self.cho.is_some() {
            n = n + 1;
        }
        if let Some(j) = self.jung {
            n = n + if split_jung(j).is_some() { 2 } else { 1 };
        }
        if let Some(j) = self.jong {
            n = n + if split_jong(j).is_some() { 2 } else { 1 };
        }
        n
    }
}

/// Converts text typed in English mode into the Hangul it was meant to be
/// (dubeolsik). For example `"gksrmf"` gives `"한글"`.
pub fn english_to_hangul(input: &str) -> (s: String)
    ensures
        s@ == compose_keys(Layout::Dubeolsik, input@),
{
    english_to_hangul_with(Layout::Dubeolsik, input)
}

/// Conversion in a given layout; in sebeolsik digit and punctuation keys
/// can be jamo too.
pub fn english_to_hangul_with(layout: Layout, input: &str) -> (s: String)
    ensures
        s@ == compose_keys(layout, input@),
{
    let composer = composer_for(layout, input);
    composer.finish()
}

/// A composer of the layout fed with every key of `input`.
pub fn composer_for(layout: Layout, input: &str) -> (c: Composer)
    ensures
        c@ == feed_keys(initial_state(layout), input@),
        c.wf(),
{
    let keys = chars_of(input);
    let mut composer = Composer::with_layout(layout);
    let mut i: usize = 0;
    while i < keys.len()
        invariant
            i <= keys.len(),
            keys@ == input@,
            composer.wf(),
            composer@ == feed_keys(initial_state(layout), keys@.take(i as int)),
        decreases keys.len() - i,
    {
        proof {
            assert(keys@.take(i + 1).drop_last() =~= keys@.take(i as int));
        }
        composer.feed_key(keys[i]);
        i = i + 1;
    }
    proof {
        assert(keys@.take(keys.len() as int) =~= keys@);
    }
    composer
}


proof fn lemma_pending_text_len(s: ComposerState)
    ensures
        pending_text(s).len() <= pending_keys(s),
        pending_text(s).len() <= slots(s),
        s.cho is Some && s.jung is Some ==> pending_text(s).len() == 1,
{
}

/// Number of filled slots in the syllable in composition.
pub open spec fn slots(s: ComposerState) -> int {
    (if s.cho is Some { 1int } else { 0int }) + (if s.jung is Some { 1int } else { 0int })
        + (if s.jong is Some { 1int } else { 0int })
}

/// The states a composer goes through: valid slots, and a final that did
/// not come from a position-explicit key sits under an initial and a vowel.
pub open spec fn composer_inv(s: ComposerState) -> bool {
    &&& state_wf(s)
    &&& s.jong is None ==> !s.jong_explicit
    &&& (s.jong is Some && !s.jong_explicit) ==> (s.cho is Some && s.jung is Some)
}

proof fn lemma_vowel_bound(s: ComposerState, v: char)
    requires
        composer_inv(s),
        jung_seq().contains(v),
    ensures
        composer_inv(vowel_step(s, v)),
        vowel_step(s, v).out.len() + slots(vowel_step(s, v)) <= s.out.len() + slots(s) + 1,
        spec_split_jung(v) is None ==> vowel_step(s, v).out.len() + pending_keys(vowel_step(s, v))
            <= s.out.len() + pending_keys(s) + 1,
{
    lemma_pending_text_len(s);
    if let Some(j) = s.jong {
        if !s.jong_explicit {
            lemma_jamo_closure(j, j, j);
            match spec_split_jong(j) {
                Some((a, b)) => {
                    lemma_jamo_closure(a, a, a);
                    lemma_pending_text_len(ComposerState { jong: Some(a), ..s });
                },
                None => {
                    lemma_pending_text_len(ComposerState { jong: None, ..s });
                },
            }
        }
    } else if let Some(x) = s.jung {
        match spec_combine_jung(x, v) {
            Some(d) => {
                crate::hangul::lemma_combine_split_inverse(x, v, d);
                lemma_jamo_closure(x, v, d);
                lemma_jamo_closure(d, d, d);
            },
            None => {},
        }
    }
}

proof fn lemma_consonant_bound(s: ComposerState, c: char)
    requires
        composer_inv(s),
        cho_seq().contains(c),
    ensures
        composer_inv(consonant_step(s, c)),
        consonant_step(s, c).out.len() + slots(consonant_step(s, c)) <= s.out.len() + slots(s) + 1,
        spec_split_jong(c) is None ==> consonant_step(s, c).out.len() + pending_keys(consonant_step(s, c))
            <= s.out.len() + pending_keys(s) + 1,
{
    lemma_pending_text_len(s);
    if let Some(x) = s.jong {
        match spec_combine_jong(x, c) {
            Some(d) => {
                crate::hangul::lemma_combine_split_inverse(x, c, d);
                lemma_jamo_closure(x, c, d);
                lemma_jamo_closure(d, d, d);
            },
            None => {},
        }
    }
}

proof fn lemma_cho_explicit_bound(s: ComposerState, c: char)
    requires
        composer_inv(s),
        cho_seq().contains(c),
    ensures
        composer_inv(cho_explicit_step(s, c)),
        cho_explicit_step(s, c).out.len() + slots(cho_explicit_step(s, c)) <= s.out.len() + slots(s) + 1,
{
    lemma_pending_text_len(s);
    if let Some(x) = s.cho {
        lemma_jamo_closure(x, c, x);
    }
}

proof fn lemma_jong_explicit_bound(s: ComposerState, t: char)
    requires
        composer_inv(s),
        jong_seq().contains(t),
    ensures
        composer_inv(jong_explicit_step(s, t)),
        jong_explicit_step(s, t).out.len() + slots(jong_explicit_step(s, t)) <= s.out.len() + slots(s) + 1,
{
    lemma_pending_text_len(s);
    if let Some(x) = s.jong {
        lemma_jamo_closure(x, t, x);
    }
}

/// One key adds at most one to the committed text plus the filled slots.
pub proof fn lemma_key_step_bound(s: ComposerState, key: char)
    requires
        composer_inv(s),
    ensures
        composer_inv(key_step(s, key)),
        key_step(s, key).layout == s.layout,
        key_step(s, key).out.len() + slots(key_step(s, key)) <= s.out.len() + slots(s) + 1,
        s.layout == Layout::Dubeolsik ==> key_step(s, key).out.len() + pending_keys(key_step(s, key))
            <= s.out.len() + pending_keys(s) + 1,
{
    lemma_key_jamo_valid(s.layout, key);
    lemma_pending_text_len(s);
    match spec_key_jamo(s.layout, key) {
        Some(KeyJamo::Dual(c)) => {
            lemma_consonant_bound(s, c);
            if s.layout == Layout::Dubeolsik {
                crate::layout::lemma_dubeolsik_key_simple(key);
            }
        },
        Some(KeyJamo::Jung(v)) => {
            lemma_vowel_bound(s, v);
            if s.layout == Layout::Dubeolsik {
                crate::layout::lemma_dubeolsik_key_simple(key);
            }
        },
        Some(KeyJamo::Cho(c)) => lemma_cho_explicit_bound(s, c),
        Some(KeyJamo::Jong(t)) => lemma_jong_explicit_bound(s, t),
        _ => {},
    }
}

/// The committed text never holds more characters than keys were fed; in
/// dubeolsik, the committed text plus the key strokes still in composition
/// (what backspaces erase on screen) never exceed the keys fed.
pub proof fn lemma_feed_keys_bound(layout: Layout, keys: Seq<char>)
    ensures
        composer_inv(feed_keys(initial_state(layout), keys)),
        feed_keys(initial_state(layout), keys).layout == layout,
        feed_keys(initial_state(layout), keys).out.len() + slots(feed_keys(initial_state(layout), keys))
            <= keys.len(),
        layout == Layout::Dubeolsik ==> feed_keys(initial_state(layout), keys).out.len()
            + pending_keys(feed_keys(initial_state(layout), keys)) <= keys.len(),
        compose_keys(layout, keys).len() <= keys.len(),
        pending_keys(feed_keys(initial_state(layout), keys)) <= 5,
    decreases keys.len(),
{
    if keys.len() > 0 {
        lemma_feed_keys_bound(layout, keys.drop_last());
        lemma_key_step_bound(feed_keys(initial_state(layout), keys.drop_last()), keys.last());
    }
    lemma_pending_text_len(feed_keys(initial_state(layout), keys));
}

} // verus!
