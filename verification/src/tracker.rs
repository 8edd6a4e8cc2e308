//! Physical key classes and tracking of the last word, shared by the
//! platform adapters.
//!
//! Adapters classify OS key codes as [`KeyClass`] and feed them to a
//! [`WordBuffer`]. Only "which QWERTY key was pressed" is recorded, whatever
//! the active IME; what a Hangul-mode screen shows is reproduced by the
//! composer.
//!
//! Privacy: only the word being typed and the one before it are kept in
//! memory; no other key stroke is stored anywhere.
use vstd::prelude::*;
use crate::text::{pop_char, push_char};

verus! {

/// The class of one physical key.
#[derive(Debug, Clone, Copy, PartialEq, Eq, Structural)]
pub enum KeyClass {
    /// A key that makes part of a word (a Latin letter carrying a jamo).
    Letter(char),
    /// A key that ends a word and is safe to delete and retype (space,
    /// punctuation, digits).
    Boundary(char),
    Backspace,
    /// Enter, cursor movement and other keys after which tracking is given up.
    Clear,
}

/// What a conversion hotkey would act on.
#[derive(Debug)]
pub enum Target {
    /// The word still being typed. The flag tells whether it was just
    /// re-injected by a hotkey conversion, so that all of it is committed on
    /// screen.
    Current(String, bool),
    /// The previous word, committed together with its boundary character.
    Committed(String, char),
}

/// The abstract content of a word buffer.
pub ghost struct WordBufferState {
    pub current: Seq<char>,
    pub last: Option<(Seq<char>, char)>,
    pub converted: bool,
}

/// The word being typed and the one committed before it.
#[derive(Debug)]
pub struct WordBuffer {
    current: String,
    last: Option<(String, char)>,
    /// Whether the current word was re-injected by a hotkey conversion: the
    /// screen text is then fully committed and backspace tracking is not
    /// reliable.
    converted: bool,
}

pub open spec fn empty_buffer() -> WordBufferState {
    WordBufferState { current: Seq::empty(), last: None, converted: false }
}

/// The buffer after one key.
pub open spec fn feed_spec(b: WordBufferState, class: KeyClass) -> WordBufferState {
    match class {
        KeyClass::Letter(c) => if b.converted {
            // Typing after injected text: screen and key buffer no longer
            // correspond, so tracking restarts with a new word.
            WordBufferState { current: seq![c], last: None, converted: false }
        } else {
            WordBufferState { current: b.current.push(c), ..b }
        },
        KeyClass::Boundary(ch) => if b.current.len() == 0 {
            // Boundary typed twice: the previous word is too far now.
            WordBufferState { last: None, converted: false, ..b }
        } else {
            WordBufferState { current: Seq::empty(), last: Some((b.current, ch)), converted: false }
        },
        KeyClass::Backspace => if b.converted {
            empty_buffer()
        } else if b.current.len() > 0 {
            WordBufferState { current: b.current.drop_last(), ..b }
        } else {
            WordBufferState { last: None, ..b }
        },
        KeyClass::Clear => empty_buffer(),
    }
}

/// What `target` returns, as (word, converted flag) or (word, boundary).
pub open spec fn target_spec(b: WordBufferState) -> Option<(Seq<char>, Result<bool, char>)> {
    if b.current.len() > 0 {
        Some((b.current, Ok(b.converted)))
    } else {
        match b.last {
            Some((w, ch)) => Some((w, Err(ch))),
            None => None,
        }
    }
}

/// The view of a target: its word, and its converted flag or its boundary.
pub open spec fn target_view(t: Target) -> (Seq<char>, Result<bool, char>) {
    match t {
        Target::Current(w, conv) => (w@, Ok(conv)),
        Target::Committed(w, ch) => (w@, Err(ch)),
    }
}

impl View for WordBuffer {
    type V = WordBufferState;

    closed spec fn view(&self) -> WordBufferState {
        WordBufferState {
            current: self.current@,
            last: match self.last {
                Some((w, ch)) => Some((w@, ch)),
                None => None,
            },
            converted: self.converted,
        }
    }
}

impl WordBuffer {
    pub fn new() -> (b: Self)
        ensures
            b@ == empty_buffer(),
    {
        WordBuffer { current: String::new(), last: None, converted: false }
    }

    pub fn feed(&mut self, class: KeyClass)
        ensures
            final(self)@ == feed_spec(old(self)@, class),
    {
        match class {
            KeyClass::Letter(c) => {
                if self.converted {
                    self.clear();
                }
                push_char(&mut self.current, c);
                assert(self@.current =~= feed_spec(old(self)@, class).current);
            },
            KeyClass::Boundary(b) => {
                if self.current.as_str().is_empty() {
                    self.last = None;
                } else {
                    let mut word = String::new();
                    std::mem::swap(&mut word, &mut self.current);
                    self.last = Some((word, b));
                }
                self.converted = false;
            },
            KeyClass::Backspace => {
                if self.converted {
                    self.clear();
                } else if pop_char(&mut self.current).is_none() {
                    self.last = None;
                }
            },
            KeyClass::Clear => self.clear(),
        }
    }

    pub fn clear(&mut self)
        ensures
            final(self)@ == empty_buffer(),
    {
        self.current = String::new();
        self.last = None;
        self.converted = false;
    }

    pub fn target(&self) -> (t: Option<Target>)
        ensures
            match t {
                Some(t) => target_spec(self@) == Some(target_view(t)),
                None => target_spec(self@) is None,
            },
    {
        if !self.current.as_str().is_empty() {
            Some(Target::Current(self.current.clone(), self.converted))
        } else {
            match &self.last {
                Some((word, boundary)) => Some(Target::Committed(word.clone(), *boundary)),
                None => None,
            }
        }
    }

    /// Called right after a hotkey conversion: the same key sequence is kept
    /// so that the hotkey again converts back the other way.
    pub fn mark_converted(&mut self)
        ensures
            final(self)@ == (WordBufferState { converted: true, ..old(self)@ }),
    {
        self.converted = true;
    }
}

/// Clearing forgets everything: no word can be targeted afterwards, and a
/// buffer only ever holds the current word and the previous one.
pub proof fn lemma_clear_forgets(b: WordBufferState)
    ensures
        target_spec(feed_spec(b, KeyClass::Clear)) is None,
{
}

/// A boundary after a non-empty word makes that word, with its boundary,
/// the target.
pub proof fn lemma_boundary_commits(b: WordBufferState, ch: char)
    requires
        b.current.len() > 0,
    ensures
        target_spec(feed_spec(b, KeyClass::Boundary(ch))) == Some((b.current, Err::<bool, char>(ch))),
{
}

/// Typing a letter and deleting it with a backspace brings the target back,
/// unless the word had just been converted.
pub proof fn lemma_letter_backspace(b: WordBufferState, c: char)
    requires
        !b.converted,
    ensures
        feed_spec(feed_spec(b, KeyClass::Letter(c)), KeyClass::Backspace) == b,
{
    assert(b.current.push(c).drop_last() =~= b.current);
}


/// A boundary typed while no word is being typed gives up the previous
/// word: nothing can be targeted afterwards.
pub proof fn lemma_repeated_boundary_forgets(b: WordBufferState, ch: char)
    requires
        b.current.len() == 0,
    ensures
        target_spec(feed_spec(b, KeyClass::Boundary(ch))) is None,
{
}

/// Two boundaries in a row leave nothing to target, whatever came before.
pub proof fn lemma_two_boundaries_forget(b: WordBufferState, c1: char, c2: char)
    ensures
        target_spec(feed_spec(feed_spec(b, KeyClass::Boundary(c1)), KeyClass::Boundary(c2))) is None,
{
}

} // verus!
