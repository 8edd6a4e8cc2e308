//! The state the macOS badge shows and when it shows it.
//!
//! The badge reads the cursor position and the input mode only: it never
//! watches key strokes nor touches text.
use vstd::prelude::*;
use crate::lexicon::lower_seq;
use crate::text::{chars_eq, chars_of, contains_chars, contains_seq, to_lower};

verus! {

/// The input state shown by the badge.
#[derive(Debug, Clone, Copy, PartialEq, Eq, Structural)]
pub enum Mode {
    EnglishLower,
    EnglishUpper,
    Korean,
}

/// Korean if the input source is Korean, otherwise English, upper case
/// when Caps Lock is on.
pub open spec fn spec_mode_for(korean: bool, caps_lock: bool) -> Mode {
    if korean {
        Mode::Korean
    } else if caps_lock {
        Mode::EnglishUpper
    } else {
        Mode::EnglishLower
    }
}

pub fn mode_for(korean: bool, caps_lock: bool) -> (m: Mode)
    ensures
        m == spec_mode_for(korean, caps_lock),
{
    if korean {
        Mode::Korean
    } else if caps_lock {
        Mode::EnglishUpper
    } else {
        Mode::EnglishLower
    }
}

/// Whether the input source is Korean: the queried answer, or the last
/// known one when the query failed. The result is also the new last known
/// value.
pub fn resolve_korean(queried: Option<bool>, last_known: bool) -> (k: bool)
    ensures
        k == match queried {
            Some(q) => q,
            None => last_known,
        },
{
    match queried {
        Some(q) => q,
        None => last_known,
    }
}

/// `kCGEventFlagMaskAlphaShift`: Caps Lock.
pub const FLAG_ALPHA_SHIFT: u64 = 0x0001_0000;

/// Whether Caps Lock is on in a set of event source flags.
pub fn caps_lock_in_flags(flags: u64) -> (on: bool)
    ensures
        on == (flags & FLAG_ALPHA_SHIFT != 0),
{
    flags & FLAG_ALPHA_SHIFT != 0
}

/// The fragments that mark a Korean input source identifier.
pub open spec fn korean_source_markers() -> Seq<Seq<char>> {
    seq!["korean"@, "hangul"@, "gureum"@, "kime"@, "hangul"@]
}

/// An input source identifier is Korean when, ASCII-lower-cased, it holds
/// one of the markers.
pub open spec fn spec_is_korean_source_id(id: Seq<char>) -> bool {
    exists|i: int| 0 <= i < korean_source_markers().len() && contains_seq(lower_seq(id), #[trigger] korean_source_markers()[i])
}

pub fn is_korean_source_id(id: &str) -> (b: bool)
    ensures
        b == spec_is_korean_source_id(id@),
{
    let chars = chars_of(id);
    let mut lower: Vec<char> = Vec::new();
    let mut i: usize = 0;
    while i < chars.len()
        invariant
            i <= chars.len(),
            lower@ == lower_seq(chars@.take(i as int)),
        decreases chars.len() - i,
    {
        lower.push(to_lower(chars[i]));
        assert(lower_seq(chars@.take(i + 1)) =~= lower_seq(chars@.take(i as int)).push(lower@.last()));
        i = i + 1;
    }
    assert(chars@.take(chars.len() as int) =~= chars@);
    let markers = ["korean", "hangul", "gureum", "kime", "hangul"];
    let ghost ms = korean_source_markers();
    let mut k: usize = 0;
    while k < 5
        invariant
            k <= 5,
            lower@ == lower_seq(id@),
            ms == korean_source_markers(),
            forall|j: int| 0 <= j < 5 ==> markers@[j]@ == ms[j],
            forall|j: int| 0 <= j < k ==> !contains_seq(lower@, #[trigger] ms[j]),
        decreases 5 - k,
    {
        let m = chars_of(markers[k]);
        if contains_chars(&lower, &m) {
            assert(contains_seq(lower_seq(id@), ms[k as int]));
            return true;
        }
        k = k + 1;
    }
    false
}

/// The accessibility roles taken as text input.
pub open spec fn spec_is_text_role(role: Seq<char>) -> bool {
    role == "AXTextField"@ || role == "AXTextArea"@ || role == "AXComboBox"@ || role == "AXSearchField"@
}

pub fn is_text_role(role: &str) -> (b: bool)
    ensures
        b == spec_is_text_role(role@),
{
    let r = chars_of(role);
    chars_eq(&r, &chars_of("AXTextField")) || chars_eq(&r, &chars_of("AXTextArea")) || chars_eq(
        &r,
        &chars_of("AXComboBox"),
    ) || chars_eq(&r, &chars_of("AXSearchField"))
}

/// What the badge does on a poll.
#[derive(Debug, Clone, Copy, PartialEq, Eq, Structural)]
pub enum BadgeAction {
    Hide,
    /// Next to the caret of the focused input.
    ShowAtCaret,
    /// Next to the mouse, when the caret cannot be read (browsers).
    ShowAtMouse,
}

/// The badge shows when enabled and the mouse is over a text input, at the
/// caret when it can be read, next to the mouse otherwise.
pub open spec fn spec_tick_action(enabled: bool, has_pointer: bool, over_text: bool, has_caret: bool) -> BadgeAction {
    if !enabled || !has_pointer || !over_text {
        BadgeAction::Hide
    } else if has_caret {
        BadgeAction::ShowAtCaret
    } else {
        BadgeAction::ShowAtMouse
    }
}

pub fn tick_action(enabled: bool, has_pointer: bool, over_text: bool, has_caret: bool) -> (a: BadgeAction)
    ensures
        a == spec_tick_action(enabled, has_pointer, over_text, has_caret),
{
    if !enabled || !has_pointer || !over_text {
        BadgeAction::Hide
    } else if has_caret {
        BadgeAction::ShowAtCaret
    } else {
        BadgeAction::ShowAtMouse
    }
}

} // verus!
