//! The replacement plan of a hotkey conversion, shared by the platforms.
//!
//! How many characters to delete and what to type is decided by the
//! composition rules alone, whatever the OS. The backspace count follows
//! the common behaviour of Hangul IMEs: a committed syllable takes one
//! backspace, a syllable in composition (preedit) one backspace per jamo key.
use vstd::prelude::*;
use crate::compose::{
    compose_keys, composer_for, english_to_hangul_with, feed_keys, initial_state,
    lemma_feed_keys_bound, pending_keys,
};
use crate::layout::Layout;
use crate::text::{char_count, push_char};
use crate::tracker::Target;

verus! {

/// A replacement: how many backspaces, then which text to type.
#[derive(Debug, PartialEq, Eq)]
pub struct ReplacePlan {
    pub backspaces: usize,
    pub replacement: String,
}

/// The keys, boundary and injected flag of a conversion target.
pub open spec fn target_parts(target: Target) -> (Seq<char>, Option<char>, bool) {
    match target {
        Target::Current(keys, injected) => (keys@, None, injected),
        Target::Committed(keys, b) => (keys@, Some(b), false),
    }
}

/// Characters on screen for `keys` typed in Hangul mode. A word still being
/// typed has its last syllable in preedit, erased one jamo key per
/// backspace; a word ended by a boundary, or re-injected text, is fully
/// committed.
pub open spec fn korean_screen_backspaces(layout: Layout, keys: Seq<char>, preedit: bool) -> int {
    if preedit {
        feed_keys(initial_state(layout), keys).out.len() + pending_keys(feed_keys(initial_state(layout), keys))
    } else {
        compose_keys(layout, keys).len() as int
    }
}

/// The plan for a target, as (backspaces, replacement): in Hangul mode the
/// composed text is erased and the keys typed as they are; in English mode
/// the keys are erased and their Hangul typed. A committed word also erases
/// and retypes its boundary.
pub open spec fn plan_spec(layout: Layout, korean_mode: bool, target: Target) -> (int, Seq<char>) {
    let (keys, boundary, injected) = target_parts(target);
    let (backspaces, replacement) = if korean_mode {
        (korean_screen_backspaces(layout, keys, boundary is None && !injected), keys)
    } else {
        (keys.len() as int, compose_keys(layout, keys))
    };
    match boundary {
        Some(b) => (backspaces + 1, replacement.push(b)),
        None => (backspaces, replacement),
    }
}

/// Builds the replacement plan from the current IME mode and the target.
pub fn build_replace_plan(layout: Layout, korean_mode: bool, target: &Target) -> (plan: ReplacePlan)
    requires
        target_parts(*target).0.len() + 6 <= usize::MAX,
    ensures
        plan.backspaces == plan_spec(layout, korean_mode, *target).0,
        plan.replacement@ == plan_spec(layout, korean_mode, *target).1,
{
    let (keys, boundary, injected) = match target {
        Target::Current(keys, injected) => (keys.as_str(), None, *injected),
        Target::Committed(keys, b) => (keys.as_str(), Some(*b), false),
    };
    proof { lemma_feed_keys_bound(layout, keys@); }
    let (backspaces, mut replacement) = if korean_mode {
        // Screen: the keys composed in the layout. Erase it and type the keys.
        let backspaces = if boundary.is_none() && !injected {
            // The last syllable is still in preedit: backspaces eat jamo.
            let composer = composer_for(layout, keys);
            char_count(composer.committed()) + composer.pending_key_count()
        } else {
            // Ended by a boundary or just injected: all of it is committed.
            char_count(english_to_hangul_with(layout, keys).as_str())
        };
        (backspaces, keys.to_string())
    } else {
        // Screen: the English keys. Erase them and type their Hangul.
        (char_count(keys), english_to_hangul_with(layout, keys))
    };
    let mut backspaces = backspaces;
    if let Some(b) = boundary {
        backspaces = backspaces + 1;
        push_char(&mut replacement, b);
    }
    ReplacePlan { backspaces, replacement }
}


/// What a plan does, per mode: in English mode it erases the keys (and the
/// boundary) and types their Hangul (and the boundary); in Hangul mode it
/// types the keys (and the boundary), and for a committed word or
/// re-injected text it erases the composed text (and the boundary).
pub proof fn lemma_plan_shape(layout: Layout, korean_mode: bool, target: Target)
    ensures
        ({
            let (keys, boundary, injected) = target_parts(target);
            let e: int = if boundary is Some { 1 } else { 0 };
            let bs: Seq<char> = match boundary {
                Some(b) => seq![b],
                None => Seq::empty(),
            };
            let plan = plan_spec(layout, korean_mode, target);
            &&& !korean_mode ==> plan == (keys.len() + e, compose_keys(layout, keys) + bs)
            &&& korean_mode ==> plan.1 == keys + bs
            &&& korean_mode && (boundary is Some || injected) ==> plan.0 == compose_keys(layout, keys).len() + e
        }),
{
    let (keys, boundary, injected) = target_parts(target);
    assert(keys + Seq::<char>::empty() =~= keys);
    assert(compose_keys(layout, keys) + Seq::<char>::empty() =~= compose_keys(layout, keys));
    if let Some(b) = boundary {
        assert(keys.push(b) =~= keys + seq![b]);
        assert(compose_keys(layout, keys).push(b) =~= compose_keys(layout, keys) + seq![b]);
    }
}


/// In Hangul mode a word still being typed is erased one backspace per
/// committed character plus one per jamo key stroke of the syllable in
/// composition, since a syllable in preedit is erased jamo by jamo (for
/// `gksrmf`, 한 and then ㄱ, ㅡ, ㄹ: four backspaces); the keys are typed
/// back as they are.
pub proof fn lemma_preedit_backspaces(layout: Layout, target: Target)
    requires
        target matches Target::Current(_, injected) && !injected,
    ensures
        ({
            let keys = target_parts(target).0;
            let st = feed_keys(initial_state(layout), keys);
            &&& plan_spec(layout, true, target).0 == st.out.len() + pending_keys(st)
            &&& plan_spec(layout, true, target).1 == keys
        }),
{
}

/// A word ended by a boundary, in Hangul mode, is fully committed: one
/// backspace per composed character and one for the boundary.
pub proof fn lemma_committed_backspaces(layout: Layout, target: Target)
    requires
        target is Committed,
    ensures
        plan_spec(layout, true, target).0 == compose_keys(layout, target_parts(target).0).len() + 1,
{
}

} // verus!
