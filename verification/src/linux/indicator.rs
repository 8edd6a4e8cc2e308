//! The state the X11 badge shows, its tracking of the input mode and its
//! update on each poll.
//!
//! X11 has no standard way to ask the IME for its state, so the mode is
//! tracked by watching the Hangul/English toggle keys (only whether they
//! were pressed, never what was typed). The badge stays next to the mouse
//! cursor: X11 has no standard way to read another client's caret either.
use vstd::prelude::*;
use crate::config::split_on;
use crate::number::{decimal_u8, parse_decimal_u8};
use crate::linux::keymap::DEFAULT_TOGGLE_KEYCODES;
use crate::text::{chars_of, contains_chars, contains_seq, to_lower, trim, trim_chars};
use crate::lexicon::lower_seq;

verus! {

/// The input state shown by the badge.
#[derive(Debug, Clone, Copy, PartialEq, Eq, Structural)]
pub enum Mode {
    EnglishLower,
    EnglishUpper,
    Korean,
}

/// Korean while the tracked mode is Korean, otherwise English, upper case
/// when Caps Lock is on.
pub fn mode_for(korean: bool, caps_lock: bool) -> (m: Mode)
    ensures
        m == (if korean {
            Mode::Korean
        } else if caps_lock {
            Mode::EnglishUpper
        } else {
            Mode::EnglishLower
        }),
{
    if korean {
        Mode::Korean
    } else if caps_lock {
        Mode::EnglishUpper
    } else {
        Mode::EnglishLower
    }
}

/// The key codes read from a comma-separated list: the parts that read as
/// a `u8` once trimmed, in order.
pub open spec fn readable_keycodes(parts: Seq<Seq<char>>) -> Seq<u8>
    decreases parts.len(),
{
    if parts.len() == 0 {
        Seq::empty()
    } else {
        let rest = readable_keycodes(parts.drop_last());
        match decimal_u8(trim(parts.last())) {
            Some(k) => rest.push(k),
            None => rest,
        }
    }
}

/// The toggle keys: those of the `linux_toggle_keycodes` setting, or the
/// defaults when it is absent or names none.
pub open spec fn spec_toggle_keycodes(value: Option<Seq<char>>) -> Seq<u8> {
    let listed = match value {
        Some(v) => readable_keycodes(split_on(v, ',')),
        None => Seq::empty(),
    };
    if listed.len() > 0 { listed } else { DEFAULT_TOGGLE_KEYCODES@ }
}

pub fn toggle_keycodes(value: Option<&str>) -> (keys: Vec<u8>)
    ensures
        keys@ == spec_toggle_keycodes(match value {
            Some(v) => Some(v@),
            None => None,
        }),
{
    let mut out: Vec<u8> = Vec::new();
    match value {
        Some(v) => {
            let chars = chars_of(v);
            let mut cur: Vec<char> = Vec::new();
            let mut i: usize = 0;
            while i < chars.len()
                invariant
                    i <= chars.len(),
                    chars@ == v@,
                    split_on(chars@.take(i as int), ',').len() >= 1,
                    out@ == readable_keycodes(split_on(chars@.take(i as int), ',').drop_last()),
                    cur@ == split_on(chars@.take(i as int), ',').last(),
                decreases chars.len() - i,
            {
                let ghost p = split_on(chars@.take(i as int), ',');
                assert(chars@.take(i + 1).drop_last() =~= chars@.take(i as int));
                assert(chars@.take(i + 1).last() == chars@[i as int]);
                if chars[i] == ',' {
                    let t = trim_chars(&cur);
                    match parse_decimal_u8(&t) {
                        Some(k) => out.push(k),
                        None => {},
                    }
                    cur = Vec::new();
                    assert(split_on(chars@.take(i + 1), ',').drop_last() =~= p);
                    assert(p =~= p.drop_last().push(p.last()));
                } else {
                    cur.push(chars[i]);
                    assert(split_on(chars@.take(i + 1), ',').drop_last() =~= p.drop_last());
                }
                i = i + 1;
            }
            assert(chars@.take(chars.len() as int) =~= chars@);
            let ghost p = split_on(chars@, ',');
            let t = trim_chars(&cur);
            match parse_decimal_u8(&t) {
                Some(k) => out.push(k),
                None => {},
            }
            assert(p =~= p.drop_last().push(p.last()));
        },
        None => {},
    }
    if out.len() == 0 {
        out = vec![DEFAULT_TOGGLE_KEYCODES[0], DEFAULT_TOGGLE_KEYCODES[1]];
        assert(out@ =~= DEFAULT_TOGGLE_KEYCODES@);
    }
    out
}

/// `_NET_WM_WINDOW_OPACITY` for an opacity in percent: the share of
/// 0xFFFF_FFFF, wrapped to 32 bits as the cast does.
pub fn x11_opacity(percent: u8) -> (o: u32)
    ensures
        o == (percent * 0xFFFF_FFFFu64 / 100) % 0x1_0000_0000,
{
    let v: u64 = (percent as u64) * 0xFFFF_FFFF / 100;
    (v % 0x1_0000_0000) as u32
}

/// What `String::from_utf8_lossy` returns: the text of UTF-8 bytes, each
/// invalid sequence replaced by U+FFFD.
pub uninterp spec fn utf8_lossy(bytes: Seq<u8>) -> Seq<char>;

/// Wrapper for `String::from_utf8_lossy`; its result is a function of the
/// bytes alone, not restated here.
#[verifier::external_body]
fn from_utf8_lossy(bytes: &[u8]) -> (s: String)
    ensures
        s@ == utf8_lossy(bytes@),
{
    String::from_utf8_lossy(bytes).into_owned()
}

/// Cursor names that mean text input, whatever the theme.
pub open spec fn text_cursor_names() -> Seq<Seq<char>> {
    seq!["xterm"@, "text"@, "ibeam"@, "cursor-text"@]
}

/// A cursor name (as the X server gives it, bytes) means text input when,
/// read as UTF-8 and ASCII-lower-cased, it holds one of the names.
pub open spec fn spec_is_text_cursor(name: Seq<u8>) -> bool {
    exists|i: int| 0 <= i < text_cursor_names().len() && contains_seq(lower_seq(utf8_lossy(name)), #[trigger] text_cursor_names()[i])
}

pub fn is_text_cursor(name: &[u8]) -> (b: bool)
    ensures
        b == spec_is_text_cursor(name@),
{
    let text = from_utf8_lossy(name);
    let chars = chars_of(text.as_str());
    let mut lower: Vec<char> = Vec::new();
    let mut i: usize = 0;
    while i < chars.len()
        invariant
            i <= chars.len(),
            lower@ == lower_seq(chars@.take(i as int)),
        decreases chars.len() - i,
    {
        lower.push(to_lower(chars[i]));
        assert(lower_seq(chars@.take(i + 1)) =~= lower_seq(chars@.take(i as int)).push(lower@.last()));
        i = i + 1;
    }
    assert(chars@.take(chars.len() as int) =~= chars@);
    let names = ["xterm", "text", "ibeam", "cursor-text"];
    let ghost ns = text_cursor_names();
    let mut k: usize = 0;
    while k < 4
        invariant
            k <= 4,
            lower@ == lower_seq(utf8_lossy(name@)),
            ns == text_cursor_names(),
            forall|j: int| 0 <= j < 4 ==> names@[j]@ == ns[j],
            forall|j: int| 0 <= j < k ==> !contains_seq(lower@, #[trigger] ns[j]),
        decreases 4 - k,
    {
        let n = chars_of(names[k]);
        if contains_chars(&lower, &n) {
            assert(contains_seq(lower_seq(utf8_lossy(name@)), ns[k as int]));
            return true;
        }
        k = k + 1;
    }
    false
}

/// Size of a recorded X event.
pub const EVENT_SIZE: usize = 32;
/// The X `KeyPress` event code.
pub const KEY_PRESS: u8 = 2;

/// The `k`-th recorded event is a press of a toggle key.
pub open spec fn toggle_press_at(data: Seq<u8>, toggles: Seq<u8>, k: int) -> bool {
    data[EVENT_SIZE * k] & 0x7F == KEY_PRESS && toggles.contains(data[EVENT_SIZE * k + 1])
}

/// Whether the first `n` recorded events hold an odd number of toggle
/// presses.
pub open spec fn odd_toggles(data: Seq<u8>, toggles: Seq<u8>, n: int) -> bool
    decreases n,
{
    if n <= 0 { false } else { odd_toggles(data, toggles, n - 1) != toggle_press_at(data, toggles, n - 1) }
}

/// The tracked mode after recorded key events (whole 32-byte events only):
/// each press of a toggle key flips it.
pub fn apply_key_events(korean: bool, data: &[u8], toggles: &[u8]) -> (k: bool)
    ensures
        k == (korean != odd_toggles(data@, toggles@, (data@.len() / 32) as int)),
{
    let n = data.len() / EVENT_SIZE;
    let mut k = korean;
    let mut i: usize = 0;
    while i < n
        invariant
            i <= n == data@.len() / 32,
            k == (korean != odd_toggles(data@, toggles@, i as int)),
        decreases n - i,
    {
        assert(i * 32 + 1 < data.len()) by (nonlinear_arith)
            requires i < n, n == data@.len() / 32;
        let base = i * EVENT_SIZE;
        let code = data[base] & 0x7F;
        let key = data[base + 1];
        let mut pressed = false;
        if code == KEY_PRESS {
            let mut j: usize = 0;
            while j < toggles.len() && !pressed
                invariant
                    j <= toggles.len(),
                    pressed ==> j < toggles.len() && toggles@[j as int] == key,
                    !pressed ==> forall|m: int| 0 <= m < j ==> toggles@[m] != key,
                decreases toggles.len() - j + (if pressed { 0int } else { 1int }),
            {
                if toggles[j] == key {
                    pressed = true;
                } else {
                    j = j + 1;
                }
            }
            assert(pressed == toggles@.contains(key));
        }
        assert(pressed == toggle_press_at(data@, toggles@, i as int));
        if pressed {
            k = !k;
        }
        i = i + 1;
    }
    k
}

/// Offset of the badge from the mouse cursor.
pub const OFFSET: i32 = 18;

/// A position on the screen.
#[derive(Debug, Clone, Copy, PartialEq, Eq, Structural)]
pub struct Point {
    pub x: i32,
    pub y: i32,
}

/// What the badge window shows.
#[derive(Debug, Clone, Copy, PartialEq, Eq, Structural)]
pub struct BadgeView {
    pub visible: bool,
    pub shown: Option<Mode>,
}

/// The window requests of one poll.
#[derive(Debug, Clone, Copy, PartialEq, Eq, Structural)]
pub struct PollActions {
    pub unmap: bool,
    /// Move the window there.
    pub place: Option<Point>,
    pub map: bool,
    /// Put the image of this mode.
    pub draw: Option<Mode>,
}

pub open spec fn no_actions() -> PollActions {
    PollActions { unmap: false, place: None, map: false, draw: None }
}

/// One poll: nothing while the badge is switched off; away from text
/// input, hide a visible badge; over text input, move the badge next to the
/// mouse, map it if hidden, and draw the mode if it changed.
pub open spec fn spec_poll_step(view: BadgeView, show: bool, over_text: bool, pointer: (i16, i16), mode: Mode) -> (BadgeView, PollActions) {
    if !show {
        (view, no_actions())
    } else if !over_text {
        if view.visible {
            (BadgeView { visible: false, shown: None }, PollActions { unmap: true, ..no_actions() })
        } else {
            (view, no_actions())
        }
    } else {
        (
            BadgeView { visible: true, shown: Some(mode) },
            PollActions {
                unmap: false,
                place: Some(Point { x: (pointer.0 + OFFSET) as i32, y: (pointer.1 + OFFSET) as i32 }),
                map: !view.visible,
                draw: if view.shown == Some(mode) { None } else { Some(mode) },
            },
        )
    }
}

pub fn poll_step(view: BadgeView, show: bool, over_text: bool, pointer: (i16, i16), mode: Mode) -> (r: (BadgeView, PollActions))
    ensures
        r == spec_poll_step(view, show, over_text, pointer, mode),
{
    let none = PollActions { unmap: false, place: None, map: false, draw: None };
    if !show {
        return (view, none);
    }
    if !over_text {
        if view.visible {
            return (BadgeView { visible: false, shown: None }, PollActions { unmap: true, place: None, map: false, draw: None });
        }
        return (view, none);
    }
    let same = match view.shown {
        Some(m) => m == mode,
        None => false,
    };
    let place = Point { x: pointer.0 as i32 + OFFSET, y: pointer.1 as i32 + OFFSET };
    (
        BadgeView { visible: true, shown: Some(mode) },
        PollActions { unmap: false, place: Some(place), map: !view.visible, draw: if same { None } else { Some(mode) } },
    )
}

/// A poll over text input leaves the badge visible with the current mode
/// drawn, and draws only when the mode shown changes.
pub proof fn lemma_poll_shows_mode(view: BadgeView, over_text: bool, pointer: (i16, i16), mode: Mode)
    requires
        over_text,
    ensures
        spec_poll_step(view, true, over_text, pointer, mode).0 == (BadgeView { visible: true, shown: Some(mode) }),
        spec_poll_step(view, true, over_text, pointer, mode).1.draw is Some <==> view.shown != Some(mode),
{
}

} // verus!
