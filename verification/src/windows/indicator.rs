//! The state the Windows badge shows, where it goes and when it polls.
//!
//! The badge follows the caret of the focused input, above it (below when
//! there is no room), inside the work area of the caret's monitor.
use vstd::prelude::*;

verus! {

/// The input state shown by the badge.
#[derive(Debug, Clone, Copy, PartialEq, Eq, Structural)]
pub enum Mode {
    EnglishLower,
    EnglishUpper,
    Korean,
}

/// The mode stored as a byte: 2 Korean, 1 English upper case, anything
/// else English lower case.
pub open spec fn spec_from_u8(v: u8) -> Mode {
    if v == 2 {
        Mode::Korean
    } else if v == 1 {
        Mode::EnglishUpper
    } else {
        Mode::EnglishLower
    }
}

/// The byte a mode is stored as.
pub open spec fn spec_to_u8(m: Mode) -> u8 {
    match m {
        Mode::EnglishLower => 0,
        Mode::EnglishUpper => 1,
        Mode::Korean => 2,
    }
}

impl Mode {
    pub fn from_u8(v: u8) -> (m: Mode)
        ensures
            m == spec_from_u8(v),
    {
        match v {
            2 => Mode::Korean,
            1 => Mode::EnglishUpper,
            _ => Mode::EnglishLower,
        }
    }

    pub fn to_u8(self) -> (v: u8)
        ensures
            v == spec_to_u8(self),
    {
        match self {
            Mode::EnglishLower => 0,
            Mode::EnglishUpper => 1,
            Mode::Korean => 2,
        }
    }
}

/// Storing a mode as a byte and reading it back gives the same mode.
pub proof fn lemma_mode_byte_roundtrip(m: Mode)
    ensures
        spec_from_u8(spec_to_u8(m)) == m,
{
}

/// Korean when the IME is in Korean mode, otherwise English, upper case
/// when Caps Lock is on.
pub fn mode_for(korean: bool, caps_lock: bool) -> (m: Mode)
    ensures
        m == (if korean {
            Mode::Korean
        } else if caps_lock {
            Mode::EnglishUpper
        } else {
            Mode::EnglishLower
        }),
{
    if korean {
        Mode::Korean
    } else if caps_lock {
        Mode::EnglishUpper
    } else {
        Mode::EnglishLower
    }
}

/// The Korean mode: the IME's answer when querying is on and it answered,
/// the last known mode otherwise. The result is also the new last known
/// mode.
pub fn korean_mode(query_enabled: bool, answer: Option<bool>, last_known: bool) -> (k: bool)
    ensures
        k == (if query_enabled && answer is Some { answer->0 } else { last_known }),
{
    if query_enabled {
        match answer {
            Some(korean) => {
                return korean;
            },
            None => {},
        }
    }
    last_known
}

/// Side of the badge in pixels.
pub const BADGE_SIZE: i32 = 22;
/// Room between the caret and the badge.
pub const GAP: i32 = 2;

pub open spec fn clamp_int(v: int, lo: int, hi: int) -> int {
    if v < lo { lo } else if v > hi { hi } else { v }
}

/// The badge's top-left corner for a caret `(left, top, bottom)` in a
/// monitor work area `(mon_left, mon_top, mon_right, mon_bottom)`: above
/// the caret when it fits under the top of the area, below it otherwise;
/// then kept inside the area.
pub open spec fn spec_badge_position(left: int, top: int, bottom: int, mon_left: int, mon_top: int, mon_right: int, mon_bottom: int) -> (int, int) {
    let above = top - BADGE_SIZE - GAP;
    let y0 = if above >= mon_top { above } else { bottom + GAP };
    let x = clamp_int(left, mon_left, if mon_right - BADGE_SIZE > mon_left { mon_right - BADGE_SIZE } else { mon_left });
    let y = clamp_int(y0, mon_top, if mon_bottom - BADGE_SIZE > mon_top { mon_bottom - BADGE_SIZE } else { mon_top });
    (x, y)
}

pub fn badge_position(left: i32, top: i32, bottom: i32, monitor: (i32, i32, i32, i32)) -> (p: (i32, i32))
    requires
        top >= i32::MIN + BADGE_SIZE + GAP,
        bottom <= i32::MAX - GAP,
        monitor.2 >= i32::MIN + BADGE_SIZE,
        monitor.3 >= i32::MIN + BADGE_SIZE,
    ensures
        p.0 == spec_badge_position(left as int, top as int, bottom as int, monitor.0 as int, monitor.1 as int, monitor.2 as int, monitor.3 as int).0,
        p.1 == spec_badge_position(left as int, top as int, bottom as int, monitor.0 as int, monitor.1 as int, monitor.2 as int, monitor.3 as int).1,
        monitor.0 <= p.0,
        monitor.1 <= p.1,
{
    let (mon_left, mon_top, mon_right, mon_bottom) = monitor;
    let above = top - BADGE_SIZE - GAP;
    let y0 = if above >= mon_top { above } else { bottom + GAP };
    let x_hi = if mon_right - BADGE_SIZE > mon_left { mon_right - BADGE_SIZE } else { mon_left };
    let y_hi = if mon_bottom - BADGE_SIZE > mon_top { mon_bottom - BADGE_SIZE } else { mon_top };
    let x = if left < mon_left { mon_left } else if left > x_hi { x_hi } else { left };
    let y = if y0 < mon_top { mon_top } else if y0 > y_hi { y_hi } else { y0 };
    (x, y)
}

/// The layered window alpha (0..=255) for an opacity in percent.
/// Values above 100 wrap around as the byte cast does.
pub fn alpha_from_percent(percent: u8) -> (a: u8)
    ensures
        a == (percent * 255 / 100) % 256,
{
    let v: u16 = (percent as u16) * 255 / 100;
    (v % 256) as u8
}

/// What the refresh timer does on one tick.
#[derive(Debug, Clone, Copy, PartialEq, Eq, Structural)]
pub struct TimerPlan {
    /// Hide the badge and stop there (the badge is switched off).
    pub hide_only: bool,
    /// Read the opacity setting again (about every two seconds).
    pub refresh_alpha: bool,
    /// Query the mode and the caret and place or hide the badge. While
    /// hidden, only every other tick polls.
    pub poll: bool,
    /// The tick counter afterwards.
    pub next_tick: u32,
}

pub open spec fn spec_timer_plan(enabled: bool, tick: u32, visible: bool) -> TimerPlan {
    if !enabled {
        TimerPlan { hide_only: true, refresh_alpha: false, poll: false, next_tick: tick }
    } else {
        TimerPlan {
            hide_only: false,
            refresh_alpha: tick % 13 == 0,
            poll: visible || tick % 2 == 0,
            next_tick: if tick == u32::MAX { 0 } else { (tick + 1) as u32 },
        }
    }
}

pub fn timer_plan(enabled: bool, tick: u32, visible: bool) -> (p: TimerPlan)
    ensures
        p == spec_timer_plan(enabled, tick, visible),
{
    if !enabled {
        return TimerPlan { hide_only: true, refresh_alpha: false, poll: false, next_tick: tick };
    }
    let next_tick = if tick == u32::MAX { 0 } else { tick + 1 };
    TimerPlan { hide_only: false, refresh_alpha: tick % 13 == 0, poll: visible || tick % 2 == 0, next_tick }
}

} // verus!
