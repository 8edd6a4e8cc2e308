//! The values the C interface exchanges: sensitivity codes and verdict
//! codes (kept in step with `haneng.h`).
use vstd::prelude::*;
use crate::detect::{Sensitivity, Verdict};

verus! {

/// Verdict codes.
pub const HANENG_KEEP: i32 = 0;
pub const HANENG_TO_HANGUL: i32 = 1;
pub const HANENG_TO_ENGLISH: i32 = 2;

/// The sensitivity of a code: 0 conservative, 2 aggressive, anything else
/// balanced.
pub fn sensitivity_from_code(code: i32) -> (s: Sensitivity)
    ensures
        s == (if code == 0 {
            Sensitivity::Conservative
        } else if code == 2 {
            Sensitivity::Aggressive
        } else {
            Sensitivity::Balanced
        }),
{
    if code == 0 {
        Sensitivity::Conservative
    } else if code == 2 {
        Sensitivity::Aggressive
    } else {
        Sensitivity::Balanced
    }
}

/// The code of a verdict and the converted text it carries.
pub fn verdict_code(v: Verdict) -> (r: (i32, Option<String>))
    ensures
        match v {
            Verdict::Keep => r.0 == HANENG_KEEP && r.1 is None,
            Verdict::ToHangul(t) => r.0 == HANENG_TO_HANGUL && r.1 == Some(t),
            Verdict::ToEnglish(t) => r.0 == HANENG_TO_ENGLISH && r.1 == Some(t),
        },
{
    match v {
        Verdict::Keep => (HANENG_KEEP, None),
        Verdict::ToHangul(t) => (HANENG_TO_HANGUL, Some(t)),
        Verdict::ToEnglish(t) => (HANENG_TO_ENGLISH, Some(t)),
    }
}

} // verus!
