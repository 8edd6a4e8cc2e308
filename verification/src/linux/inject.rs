//! Typing arbitrary text through XTest: each character's keysym is mapped
//! for a moment on a spare key code (one with no keysym at all), pressed,
//! and the mapping undone afterwards.
use vstd::prelude::*;

verus! {

/// The keysym of a character: Latin-1 characters are their own keysym,
/// others are 0x0100_0000 plus the code point.
pub open spec fn spec_keysym_for(c: char) -> u32 {
    if (c as u32) < 0x100 { c as u32 } else { (0x0100_0000 + (c as u32)) as u32 }
}

pub fn keysym_for(c: char) -> (k: u32)
    ensures
        k == spec_keysym_for(c),
{
    let v = c as u32;
    if v < 0x100 {
        v
    } else {
        0x0100_0000 + v
    }
}

/// The group of at most `per` keysyms that starts at `start`.
pub open spec fn keysym_group(s: Seq<u32>, per: int, start: int) -> Seq<u32> {
    s.subrange(start, if start + per < s.len() { start + per } else { s.len() as int })
}

pub open spec fn all_zero(g: Seq<u32>) -> bool {
    forall|j: int| 0 <= j < g.len() ==> g[j] == 0
}

/// Where the first group, from `start` on, whose keysyms are all empty
/// begins.
pub open spec fn first_empty_group(s: Seq<u32>, per: int, start: int) -> Option<int>
    decreases s.len() - start,
{
    if per <= 0 || start < 0 || start >= s.len() {
        None
    } else if all_zero(keysym_group(s, per, start)) {
        Some(start)
    } else if start + per >= s.len() {
        None
    } else {
        first_empty_group(s, per, start + per)
    }
}

/// The first key code, from `min` on, whose `per` keysyms are all empty
/// (keysyms as the server lists them, `per` per key code).
pub fn spare_keycode(min: u8, keysyms: &[u32], per: usize) -> (r: Option<u8>)
    requires
        per > 0,
        keysyms@.len() <= (256 - min) * per,
    ensures
        match first_empty_group(keysyms@, per as int, 0) {
            Some(start) => r == Some((min + start / (per as int)) as u8),
            None => r is None,
        },
{
    let len = keysyms.len();
    let mut i: usize = 0;
    let mut start: usize = 0;
    while start < len
        invariant
            per > 0,
            len == keysyms@.len(),
            len <= (256 - min) * per,
            start == i * per,
            first_empty_group(keysyms@, per as int, 0) == first_empty_group(keysyms@, per as int, start as int),
        decreases len - start,
    {
        assert(i < 256 - min) by (nonlinear_arith)
            requires start == i * per, start < len, len <= (256 - min) * per, per > 0;
        let end = if len - start > per { start + per } else { len };
        let mut j: usize = start;
        let mut zero = true;
        while j < end && zero
            invariant
                start <= j <= end <= len,
                len == keysyms@.len(),
                zero ==> forall|m: int| start <= m < j ==> keysyms@[m] == 0,
                !zero ==> j < end && keysyms@[j as int] != 0,
            decreases end - j + (if zero { 1int } else { 0int }),
        {
            if keysyms[j] != 0 {
                zero = false;
            } else {
                j = j + 1;
            }
        }
        proof {
            let g = keysym_group(keysyms@, per as int, start as int);
            assert(g =~= keysyms@.subrange(start as int, end as int));
            if zero {
                assert(all_zero(g));
            } else {
                assert(g[j - start] != 0);
            }
        }
        if zero {
            assert((start as int) / (per as int) == i) by (nonlinear_arith)
                requires start == i * per, per > 0;
            return Some(min + i as u8);
        }
        if end == len {
            return None;
        }
        assert(start + per == (i + 1) * per) by (nonlinear_arith)
            requires start == i * per;
        i = i + 1;
        start = end;
    }
    None
}

} // verus!
