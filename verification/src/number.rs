//! Decimal numbers as `str::parse` reads them.
use vstd::prelude::*;

verus! {

pub open spec fn is_digit(c: char) -> bool {
    '0' <= c <= '9'
}

/// The number written by decimal digits.
pub open spec fn digits_value(s: Seq<char>) -> int
    decreases s.len(),
{
    if s.len() == 0 { 0 } else { digits_value(s.drop_last()) * 10 + ((s.last() as int) - ('0' as int)) }
}

/// The digits after an optional `+`.
pub open spec fn unsigned_digits(s: Seq<char>) -> Seq<char> {
    if s.len() > 0 && s[0] == '+' { s.drop_first() } else { s }
}

pub open spec fn all_digits(d: Seq<char>) -> bool {
    forall|i: int| 0 <= i < d.len() ==> is_digit(#[trigger] d[i])
}

/// `u8::from_str`: an optional `+` followed by one or more decimal digits,
/// of a value that fits in a `u8`.
pub open spec fn decimal_u8(s: Seq<char>) -> Option<u8> {
    let d = unsigned_digits(s);
    if d.len() > 0 && all_digits(d) && digits_value(d) <= 255 {
        Some(digits_value(d) as u8)
    } else {
        None
    }
}

/// Reads a `u8` as `u8::from_str` does.
pub fn parse_decimal_u8(s: &Vec<char>) -> (r: Option<u8>)
    ensures
        r == decimal_u8(s@),
{
    let start: usize = if s.len() > 0 && s[0] == '+' { 1 } else { 0 };
    let ghost d = unsigned_digits(s@);
    assert(d =~= s@.skip(start as int));
    if start >= s.len() {
        assert(d.len() == 0);
        return None;
    }
    let mut value: u32 = 0;
    let mut i: usize = start;
    while i < s.len()
        invariant
            start <= i <= s.len(),
            d == s@.skip(start as int),
            d == unsigned_digits(s@),
            forall|k: int| 0 <= k < i - start ==> is_digit(#[trigger] d[k]),
            value == if digits_value(d.take(i - start)) <= 256 { digits_value(d.take(i - start)) } else { 256 },
            digits_value(d.take(i - start)) >= 0,
        decreases s.len() - i,
    {
        let c = s[i];
        if !('0' <= c && c <= '9') {
            assert(!is_digit(d[i - start]));
            return None;
        }
        let ghost pre = d.take(i - start);
        assert(d.take(i + 1 - start).drop_last() =~= pre);
        assert(d.take(i + 1 - start).last() == c);
        let digit = (c as u32) - ('0' as u32);
        value = if value * 10 + digit > 256 { 256 } else { value * 10 + digit };
        i = i + 1;
    }
    assert(d.take(s.len() - start) =~= d);
    if value <= 255 {
        Some(value as u8)
    } else {
        None
    }
}



/// `u64::from_str`: an optional `+` followed by one or more decimal
/// digits, of a value that fits in a `u64`.
pub open spec fn decimal_u64(s: Seq<char>) -> Option<u64> {
    let d = unsigned_digits(s);
    if d.len() > 0 && all_digits(d) && digits_value(d) <= u64::MAX {
        Some(digits_value(d) as u64)
    } else {
        None
    }
}

/// Reads a `u64` as `u64::from_str` does.
pub fn parse_decimal_u64(s: &Vec<char>) -> (r: Option<u64>)
    ensures
        r == decimal_u64(s@),
{
    let start: usize = if s.len() > 0 && s[0] == '+' { 1 } else { 0 };
    let ghost d = unsigned_digits(s@);
    assert(d =~= s@.skip(start as int));
    if start >= s.len() {
        assert(d.len() == 0);
        return None;
    }
    // The value so far, or `None` once it no longer fits.
    let mut value: Option<u64> = Some(0);
    let mut i: usize = start;
    while i < s.len()
        invariant
            start <= i <= s.len(),
            d == s@.skip(start as int),
            d == unsigned_digits(s@),
            forall|k: int| 0 <= k < i - start ==> is_digit(#[trigger] d[k]),
            value == (if digits_value(d.take(i - start)) <= u64::MAX {
                Some(digits_value(d.take(i - start)) as u64)
            } else {
                None::<u64>
            }),
            digits_value(d.take(i - start)) >= 0,
        decreases s.len() - i,
    {
        let c = s[i];
        if !('0' <= c && c <= '9') {
            assert(!is_digit(d[i - start]));
            return None;
        }
        let ghost pre = d.take(i - start);
        assert(d.take(i + 1 - start).drop_last() =~= pre);
        assert(d.take(i + 1 - start).last() == c);
        let digit = (c as u64) - ('0' as u64);
        value = match value {
            Some(v) => if v > (u64::MAX - digit) / 10 {
                None
            } else {
                Some(v * 10 + digit)
            },
            None => None,
        };
        i = i + 1;
    }
    assert(d.take(s.len() - start) =~= d);
    value
}

} // verus!
