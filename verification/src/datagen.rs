//! The table generator's own logic: bigram symbol streams, the libhangul
//! keyboard description, and the text of the generated Rust tables.
//!
//! Reading the frequency lists and counting weighted bigrams (floating
//! point) is left to the generator program.
use vstd::prelude::*;
use vstd::string::StringSliceAdditionalSpecFns;
use crate::hangul::{is_syllable, cho_seq, jong_seq, jung_seq, lemma_table_values, spec_is_syllable, CHOSEONG, JONGSEONG, JUNGSEONG};
use crate::lexicon::{jamo_symbol, ko_char_symbols, ko_symbols, korean_symbols};
use crate::config::split_on;
use crate::number::unsigned_digits;
use crate::text::{
    char_from_u32, chars_eq, chars_of, push_char, push_str, find_char, find_chars, find_in, find_seq, lemma_find_char_bound, lemma_find_seq_bound,
    slice_chars, trim_chars,
};

verus! {

/// A word of syllables only gives a symbol stream.
proof fn lemma_syllables_have_symbols(w: Seq<char>)
    requires
        forall|i: int| 0 <= i < w.len() ==> spec_is_syllable(#[trigger] w[i]),
    ensures
        ko_symbols(w) is Some,
    decreases w.len(),
{
    if w.len() > 0 {
        assert forall|i: int| 0 <= i < w.drop_last().len() implies spec_is_syllable(#[trigger] w.drop_last()[i]) by {
            assert(w.drop_last()[i] == w[i]);
        }
        lemma_syllables_have_symbols(w.drop_last());
        assert(spec_is_syllable(w[w.len() - 1]));
        assert(ko_char_symbols(w.last()) is Some);
    }
}

/// The jamo symbol stream of a word of syllables (no boundaries): each
/// syllable gives its initial, vowel and (if any) final jamo symbol.
pub fn jamo_symbols(word: &str) -> (v: Vec<usize>)
    requires
        forall|i: int| 0 <= i < word@.len() ==> spec_is_syllable(#[trigger] word@[i]),
    ensures
        ko_symbols(word@) == Some(v@.map_values(|x: usize| x as int)),
{
    let w = chars_of(word);
    proof {
        lemma_syllables_have_symbols(w@);
    }
    korean_symbols(&w).unwrap()
}

/// The symbol of a compatibility jamo: its offset from U+3131, plus one.
pub fn jamo_index(c: char) -> (i: usize)
    requires
        0x3131 <= c as u32,
    ensures
        i as int == jamo_symbol(c),
{
    (c as u32 - 0x3131 + 1) as usize
}

/// The symbol stream of a lower-case word: `a` is 1, `z` 26 (byte by byte).
pub fn en_symbols(word: &str) -> (v: Vec<usize>)
    requires
        forall|i: int| 0 <= i < word.spec_bytes().len() ==> #[trigger] word.spec_bytes()[i] >= 97,
    ensures
        v@ == word.spec_bytes().map_values(|b: u8| (b - 96) as usize),
{
    let b = word.as_bytes();
    let mut v: Vec<usize> = Vec::new();
    let mut i: usize = 0;
    while i < b.len()
        invariant
            i <= b.len(),
            b@ == word.spec_bytes(),
            v@ == b@.take(i as int).map_values(|x: u8| (x - 96) as usize),
            forall|k: int| 0 <= k < b@.len() ==> #[trigger] b@[k] >= 97,
        decreases b.len() - i,
    {
        assert(b@[i as int] >= 97);
        v.push((b[i] - 97 + 1) as usize);
        assert(b@.take(i + 1).map_values(|x: u8| (x - 96) as usize) =~= b@.take(i as int).map_values(
            |x: u8| (x - 96) as usize,
        ).push((b@[i as int] - 96) as usize));
        i = i + 1;
    }
    assert(b@.take(b.len() as int) =~= b@);
    v
}

/// A frequency-list token that enters the English tables: non-empty, lower
/// case a to z only.
pub open spec fn spec_is_english_token(w: Seq<u8>) -> bool {
    w.len() > 0 && forall|i: int| 0 <= i < w.len() ==> 97 <= #[trigger] w[i] <= 122
}

pub fn is_english_token(word: &str) -> (b: bool)
    ensures
        b == spec_is_english_token(word.spec_bytes()),
{
    let b = word.as_bytes();
    if b.len() == 0 {
        return false;
    }
    let mut i: usize = 0;
    while i < b.len()
        invariant
            i <= b.len(),
            b@ == word.spec_bytes(),
            forall|k: int| 0 <= k < i ==> 97 <= #[trigger] b@[k] <= 122,
        decreases b.len() - i,
    {
        if b[i] < 97 || b[i] > 122 {
            return false;
        }
        i = i + 1;
    }
    true
}

/// A frequency-list token that enters the Korean tables: non-empty,
/// precomposed syllables only.
pub open spec fn spec_is_korean_token(w: Seq<char>) -> bool {
    w.len() > 0 && forall|i: int| 0 <= i < w.len() ==> spec_is_syllable(#[trigger] w[i])
}

pub fn is_korean_token(word: &str) -> (b: bool)
    ensures
        b == spec_is_korean_token(word@),
{
    let w = chars_of(word);
    if w.len() == 0 {
        return false;
    }
    let mut i: usize = 0;
    while i < w.len()
        invariant
            i <= w.len(),
            w@ == word@,
            forall|k: int| 0 <= k < i ==> spec_is_syllable(#[trigger] w@[k]),
        decreases w.len() - i,
    {
        if !is_syllable(w[i]) {
            return false;
        }
        i = i + 1;
    }
    true
}

/// Kinds of keyboard entries: initial, vowel, final jamo, or a plain
/// character.
pub const KIND_INITIAL: u8 = 0;
pub const KIND_VOWEL: u8 = 1;
pub const KIND_FINAL: u8 = 2;
pub const KIND_CHAR: u8 = 3;

/// A conjoining jamo code point (U+1100 block) as (kind, compatibility
/// jamo); any other value is a plain character.
pub open spec fn spec_positioned_jamo(value: u32) -> (u8, char) {
    if 0x1100 <= value <= 0x1112 {
        (KIND_INITIAL, cho_seq()[value - 0x1100])
    } else if 0x1161 <= value <= 0x1175 {
        (KIND_VOWEL, jung_seq()[value - 0x1161])
    } else if 0x11A8 <= value <= 0x11C2 {
        (KIND_FINAL, jong_seq()[value - 0x11A8])
    } else {
        (KIND_CHAR, value as char)
    }
}

pub open spec fn valid_scalar(v: u32) -> bool {
    v <= 0xD7FF || (0xE000 <= v <= 0x10FFFF)
}

pub fn positioned_jamo(value: u32) -> (r: (u8, char))
    requires
        valid_scalar(value),
    ensures
        r == spec_positioned_jamo(value),
{
    proof {
        lemma_table_values();
    }
    assert(CHOSEONG@ == cho_seq() && JUNGSEONG@ == jung_seq() && JONGSEONG@ == jong_seq());
    if 0x1100 <= value && value <= 0x1112 {
        (KIND_INITIAL, CHOSEONG[(value - 0x1100) as usize])
    } else if 0x1161 <= value && value <= 0x1175 {
        (KIND_VOWEL, JUNGSEONG[(value - 0x1161) as usize])
    } else if 0x11A8 <= value && value <= 0x11C2 {
        (KIND_FINAL, JONGSEONG[(value - 0x11A8) as usize])
    } else {
        (KIND_CHAR, char_from_u32(value).unwrap())
    }
}

pub open spec fn is_hex_digit(c: char) -> bool {
    ('0' <= c <= '9') || ('a' <= c <= 'f') || ('A' <= c <= 'F')
}

pub open spec fn hex_digit_value(c: char) -> int {
    if '0' <= c <= '9' {
        (c as int) - ('0' as int)
    } else if 'a' <= c <= 'f' {
        (c as int) - ('a' as int) + 10
    } else {
        (c as int) - ('A' as int) + 10
    }
}

/// The number written by hexadecimal digits.
pub open spec fn hex_value(s: Seq<char>) -> int
    decreases s.len(),
{
    if s.len() == 0 { 0 } else { hex_value(s.drop_last()) * 16 + hex_digit_value(s.last()) }
}

/// `u32::from_str_radix(s, 16)`: an optional `+` followed by one or more
/// hexadecimal digits, of a value that fits in a `u32`.
pub open spec fn hex_u32(s: Seq<char>) -> Option<u32> {
    let d = unsigned_digits(s);
    if d.len() > 0 && (forall|i: int| 0 <= i < d.len() ==> is_hex_digit(#[trigger] d[i])) && hex_value(d) <= u32::MAX {
        Some(hex_value(d) as u32)
    } else {
        None
    }
}

/// Reads hexadecimal digits as `u32::from_str_radix(s, 16)` does.
pub fn parse_hex_u32(s: &Vec<char>) -> (r: Option<u32>)
    ensures
        r == hex_u32(s@),
{
    let start: usize = if s.len() > 0 && s[0] == '+' { 1 } else { 0 };
    let ghost d = unsigned_digits(s@);
    assert(d =~= s@.skip(start as int));
    if start >= s.len() {
        assert(d.len() == 0);
        return None;
    }
    let mut value: u64 = 0;
    let mut i: usize = start;
    while i < s.len()
        invariant
            start <= i <= s.len(),
            d == s@.skip(start as int),
            d == unsigned_digits(s@),
            forall|k: int| 0 <= k < i - start ==> is_hex_digit(#[trigger] d[k]),
            value == if hex_value(d.take(i - start)) <= 0x1_0000_0000 { hex_value(d.take(i - start)) } else { 0x1_0000_0000 },
            hex_value(d.take(i - start)) >= 0,
        decreases s.len() - i,
    {
        let c = s[i];
        let digit: u64 = if '0' <= c && c <= '9' {
            (c as u64) - ('0' as u64)
        } else if 'a' <= c && c <= 'f' {
            (c as u64) - ('a' as u64) + 10
        } else if 'A' <= c && c <= 'F' {
            (c as u64) - ('A' as u64) + 10
        } else {
            assert(!is_hex_digit(d[i - start]));
            return None;
        };
        let ghost pre = d.take(i - start);
        assert(d.take(i + 1 - start).drop_last() =~= pre);
        assert(d.take(i + 1 - start).last() == c);
        value = if value * 16 + digit > 0x1_0000_0000 { 0x1_0000_0000 } else { value * 16 + digit };
        i = i + 1;
    }
    assert(d.take(s.len() - start) =~= d);
    if value <= 0xFFFF_FFFF {
        Some(value as u32)
    } else {
        None
    }
}

/// How an item line of a libhangul keyboard starts.
pub open spec fn item_prefix() -> Seq<char> {
    seq!['<', 'i', 't', 'e', 'm', ' ', 'k', 'e', 'y', '=', '"', '0', 'x']
}

/// What separates the key from the value in an item line.
pub open spec fn value_separator() -> Seq<char> {
    seq!['"', ' ', 'v', 'a', 'l', 'u', 'e', '=', '"', '0', 'x']
}

/// One line of a libhangul keyboard description (`<item key="0x.."
/// value="0x.."/>`): `Some(Some(entry))` for an item, `Some(None)` for a
/// line that is no item, `None` for an item whose numbers do not read (the
/// generator stops there).
pub open spec fn keyboard_line(line: Seq<char>) -> Option<Option<(char, u8, char)>> {
    let t = crate::text::trim(line);
    if !(t.len() >= 13 && t.take(13) == item_prefix()) {
        Some(None)
    } else {
        let rest = t.skip(13);
        match find_seq(rest, value_separator()) {
            None => Some(None),
            Some(i) => {
                let rest2 = rest.skip(i + 11);
                match find_char(rest2, '"') {
                    None => Some(None),
                    Some(j) => match (hex_u32(rest.take(i)), hex_u32(rest2.take(j))) {
                        (Some(k), Some(v)) => if valid_scalar(k) && valid_scalar(v) {
                            Some(Some((k as char, spec_positioned_jamo(v).0, spec_positioned_jamo(v).1)))
                        } else {
                            None
                        },
                        _ => None,
                    },
                }
            },
        }
    }
}

/// The entries of the lines, in order; `None` once a line is `None`.
pub open spec fn keyboard_lines(lines: Seq<Seq<char>>) -> Option<Seq<(char, u8, char)>>
    decreases lines.len(),
{
    if lines.len() == 0 {
        Some(Seq::empty())
    } else {
        match (keyboard_lines(lines.drop_last()), keyboard_line(lines.last())) {
            (Some(es), Some(Some(e))) => Some(es.push(e)),
            (Some(es), Some(None)) => Some(es),
            _ => None,
        }
    }
}

/// Number of printable ASCII keys a keyboard describes.
pub const KEYBOARD_ENTRIES: usize = 94;

/// The (ASCII key, kind, jamo or character) entries of a libhangul
/// keyboard description; `None` when an item does not read or there are
/// not exactly 94 of them.
pub open spec fn spec_keyboard_entries(text: Seq<char>) -> Option<Seq<(char, u8, char)>> {
    match keyboard_lines(split_on(text, '\n')) {
        Some(es) => if es.len() == KEYBOARD_ENTRIES { Some(es) } else { None },
        None => None,
    }
}

fn parse_keyboard_line(line: &Vec<char>) -> (r: Option<Option<(char, u8, char)>>)
    ensures
        r == keyboard_line(line@),
{
    let t = trim_chars(line);
    let prefix = vec!['<', 'i', 't', 'e', 'm', ' ', 'k', 'e', 'y', '=', '"', '0', 'x'];
    assert(prefix@ =~= item_prefix());
    if t.len() < 13 {
        return Some(None);
    }
    let head = slice_chars(&t, 0, 13);
    assert(head@ =~= t@.take(13));
    if !chars_eq(&head, &prefix) {
        return Some(None);
    }
    let rest = slice_chars(&t, 13, t.len());
    assert(rest@ =~= t@.skip(13));
    let sep = vec!['"', ' ', 'v', 'a', 'l', 'u', 'e', '=', '"', '0', 'x'];
    assert(sep@ =~= value_separator());
    let i = match find_chars(&rest, &sep) {
        Some(i) => i,
        None => return Some(None),
    };
    proof {
        lemma_find_seq_bound(rest@, sep@);
    }
    assert(i + 11 <= rest.len());
    let rest2 = slice_chars(&rest, i + 11, rest.len());
    assert(rest2@ =~= rest@.skip(i + 11));
    let j = match find_in(&rest2, '"') {
        Some(j) => j,
        None => return Some(None),
    };
    proof {
        lemma_find_char_bound(rest2@, '"');
    }
    let key_hex = slice_chars(&rest, 0, i);
    let value_hex = slice_chars(&rest2, 0, j);
    assert(key_hex@ =~= rest@.take(i as int));
    assert(value_hex@ =~= rest2@.take(j as int));
    let k = match parse_hex_u32(&key_hex) {
        Some(k) => k,
        None => return None,
    };
    let v = match parse_hex_u32(&value_hex) {
        Some(v) => v,
        None => return None,
    };
    let key = match char_from_u32(k) {
        Some(c) => c,
        None => return None,
    };
    if !(v <= 0xD7FF || (0xE000 <= v && v <= 0x10FFFF)) {
        return None;
    }
    let (kind, jamo) = positioned_jamo(v);
    Some(Some((key, kind, jamo)))
}

/// Reads a libhangul keyboard description.
pub fn keyboard_entries(text: &str) -> (r: Option<Vec<(char, u8, char)>>)
    ensures
        match r {
            Some(v) => spec_keyboard_entries(text@) == Some(v@),
            None => spec_keyboard_entries(text@) is None,
        },
{
    let chars = chars_of(text);
    let mut out: Vec<(char, u8, char)> = Vec::new();
    // Once an item does not read, the entries are lost.
    let mut failed = false;
    let mut cur: Vec<char> = Vec::new();
    let mut i: usize = 0;
    while i < chars.len()
        invariant
            i <= chars.len(),
            chars@ == text@,
            split_on(chars@.take(i as int), '\n').len() >= 1,
            keyboard_lines(split_on(chars@.take(i as int), '\n').drop_last()) == (if failed {
                None
            } else {
                Some(out@)
            }),
            cur@ == split_on(chars@.take(i as int), '\n').last(),
        decreases chars.len() - i,
    {
        let ghost p = split_on(chars@.take(i as int), '\n');
        assert(chars@.take(i + 1).drop_last() =~= chars@.take(i as int));
        assert(chars@.take(i + 1).last() == chars@[i as int]);
        if chars[i] == '\n' {
            assert(split_on(chars@.take(i + 1), '\n').drop_last() =~= p);
            assert(p =~= p.drop_last().push(p.last()));
            match parse_keyboard_line(&cur) {
                Some(Some(e)) => out.push(e),
                Some(None) => {},
                None => {
                    failed = true;
                },
            }
            cur = Vec::new();
        } else {
            cur.push(chars[i]);
            assert(split_on(chars@.take(i + 1), '\n').drop_last() =~= p.drop_last());
        }
        i = i + 1;
    }
    assert(chars@.take(chars.len() as int) =~= chars@);
    let ghost p = split_on(chars@, '\n');
    assert(p =~= p.drop_last().push(p.last()));
    match parse_keyboard_line(&cur) {
        Some(Some(e)) => out.push(e),
        Some(None) => {},
        None => {
            failed = true;
        },
    }
    if !failed && out.len() == KEYBOARD_ENTRIES {
        Some(out)
    } else {
        None
    }
}

/// The decimal digits of a natural number.
pub open spec fn nat_text(n: nat) -> Seq<char>
    decreases n,
{
    if n < 10 {
        seq![((n + 48) as u32) as char]
    } else {
        nat_text(n / 10).push((((n % 10) + 48) as u32) as char)
    }
}

/// The decimal text of an integer, with a leading `-` when negative.
pub open spec fn int_text(n: int) -> Seq<char> {
    if n < 0 { seq!['-'] + nat_text((-n) as nat) } else { nat_text(n as nat) }
}

/// Appends the decimal text of a number.
pub fn push_unsigned(out: &mut String, n: u64)
    ensures
        final(out)@ == old(out)@ + nat_text(n as nat),
    decreases n,
{
    if n >= 10 {
        push_unsigned(out, n / 10);
    }
    let d = (n % 10) as u8 + 48;
    push_char(out, d as char);
    assert(out@ =~= old(out)@ + nat_text(n as nat));
}

/// Appends the decimal text of a signed number.
pub fn push_signed(out: &mut String, n: i16)
    ensures
        final(out)@ == old(out)@ + int_text(n as int),
{
    if n < 0 {
        push_char(out, '-');
        let m = (0 - (n as i32)) as u64;
        push_unsigned(out, m);
        assert(out@ =~= old(out)@ + int_text(n as int));
    } else {
        push_unsigned(out, n as u64);
    }
}

/// What `format!("{:?}", s)` gives for a string: the quoted, escaped text.
pub uninterp spec fn debug_str_text(s: Seq<char>) -> Seq<char>;

/// What `format!("{:?}", c)` gives for a character: the quoted, escaped
/// character.
pub uninterp spec fn debug_char_text(c: char) -> Seq<char>;

/// Wrapper for the `Debug` formatting of a `str`; the escaping rules are
/// std's and are not restated here.
#[verifier::external_body]
fn debug_str(s: &str) -> (r: String)
    ensures
        r@ == debug_str_text(s@),
{
    format!("{:?}", s)
}

/// Wrapper for the `Debug` formatting of a `char`; the escaping rules are
/// std's and are not restated here.
#[verifier::external_body]
fn debug_char(c: char) -> (r: String)
    ensures
        r@ == debug_char_text(c),
{
    format!("{:?}", c)
}

/// The word array of the generated lexicon: one quoted word per line.
pub open spec fn word_array_text(name: Seq<char>, words: Seq<Seq<char>>) -> Seq<char> {
    "pub static "@ + name + ": [&str; "@ + nat_text(words.len()) + "] = [\n"@ + word_lines(words) + "];\n"@
}

pub open spec fn word_lines(words: Seq<Seq<char>>) -> Seq<char>
    decreases words.len(),
{
    if words.len() == 0 { Seq::empty() } else { word_lines(words.drop_last()) + "    "@ + debug_str_text(words.last()) + ",\n"@ }
}

/// Appends the declaration of a word array.
pub fn write_word_array(out: &mut String, name: &str, words: &Vec<String>)
    ensures
        final(out)@ == old(out)@ + word_array_text(name@, words@.map_values(|w: String| w@)),
{
    let ghost ws = words@.map_values(|w: String| w@);
    push_str(out, "pub static ");
    push_str(out, name);
    push_str(out, ": [&str; ");
    push_unsigned(out, words.len() as u64);
    push_str(out, "] = [\n");
    let ghost head = out@;
    let mut i: usize = 0;
    while i < words.len()
        invariant
            i <= words.len(),
            ws == words@.map_values(|w: String| w@),
            out@ == head + word_lines(ws.take(i as int)),
        decreases words.len() - i,
    {
        push_str(out, "    ");
        let d = debug_str(words[i].as_str());
        push_str(out, d.as_str());
        push_str(out, ",\n");
        assert(ws.take(i + 1).drop_last() =~= ws.take(i as int));
        i = i + 1;
    }
    push_str(out, "];\n");
    assert(ws.take(words.len() as int) =~= ws);
    assert(out@ =~= old(out)@ + word_array_text(name@, ws));
}

/// The row lines of a bigram table: the cells of each row, comma-separated,
/// in brackets.
pub open spec fn cells_text(row: Seq<i16>) -> Seq<char>
    decreases row.len(),
{
    if row.len() == 0 {
        Seq::empty()
    } else if row.len() == 1 {
        int_text(row[0] as int)
    } else {
        cells_text(row.drop_last()) + ", "@ + int_text(row.last() as int)
    }
}

pub open spec fn row_lines(table: Seq<Seq<i16>>) -> Seq<char>
    decreases table.len(),
{
    if table.len() == 0 { Seq::empty() } else { row_lines(table.drop_last()) + "    ["@ + cells_text(table.last()) + "],\n"@ }
}

/// The bigram table of the generated lexicon.
pub open spec fn bigram_text(name: Seq<char>, table: Seq<Seq<i16>>, symbols: nat) -> Seq<char> {
    "pub static "@ + name + ": [[i16; "@ + nat_text(symbols) + "]; "@ + nat_text(symbols) + "] = [\n"@ + row_lines(table)
        + "];\n"@
}

/// Appends the declaration of a bigram table.
pub fn write_bigram(out: &mut String, name: &str, table: &Vec<Vec<i16>>, symbols: usize)
    ensures
        final(out)@ == old(out)@ + bigram_text(name@, table@.map_values(|r: Vec<i16>| r@), symbols as nat),
{
    let ghost t = table@.map_values(|r: Vec<i16>| r@);
    push_str(out, "pub static ");
    push_str(out, name);
    push_str(out, ": [[i16; ");
    push_unsigned(out, symbols as u64);
    push_str(out, "]; ");
    push_unsigned(out, symbols as u64);
    push_str(out, "] = [\n");
    let ghost head = out@;
    let mut i: usize = 0;
    while i < table.len()
        invariant
            i <= table.len(),
            t == table@.map_values(|r: Vec<i16>| r@),
            out@ == head + row_lines(t.take(i as int)),
        decreases table.len() - i,
    {
        push_str(out, "    [");
        let ghost before = out@;
        let row = &table[i];
        let mut j: usize = 0;
        while j < row.len()
            invariant
                j <= row.len(),
                i < table.len(),
                t == table@.map_values(|r: Vec<i16>| r@),
                row@ == t[i as int],
                before == head + row_lines(t.take(i as int)) + "    ["@,
                out@ == before + cells_text(row@.take(j as int)),
            decreases row.len() - j,
        {
            if j > 0 {
                push_str(out, ", ");
            }
            push_signed(out, row[j]);
            assert(row@.take(j + 1).drop_last() =~= row@.take(j as int));
            j = j + 1;
        }
        assert(row@.take(row.len() as int) =~= row@);
        push_str(out, "],\n");
        assert(t.take(i + 1).drop_last() =~= t.take(i as int));
        i = i + 1;
    }
    push_str(out, "];\n");
    assert(t.take(table.len() as int) =~= t);
    assert(out@ =~= old(out)@ + bigram_text(name@, t, symbols as nat));
}

/// The entry lines of a keyboard table.
pub open spec fn entry_lines(entries: Seq<(char, u8, char)>) -> Seq<char>
    decreases entries.len(),
{
    if entries.len() == 0 {
        Seq::empty()
    } else {
        let e = entries.last();
        entry_lines(entries.drop_last()) + "    ("@ + debug_char_text(e.0) + ", "@ + nat_text(e.1 as nat) + ", "@
            + debug_char_text(e.2) + "),\n"@
    }
}

/// The keyboard table of the generated layout data.
pub open spec fn keyboard_text(name: Seq<char>, entries: Seq<(char, u8, char)>) -> Seq<char> {
    "/// (키, 종류: 0=초성 1=중성 2=종성 3=일반, 자모/문자)\npub static "@ + name + ": [(char, u8, char); "@ + nat_text(
        entries.len(),
    ) + "] = [\n"@ + entry_lines(entries) + "];\n"@
}

/// Appends the declaration of a keyboard table.
pub fn write_keyboard(out: &mut String, name: &str, entries: &Vec<(char, u8, char)>)
    ensures
        final(out)@ == old(out)@ + keyboard_text(name@, entries@),
{
    push_str(out, "/// (키, 종류: 0=초성 1=중성 2=종성 3=일반, 자모/문자)\npub static ");
    push_str(out, name);
    push_str(out, ": [(char, u8, char); ");
    push_unsigned(out, entries.len() as u64);
    push_str(out, "] = [\n");
    let ghost head = out@;
    let mut i: usize = 0;
    while i < entries.len()
        invariant
            i <= entries.len(),
            out@ == head + entry_lines(entries@.take(i as int)),
        decreases entries.len() - i,
    {
        let (key, kind, jamo) = entries[i];
        push_str(out, "    (");
        let k = debug_char(key);
        push_str(out, k.as_str());
        push_str(out, ", ");
        push_unsigned(out, kind as u64);
        push_str(out, ", ");
        let j = debug_char(jamo);
        push_str(out, j.as_str());
        push_str(out, "),\n");
        assert(entries@.take(i + 1).drop_last() =~= entries@.take(i as int));
        i = i + 1;
    }
    push_str(out, "];\n");
    assert(entries@.take(entries.len() as int) =~= entries@);
    assert(out@ =~= old(out)@ + keyboard_text(name@, entries@));
}

} // verus!
