//! The settings window's own logic: reading the release answer, comparing
//! versions, and the badge options it edits.
//!
//! The network is used only when the user presses the button; the request
//! itself and the installation are the caller's work.
use vstd::prelude::*;
use crate::config::{
    lemma_lookup_prefix, lemma_lookup_single_miss, lemma_lookup_without_other, lemma_set_extra_read, lookup, without_key,
    Config, ConfigState,
};
use crate::number::{decimal_u64, parse_decimal_u64};
use crate::text::{
    chars_of, find_char, find_chars, find_in, find_seq, lemma_find_char_bound, lemma_find_seq_bound, slice_chars, string_of,
    str_eq,
};

verus! {

/// The state of the update check.
#[derive(Debug, Clone, PartialEq, Eq)]
pub enum UpdateState {
    Idle,
    Checking,
    UpToDate,
    /// The tag of a newer version (such as "v0.2.0").
    Available(String),
    Installing,
    Error(String),
}

/// The tag in `"tag_name": "v0.1.2"`: after the first `"tag_name"`, the
/// text between the next two double quotes.
pub open spec fn spec_extract_tag_name(json: Seq<char>) -> Option<Seq<char>> {
    match find_seq(json, "\"tag_name\""@) {
        None => None,
        Some(i) => {
            let rest = json.skip(i + 10);
            match find_char(rest, '"') {
                None => None,
                Some(s) => {
                    let after = rest.skip(s + 1);
                    match find_char(after, '"') {
                        None => None,
                        Some(e) => Some(after.take(e)),
                    }
                },
            }
        },
    }
}

/// The tag name of a release answer (the least parsing that needs no JSON
/// library).
pub fn extract_tag_name(json: &str) -> (r: Option<String>)
    ensures
        match r {
            Some(t) => spec_extract_tag_name(json@) == Some(t@),
            None => spec_extract_tag_name(json@) is None,
        },
{
    let chars = chars_of(json);
    let key = chars_of("\"tag_name\"");
    proof {
        reveal_strlit("\"tag_name\"");
    }
    let i = match find_chars(&chars, &key) {
        Some(i) => i,
        None => return None,
    };
    proof {
        lemma_find_seq_bound(chars@, key@);
        assert(key@.len() == 10);
        assert(find_seq(chars@, key@) == Some(i as int));
        assert(i + key@.len() <= chars@.len());
    }
    assert(i + 10 <= chars.len());
    let rest = slice_chars(&chars, i + 10, chars.len());
    assert(rest@ =~= chars@.skip(i + 10));
    let s = match find_in(&rest, '"') {
        Some(s) => s,
        None => return None,
    };
    proof {
        lemma_find_char_bound(rest@, '"');
    }
    let after = slice_chars(&rest, s + 1, rest.len());
    assert(after@ =~= rest@.skip(s + 1));
    let e = match find_in(&after, '"') {
        Some(e) => e,
        None => return None,
    };
    proof {
        lemma_find_char_bound(after@, '"');
    }
    let tag = slice_chars(&after, 0, e);
    assert(tag@ =~= after@.take(e as int));
    Some(string_of(&tag))
}

/// The sequence without its leading `c` characters (`trim_start_matches`).
pub open spec fn trim_start_char(s: Seq<char>, c: char) -> Seq<char>
    decreases s.len(),
{
    if s.len() > 0 && s[0] == c { trim_start_char(s.drop_first(), c) } else { s }
}

/// A version `major.minor.patch` after any leading `v`: the first two
/// dots split it, each part read as a `u64` (the last part takes the rest,
/// further dots included).
pub open spec fn version_triple(s: Seq<char>) -> Option<(u64, u64, u64)> {
    let t = trim_start_char(s, 'v');
    match find_char(t, '.') {
        None => None,
        Some(i) => {
            let r = t.skip(i + 1);
            match find_char(r, '.') {
                None => None,
                Some(j) => match (decimal_u64(t.take(i)), decimal_u64(r.take(j)), decimal_u64(r.skip(j + 1))) {
                    (Some(a), Some(b), Some(c)) => Some((a, b, c)),
                    _ => None,
                },
            }
        },
    }
}

pub open spec fn triple_gt(t: (u64, u64, u64), c: (u64, u64, u64)) -> bool {
    t.0 > c.0 || (t.0 == c.0 && (t.1 > c.1 || (t.1 == c.1 && t.2 > c.2)))
}

/// Whether `tag` ("v0.2.0") is a newer version than `current` ("0.1.2");
/// false when either does not read as a version.
pub open spec fn spec_is_newer(tag: Seq<char>, current: Seq<char>) -> bool {
    match (version_triple(tag), version_triple(current)) {
        (Some(t), Some(c)) => triple_gt(t, c),
        _ => false,
    }
}

fn triple(s: &str) -> (r: Option<(u64, u64, u64)>)
    ensures
        r == version_triple(s@),
{
    let chars = chars_of(s);
    let mut k: usize = 0;
    assert(chars@.skip(0) =~= chars@);
    while k < chars.len() && chars[k] == 'v'
        invariant
            k <= chars.len(),
            trim_start_char(chars@, 'v') == trim_start_char(chars@.skip(k as int), 'v'),
        decreases chars.len() - k,
    {
        assert(chars@.skip(k as int).drop_first() =~= chars@.skip(k + 1));
        k = k + 1;
    }
    let t = slice_chars(&chars, k, chars.len());
    assert(t@ =~= chars@.skip(k as int));
    assert(trim_start_char(t@, 'v') == t@);
    let i = match find_in(&t, '.') {
        Some(i) => i,
        None => return None,
    };
    proof {
        lemma_find_char_bound(t@, '.');
    }
    let r = slice_chars(&t, i + 1, t.len());
    assert(r@ =~= t@.skip(i + 1));
    let j = match find_in(&r, '.') {
        Some(j) => j,
        None => return None,
    };
    proof {
        lemma_find_char_bound(r@, '.');
    }
    let p0 = slice_chars(&t, 0, i);
    let p1 = slice_chars(&r, 0, j);
    let p2 = slice_chars(&r, j + 1, r.len());
    assert(p0@ =~= t@.take(i as int));
    assert(p1@ =~= r@.take(j as int));
    assert(p2@ =~= r@.skip(j + 1));
    let a = parse_decimal_u64(&p0);
    let b = parse_decimal_u64(&p1);
    let c = parse_decimal_u64(&p2);
    match (a, b, c) {
        (Some(a), Some(b), Some(c)) => Some((a, b, c)),
        _ => None,
    }
}

/// SemVer comparison of a release tag with the running version.
pub fn is_newer(tag: &str, current: &str) -> (b: bool)
    ensures
        b == spec_is_newer(tag@, current@),
{
    match (triple(tag), triple(current)) {
        (Some(t), Some(c)) => t.0 > c.0 || (t.0 == c.0 && (t.1 > c.1 || (t.1 == c.1 && t.2 > c.2))),
        _ => false,
    }
}

/// The state after a release answer was read: an error when it holds no
/// tag, a newer version, or up to date.
pub fn release_state(body: &str, current: &str) -> (s: UpdateState)
    ensures
        match spec_extract_tag_name(body@) {
            None => s matches UpdateState::Error(_),
            Some(tag) => if spec_is_newer(tag, current@) {
                s matches UpdateState::Available(t) && t@ == tag
            } else {
                s == UpdateState::UpToDate
            },
        },
{
    let tag = match extract_tag_name(body) {
        Some(t) => t,
        None => return UpdateState::Error(string_of(&chars_of("릴리스 정보를 해석할 수 없음"))),
    };
    if is_newer(tag.as_str(), current) {
        UpdateState::Available(tag)
    } else {
        UpdateState::UpToDate
    }
}

/// The badge options the settings window edits.
#[derive(Debug, Clone, Copy, PartialEq, Eq, Structural)]
pub struct BadgeOptions {
    /// Show the badge at start.
    pub show_badge: bool,
    /// The start mode where the IME does not answer: `None` automatic,
    /// `Some(true)` Korean, `Some(false)` English.
    pub initial_mode: Option<bool>,
}

/// The options a configuration holds: the badge shows unless
/// `hover_indicator` is `off`; `initial_mode` is `korean`, `english` or
/// anything else (automatic).
pub open spec fn spec_badge_options(c: ConfigState) -> BadgeOptions {
    BadgeOptions {
        show_badge: lookup(c.extras, "hover_indicator"@) != Some("off"@),
        initial_mode: match lookup(c.extras, "initial_mode"@) {
            Some(v) => if v == "korean"@ {
                Some(true)
            } else if v == "english"@ {
                Some(false)
            } else {
                None
            },
            None => None,
        },
    }
}

/// The value written for `hover_indicator`: empty (the key is removed)
/// when the badge shows.
pub open spec fn hover_value(show: bool) -> Seq<char> {
    if show { Seq::empty() } else { "off"@ }
}

/// The value written for `initial_mode`: empty when automatic.
pub open spec fn initial_mode_value(m: Option<bool>) -> Seq<char> {
    match m {
        None => Seq::empty(),
        Some(true) => "korean"@,
        Some(false) => "english"@,
    }
}

/// The adapter settings after `set_extra(key, value)`.
pub open spec fn set_extra_spec(extras: Seq<(Seq<char>, Seq<char>)>, key: Seq<char>, value: Seq<char>) -> Seq<(Seq<char>, Seq<char>)> {
    without_key(extras, key) + (if value.len() > 0 { seq![(key, value)] } else { Seq::empty() })
}

/// The configuration after saving the options.
pub open spec fn spec_save_options(c: ConfigState, o: BadgeOptions) -> ConfigState {
    let e1 = set_extra_spec(c.extras, "hover_indicator"@, hover_value(o.show_badge));
    ConfigState { extras: set_extra_spec(e1, "initial_mode"@, initial_mode_value(o.initial_mode)), ..c }
}

/// Reads the options from a configuration.
pub fn load_badge_options(config: &Config) -> (o: BadgeOptions)
    ensures
        o == spec_badge_options(config@),
{
    let show_badge = match config.extra("hover_indicator") {
        Some(v) => !str_eq(v, "off"),
        None => true,
    };
    let initial_mode = match config.extra("initial_mode") {
        Some(v) => if str_eq(v, "korean") {
            Some(true)
        } else if str_eq(v, "english") {
            Some(false)
        } else {
            None
        },
        None => None,
    };
    BadgeOptions { show_badge, initial_mode }
}

/// Writes the options into a configuration.
pub fn save_badge_options(config: &mut Config, options: BadgeOptions)
    ensures
        final(config)@ == spec_save_options(old(config)@, options),
{
    config.set_extra("hover_indicator", if options.show_badge { "" } else { "off" });
    let mode = match options.initial_mode {
        None => "",
        Some(true) => "korean",
        Some(false) => "english",
    };
    config.set_extra("initial_mode", mode);
    proof {
        reveal_strlit("");
    }
}


/// Setting a key changes only the lookups of that key.
pub proof fn lemma_set_extra_other(e: Seq<(Seq<char>, Seq<char>)>, key: Seq<char>, value: Seq<char>, k: Seq<char>)
    requires
        key != k,
    ensures
        lookup(set_extra_spec(e, key, value), k) == lookup(e, k),
{
    lemma_lookup_without_other(e, key, k);
    let tail: Seq<(Seq<char>, Seq<char>)> = if value.len() > 0 { seq![(key, value)] } else { Seq::empty() };
    lemma_lookup_prefix(without_key(e, key), tail, k);
    if value.len() > 0 {
        lemma_lookup_single_miss((key, value), k);
    } else {
        assert(lookup(tail, k) is None);
    }
}

/// Saving the badge options and reading them back gives the same options.
pub proof fn lemma_badge_options_roundtrip(c: ConfigState, o: BadgeOptions)
    ensures
        spec_badge_options(spec_save_options(c, o)) == o,
{
    reveal_strlit("hover_indicator");
    reveal_strlit("initial_mode");
    reveal_strlit("off");
    reveal_strlit("korean");
    reveal_strlit("english");
    let e1 = set_extra_spec(c.extras, "hover_indicator"@, hover_value(o.show_badge));
    let e2 = set_extra_spec(e1, "initial_mode"@, initial_mode_value(o.initial_mode));
    assert("hover_indicator"@.len() != "initial_mode"@.len());
    lemma_set_extra_other(e1, "initial_mode"@, initial_mode_value(o.initial_mode), "hover_indicator"@);
    lemma_set_extra_read(ConfigState { extras: c.extras, ..c }, "hover_indicator"@, hover_value(o.show_badge));
    lemma_set_extra_read(ConfigState { extras: e1, ..c }, "initial_mode"@, initial_mode_value(o.initial_mode));
    assert("korean"@.len() != "english"@.len());
    assert("off"@.len() > 0);
}


/// Version order is a strict order: no version is newer than itself, of
/// two versions at most one is newer than the other, and newer than newer
/// is newer.
pub proof fn lemma_is_newer_order(a: Seq<char>, b: Seq<char>, c: Seq<char>)
    ensures
        !spec_is_newer(a, a),
        spec_is_newer(a, b) ==> !spec_is_newer(b, a),
        spec_is_newer(a, b) && spec_is_newer(b, c) ==> spec_is_newer(a, c),
{
}

/// Versions compare by major, then minor, then patch: a smaller major, or
/// the same major and a smaller minor, is never newer, whatever the patch;
/// a larger major always is.
pub proof fn lemma_is_newer_components(tag: Seq<char>, current: Seq<char>)
    requires
        version_triple(tag) is Some,
        version_triple(current) is Some,
    ensures
        ({
            let t = version_triple(tag)->0;
            let c = version_triple(current)->0;
            &&& t.0 < c.0 ==> !spec_is_newer(tag, current)
            &&& t.0 == c.0 && t.1 < c.1 ==> !spec_is_newer(tag, current)
            &&& t.0 > c.0 ==> spec_is_newer(tag, current)
            &&& t.0 == c.0 && t.1 > c.1 ==> spec_is_newer(tag, current)
            &&& t == c ==> !spec_is_newer(tag, current)
        }),
{
}

} // verus!
