//! Settings and the exception list as plain text.
//!
//! - `config.txt`: one `key = value` per line (`auto`, `sensitivity`,
//!   `layout`, `disabled_apps`, and keys of the platform adapters).
//! - `exceptions.txt`: one word learned from an undo per line.
//!
//! Key strokes are never recorded: the exception list only holds words the
//! user explicitly undid. Reading and writing the files is left to the
//! callers; this module turns text into values and back.
use vstd::prelude::*;
use crate::detect::Sensitivity;
use crate::layout::Layout;
use crate::lexicon::lower_seq;
use crate::number::{decimal_u8, parse_decimal_u8};
use crate::text::{
    char_count, chars_eq, chars_of, contains_chars, is_whitespace, contains_seq, find_char, find_in, lemma_find_char_bound, push_char, push_str,
    slice_chars, spec_is_whitespace, str_eq, string_of, to_lower, trim, trim_chars, trim_end, trim_start,
};

verus! {

/// Splits a sequence at each separator, as `str::split` does: `n`
/// separators give `n + 1` parts, empty ones included.
pub open spec fn split_on(s: Seq<char>, sep: char) -> Seq<Seq<char>>
    decreases s.len(),
{
    if s.len() == 0 {
        seq![Seq::<char>::empty()]
    } else {
        let p = split_on(s.drop_last(), sep);
        if s.last() == sep {
            p.push(Seq::<char>::empty())
        } else {
            p.update(p.len() - 1, p.last().push(s.last()))
        }
    }
}

/// The parts of a comma-separated list, trimmed, empty ones dropped.
pub open spec fn nonempty_trimmed(parts: Seq<Seq<char>>) -> Seq<Seq<char>>
    decreases parts.len(),
{
    if parts.len() == 0 {
        Seq::empty()
    } else {
        let rest = nonempty_trimmed(parts.drop_last());
        if trim(parts.last()).len() == 0 { rest } else { rest.push(trim(parts.last())) }
    }
}

pub open spec fn app_list(value: Seq<char>) -> Seq<Seq<char>> {
    nonempty_trimmed(split_on(value, ','))
}

/// The abstract settings.
pub ghost struct ConfigState {
    pub auto: bool,
    pub sensitivity: Sensitivity,
    pub layout: Layout,
    pub disabled_apps: Seq<Seq<char>>,
    pub extras: Seq<(Seq<char>, Seq<char>)>,
}

pub open spec fn default_state() -> ConfigState {
    ConfigState {
        auto: true,
        sensitivity: Sensitivity::Balanced,
        layout: Layout::Dubeolsik,
        disabled_apps: Seq::empty(),
        extras: Seq::empty(),
    }
}

/// One setting; unknown values of known keys leave the setting as it was,
/// unknown keys are kept as they are for the platform adapters.
pub open spec fn apply_setting(c: ConfigState, key: Seq<char>, value: Seq<char>) -> ConfigState {
    if key == "auto"@ {
        if value == "on"@ || value == "true"@ || value == "1"@ {
            ConfigState { auto: true, ..c }
        } else if value == "off"@ || value == "false"@ || value == "0"@ {
            ConfigState { auto: false, ..c }
        } else {
            c
        }
    } else if key == "sensitivity"@ {
        if value == "conservative"@ {
            ConfigState { sensitivity: Sensitivity::Conservative, ..c }
        } else if value == "balanced"@ {
            ConfigState { sensitivity: Sensitivity::Balanced, ..c }
        } else if value == "aggressive"@ {
            ConfigState { sensitivity: Sensitivity::Aggressive, ..c }
        } else {
            c
        }
    } else if key == "layout"@ {
        if value == "dubeolsik"@ || value == "2"@ {
            ConfigState { layout: Layout::Dubeolsik, ..c }
        } else if value == "sebeolsik-390"@ || value == "sebeolsik390"@ || value == "390"@ {
            ConfigState { layout: Layout::Sebeolsik390, ..c }
        } else if value == "sebeolsik-final"@ || value == "sebeolsikfinal"@ || value == "3f"@ {
            ConfigState { layout: Layout::SebeolsikFinal, ..c }
        } else {
            c
        }
    } else if key == "disabled_apps"@ {
        ConfigState { disabled_apps: app_list(value), ..c }
    } else {
        ConfigState { extras: c.extras.push((key, value)), ..c }
    }
}

/// Where an end-of-line comment begins in a value, searching from `j`: the
/// first `#` that follows white space.
pub open spec fn comment_from(v: Seq<char>, j: int) -> Option<int>
    decreases v.len() - j,
{
    if j <= 0 || j >= v.len() {
        None
    } else if v[j] == '#' && spec_is_whitespace(v[j - 1]) {
        Some(j)
    } else {
        comment_from(v, j + 1)
    }
}

/// A value without its end-of-line comment (`value   # note` gives
/// `value   `).
pub open spec fn without_comment(v: Seq<char>) -> Seq<char> {
    match comment_from(v, 1) {
        Some(j) => v.take(j),
        None => v,
    }
}

/// One line: blank lines, comments (`#`) and lines without `=` are
/// skipped; otherwise the key is what precedes the first `=`, trimmed, and
/// the value what follows it up to an end-of-line comment, trimmed and
/// ASCII-lower-cased.
pub open spec fn parse_line(c: ConfigState, line: Seq<char>) -> ConfigState {
    let t = trim(line);
    if t.len() == 0 || t[0] == '#' {
        c
    } else {
        match find_char(line, '=') {
            None => c,
            Some(i) => apply_setting(c, trim(line.take(i)), lower_seq(trim(without_comment(line.skip(i + 1))))),
        }
    }
}

/// Cuts an end-of-line comment off a value.
fn cut_comment(v: &Vec<char>) -> (r: Vec<char>)
    ensures
        r@ == without_comment(v@),
{
    let mut j: usize = 1;
    while j < v.len()
        invariant
            1 <= j,
            comment_from(v@, 1) == comment_from(v@, j as int),
        decreases v.len() - j,
    {
        if v[j] == '#' && is_whitespace(v[j - 1]) {
            return slice_chars(v, 0, j);
        }
        j = j + 1;
    }
    let r = slice_chars(v, 0, v.len());
    assert(r@ =~= v@);
    r
}

pub open spec fn parse_lines(c: ConfigState, lines: Seq<Seq<char>>) -> ConfigState
    decreases lines.len(),
{
    if lines.len() == 0 {
        c
    } else {
        parse_line(parse_lines(c, lines.drop_last()), lines.last())
    }
}

/// The settings a text gives, starting from the defaults.
pub open spec fn spec_parse(text: Seq<char>) -> ConfigState {
    parse_lines(default_state(), split_on(text, '\n'))
}

/// Settings of the daemon and the platform adapters.
#[derive(Debug, Clone, PartialEq, Eq)]
pub struct Config {
    /// Automatic correction at word boundaries.
    pub auto: bool,
    pub sensitivity: Sensitivity,
    pub layout: Layout,
    /// Fragments of application names where correction is off
    /// (`disabled_apps = terminal, slack`): a case-insensitive substring
    /// of the executable, process or window class name.
    pub disabled_apps: Vec<String>,
    /// Keys the core does not know: settings of the platform adapters,
    /// `key = value` as written.
    pub extras: Vec<(String, String)>,
}

pub open spec fn strings_view(v: Seq<String>) -> Seq<Seq<char>> {
    v.map_values(|s: String| s@)
}

pub open spec fn pairs_view(v: Seq<(String, String)>) -> Seq<(Seq<char>, Seq<char>)> {
    v.map_values(|p: (String, String)| (p.0@, p.1@))
}

impl View for Config {
    type V = ConfigState;

    open spec fn view(&self) -> ConfigState {
        ConfigState {
            auto: self.auto,
            sensitivity: self.sensitivity,
            layout: self.layout,
            disabled_apps: strings_view(self.disabled_apps@),
            extras: pairs_view(self.extras@),
        }
    }
}

impl Default for Config {
    fn default() -> (c: Self)
        ensures
            c@ == default_state(),
    {
        let c = Config {
            auto: true,
            sensitivity: Sensitivity::Balanced,
            layout: Layout::Dubeolsik,
            disabled_apps: Vec::new(),
            extras: Vec::new(),
        };
        assert(c@.disabled_apps =~= Seq::<Seq<char>>::empty());
        assert(c@.extras =~= Seq::<(Seq<char>, Seq<char>)>::empty());
        c
    }
}

proof fn lemma_split_nonempty(s: Seq<char>, sep: char)
    ensures
        split_on(s, sep).len() >= 1,
    decreases s.len(),
{
    if s.len() > 0 {
        lemma_split_nonempty(s.drop_last(), sep);
    }
}

/// Whether the characters equal those of a string literal.
fn is_word(v: &Vec<char>, lit: &str) -> (b: bool)
    ensures
        b == (v@ == lit@),
{
    let w = chars_of(lit);
    chars_eq(v, &w)
}

fn lower_chars(v: &Vec<char>) -> (r: Vec<char>)
    ensures
        r@ == lower_seq(v@),
{
    let mut r: Vec<char> = Vec::new();
    let mut k: usize = 0;
    while k < v.len()
        invariant
            k <= v.len(),
            r@ == lower_seq(v@.take(k as int)),
        decreases v.len() - k,
    {
        r.push(to_lower(v[k]));
        assert(lower_seq(v@.take(k + 1)) =~= lower_seq(v@.take(k as int)).push(to_lower_spec(v@[k as int])));
        k = k + 1;
    }
    assert(v@.take(v.len() as int) =~= v@);
    r
}

spec fn to_lower_spec(c: char) -> char {
    crate::text::spec_lower(c)
}

/// The trimmed, non-empty parts of a sequence split at `sep`.
fn split_nonempty_trimmed(value: &Vec<char>, sep: char) -> (r: Vec<String>)
    ensures
        strings_view(r@) == nonempty_trimmed(split_on(value@, sep)),
{
    let mut out: Vec<String> = Vec::new();
    let mut cur: Vec<char> = Vec::new();
    let mut i: usize = 0;
    while i < value.len()
        invariant
            i <= value.len(),
            split_on(value@.take(i as int), sep).len() >= 1,
            strings_view(out@) == nonempty_trimmed(split_on(value@.take(i as int), sep).drop_last()),
            cur@ == split_on(value@.take(i as int), sep).last(),
        decreases value.len() - i,
    {
        let ghost pre = value@.take(i as int);
        let ghost p = split_on(pre, sep);
        assert(value@.take(i + 1).drop_last() =~= pre);
        assert(value@.take(i + 1).last() == value@[i as int]);
        if value[i] == sep {
            let t = trim_chars(&cur);
            if t.len() > 0 {
                out.push(string_of(&t));
            }
            cur = Vec::new();
            assert(split_on(value@.take(i + 1), sep).drop_last() =~= p);
            assert(p =~= p.drop_last().push(p.last()));
            assert(strings_view(out@) =~= nonempty_trimmed(p));
        } else {
            cur.push(value[i]);
            assert(split_on(value@.take(i + 1), sep).drop_last() =~= p.drop_last());
        }
        i = i + 1;
    }
    assert(value@.take(value.len() as int) =~= value@);
    let ghost p = split_on(value@, sep);
    let t = trim_chars(&cur);
    if t.len() > 0 {
        out.push(string_of(&t));
    }
    assert(p =~= p.drop_last().push(p.last()));
    assert(strings_view(out@) =~= nonempty_trimmed(p));
    out
}

impl Config {
    /// Applies one setting to the configuration.
    fn apply_setting(&mut self, key: Vec<char>, value: Vec<char>)
        ensures
            final(self)@ == apply_setting(old(self)@, key@, value@),
    {
        if is_word(&key, "auto") {
            if is_word(&value, "on") || is_word(&value, "true") || is_word(&value, "1") {
                self.auto = true;
            } else if is_word(&value, "off") || is_word(&value, "false") || is_word(&value, "0") {
                self.auto = false;
            }
        } else if is_word(&key, "sensitivity") {
            if is_word(&value, "conservative") {
                self.sensitivity = Sensitivity::Conservative;
            } else if is_word(&value, "balanced") {
                self.sensitivity = Sensitivity::Balanced;
            } else if is_word(&value, "aggressive") {
                self.sensitivity = Sensitivity::Aggressive;
            }
        } else if is_word(&key, "layout") {
            if is_word(&value, "dubeolsik") || is_word(&value, "2") {
                self.layout = Layout::Dubeolsik;
            } else if is_word(&value, "sebeolsik-390") || is_word(&value, "sebeolsik390") || is_word(&value, "390") {
                self.layout = Layout::Sebeolsik390;
            } else if is_word(&value, "sebeolsik-final") || is_word(&value, "sebeolsikfinal") || is_word(&value, "3f") {
                self.layout = Layout::SebeolsikFinal;
            }
        } else if is_word(&key, "disabled_apps") {
            self.disabled_apps = split_nonempty_trimmed(&value, ',');
        } else {
            let ghost before = self.extras@;
            self.extras.push((string_of(&key), string_of(&value)));
            assert(pairs_view(self.extras@) =~= pairs_view(before).push((key@, value@)));
        }
    }

    /// Applies one line of `config.txt`.
    fn apply_line(&mut self, line: &Vec<char>)
        ensures
            final(self)@ == parse_line(old(self)@, line@),
    {
        let t = trim_chars(line);
        if t.len() == 0 || t[0] == '#' {
            return;
        }
        match find_in(line, '=') {
            None => {},
            Some(i) => {
                proof {
                    lemma_find_char_bound(line@, '=');
                    assert(find_char(line@, '=') == Some(i as int));
                }
                assert(i < line.len());
                let k = slice_chars(line, 0, i);
                let v = slice_chars(line, i + 1, line.len());
                assert(k@ =~= line@.take(i as int));
                assert(v@ =~= line@.skip(i + 1));
                let key = trim_chars(&k);
                let vc = cut_comment(&v);
                let vt = trim_chars(&vc);
                let value = lower_chars(&vt);
                self.apply_setting(key, value);
            },
        }
    }

    /// Parses `key = value` lines. Unknown values and malformed lines are
    /// ignored, so the defaults stay.
    pub fn parse(text: &str) -> (c: Self)
        ensures
            c@ == spec_parse(text@),
    {
        let chars = chars_of(text);
        let mut config = Self::default();
        let mut cur: Vec<char> = Vec::new();
        let mut i: usize = 0;
        while i < chars.len()
            invariant
                i <= chars.len(),
                split_on(chars@.take(i as int), '\n').len() >= 1,
                config@ == parse_lines(default_state(), split_on(chars@.take(i as int), '\n').drop_last()),
                cur@ == split_on(chars@.take(i as int), '\n').last(),
            decreases chars.len() - i,
        {
            let ghost pre = chars@.take(i as int);
            let ghost p = split_on(pre, '\n');
            assert(chars@.take(i + 1).drop_last() =~= pre);
            assert(chars@.take(i + 1).last() == chars@[i as int]);
            if chars[i] == '\n' {
                config.apply_line(&cur);
                cur = Vec::new();
                assert(split_on(chars@.take(i + 1), '\n').drop_last() =~= p);
                assert(p.drop_last().push(p.last()) =~= p);
            } else {
                cur.push(chars[i]);
                assert(split_on(chars@.take(i + 1), '\n').drop_last() =~= p.drop_last());
            }
            i = i + 1;
        }
        assert(chars@.take(chars.len() as int) =~= chars@);
        let ghost p = split_on(chars@, '\n');
        config.apply_line(&cur);
        assert(p.drop_last().push(p.last()) =~= p);
        config
    }
}


/// The value of the first entry with the key.
pub open spec fn lookup(extras: Seq<(Seq<char>, Seq<char>)>, key: Seq<char>) -> Option<Seq<char>>
    decreases extras.len(),
{
    if extras.len() == 0 {
        None
    } else if extras[0].0 == key {
        Some(extras[0].1)
    } else {
        lookup(extras.drop_first(), key)
    }
}

/// The entries whose key differs from `key`, in order.
pub open spec fn without_key(extras: Seq<(Seq<char>, Seq<char>)>, key: Seq<char>) -> Seq<(Seq<char>, Seq<char>)>
    decreases extras.len(),
{
    if extras.len() == 0 {
        Seq::empty()
    } else {
        let rest = without_key(extras.drop_last(), key);
        if extras.last().0 == key { rest } else { rest.push(extras.last()) }
    }
}

/// What `str::to_lowercase` returns (Unicode lower case).
pub uninterp spec fn unicode_lowercase(s: Seq<char>) -> Seq<char>;

/// Wrapper for `str::to_lowercase`: the Unicode lower case of `s`, a
/// function of `s` alone; its table is not restated here.
#[verifier::external_body]
fn to_lowercase(s: &str) -> (r: String)
    ensures
        r@ == unicode_lowercase(s@),
{
    s.to_lowercase()
}

/// The sequence without the trailing occurrences of `c`
/// (`str::trim_end_matches` with a character).
pub open spec fn trim_end_char(s: Seq<char>, c: char) -> Seq<char>
    decreases s.len(),
{
    if s.len() > 0 && s.last() == c { trim_end_char(s.drop_last(), c) } else { s }
}

pub open spec fn clamp_u8(x: u8, lo: u8, hi: u8) -> u8 {
    if x < lo { lo } else if x > hi { hi } else { x }
}

/// The badge opacity in percent: the `badge_opacity` entry, trimmed, with
/// trailing `%` dropped, read as a `u8` (80 when absent or unreadable),
/// clamped to 30..=100.
pub open spec fn spec_badge_opacity(c: ConfigState) -> u8 {
    let parsed = match lookup(c.extras, "badge_opacity"@) {
        Some(v) => decimal_u8(trim_end_char(trim(v), '%')),
        None => None,
    };
    let x: u8 = match parsed { Some(n) => n, None => 80u8 };
    clamp_u8(x, 30, 100)
}

fn trim_end_char_exec(v: &Vec<char>, c: char) -> (r: Vec<char>)
    ensures
        r@ == trim_end_char(v@, c),
{
    let mut j: usize = v.len();
    assert(v@.take(j as int) =~= v@);
    while j > 0 && v[j - 1] == c
        invariant
            j <= v.len(),
            trim_end_char(v@, c) == trim_end_char(v@.take(j as int), c),
        decreases j,
    {
        assert(v@.take(j as int).drop_last() =~= v@.take(j - 1));
        j = j - 1;
    }
    slice_chars(v, 0, j)
}

impl Config {
    /// The value of a platform adapter setting.
    pub fn extra(&self, key: &str) -> (r: Option<&str>)
        ensures
            match r {
                Some(v) => lookup(self@.extras, key@) == Some(v@),
                None => lookup(self@.extras, key@) is None,
            },
    {
        let ghost ex = self@.extras;
        let mut i: usize = 0;
        assert(ex.skip(0) =~= ex);
        while i < self.extras.len()
            invariant
                i <= self.extras.len(),
                ex == pairs_view(self.extras@),
                lookup(ex, key@) == lookup(ex.skip(i as int), key@),
            decreases self.extras.len() - i,
        {
            if str_eq(self.extras[i].0.as_str(), key) {
                return Some(self.extras[i].1.as_str());
            }
            assert(ex.skip(i as int).drop_first() =~= ex.skip(i + 1));
            i = i + 1;
        }
        None
    }

    /// Sets a platform adapter setting; an empty value removes the key.
    pub fn set_extra(&mut self, key: &str, value: &str)
        ensures
            final(self)@ == (ConfigState {
                extras: without_key(old(self)@.extras, key@) + (if value@.len() > 0 {
                    seq![(key@, value@)]
                } else {
                    Seq::empty()
                }),
                ..old(self)@
            }),
    {
        let ghost ex = self@.extras;
        let mut kept: Vec<(String, String)> = Vec::new();
        let mut i: usize = 0;
        while i < self.extras.len()
            invariant
                i <= self.extras.len(),
                ex == pairs_view(self.extras@),
                pairs_view(kept@) == without_key(ex.take(i as int), key@),
            decreases self.extras.len() - i,
        {
            assert(ex.take(i + 1).drop_last() =~= ex.take(i as int));
            let ghost before = kept@;
            if !str_eq(self.extras[i].0.as_str(), key) {
                let k = self.extras[i].0.clone();
                let v = self.extras[i].1.clone();
                kept.push((k, v));
                assert(pairs_view(kept@) =~= pairs_view(before).push(ex[i as int]));
            }
            i = i + 1;
        }
        assert(ex.take(self.extras.len() as int) =~= ex);
        if char_count(value) > 0 {
            let ghost before = kept@;
            kept.push((key.to_owned(), value.to_owned()));
            assert(pairs_view(kept@) =~= pairs_view(before).push((key@, value@)));
        }
        self.extras = kept;
        assert(self@.extras =~= without_key(ex, key@) + (if value@.len() > 0 {
            seq![(key@, value@)]
        } else {
            Seq::empty()
        }));
    }

    /// Whether correction is off in this application: a case-insensitive
    /// substring match, the Unicode lower case of some `disabled_apps`
    /// fragment occurring in the Unicode lower case of the name.
    pub fn app_disabled(&self, app_name: &str) -> (b: bool)
        ensures
            b == exists|i: int| 0 <= i < self@.disabled_apps.len()
                && contains_seq(unicode_lowercase(app_name@), unicode_lowercase(#[trigger] self@.disabled_apps[i])),
    {
        let lowered = to_lowercase(app_name);
        let name = chars_of(lowered.as_str());
        let ghost apps = self@.disabled_apps;
        let mut i: usize = 0;
        while i < self.disabled_apps.len()
            invariant
                i <= self.disabled_apps.len(),
                name@ == unicode_lowercase(app_name@),
                apps == strings_view(self.disabled_apps@),
                apps == self@.disabled_apps,
                forall|j: int| 0 <= j < i ==> !contains_seq(name@, unicode_lowercase(#[trigger] apps[j])),
            decreases self.disabled_apps.len() - i,
        {
            let frag_lower = to_lowercase(self.disabled_apps[i].as_str());
            let frag = chars_of(frag_lower.as_str());
            assert(apps[i as int] == self.disabled_apps@[i as int]@);
            if contains_chars(&name, &frag) {
                return true;
            }
            i = i + 1;
        }
        false
    }

    /// The badge opacity in percent (`badge_opacity`, 30..=100, 80 by
    /// default): translucent by default so that it does not hide the view.
    pub fn badge_opacity_percent(&self) -> (p: u8)
        ensures
            p == spec_badge_opacity(self@),
            30 <= p <= 100,
    {
        let parsed = match self.extra("badge_opacity") {
            Some(v) => {
                let chars = chars_of(v);
                let t = trim_chars(&chars);
                let u = trim_end_char_exec(&t, '%');
                parse_decimal_u8(&u)
            },
            None => None,
        };
        let x: u8 = match parsed {
            Some(n) => n,
            None => 80,
        };
        if x < 30 {
            30
        } else if x > 100 {
            100
        } else {
            x
        }
    }
}



/// A `key = value` line.
pub open spec fn setting_line(key: Seq<char>, value: Seq<char>) -> Seq<char> {
    key + seq![' ', '=', ' '] + value
}

pub open spec fn sensitivity_name(s: Sensitivity) -> Seq<char> {
    match s {
        Sensitivity::Conservative => "conservative"@,
        Sensitivity::Balanced => "balanced"@,
        Sensitivity::Aggressive => "aggressive"@,
    }
}

pub open spec fn layout_name(l: Layout) -> Seq<char> {
    match l {
        Layout::Dubeolsik => "dubeolsik"@,
        Layout::Sebeolsik390 => "sebeolsik-390"@,
        Layout::SebeolsikFinal => "sebeolsik-final"@,
    }
}

/// The parts joined by a separator, as `join` does on a slice.
pub open spec fn join_with(parts: Seq<Seq<char>>, sep: Seq<char>) -> Seq<char>
    decreases parts.len(),
{
    if parts.len() == 0 {
        Seq::empty()
    } else if parts.len() == 1 {
        parts[0]
    } else {
        join_with(parts.drop_last(), sep) + sep + parts.last()
    }
}

/// Each line followed by a newline.
pub open spec fn join_lines(lines: Seq<Seq<char>>) -> Seq<char>
    decreases lines.len(),
{
    if lines.len() == 0 {
        Seq::empty()
    } else {
        join_lines(lines.drop_last()) + lines.last().push('\n')
    }
}

pub open spec fn extra_lines(extras: Seq<(Seq<char>, Seq<char>)>) -> Seq<Seq<char>> {
    extras.map_values(|p: (Seq<char>, Seq<char>)| setting_line(p.0, p.1))
}

/// The lines of `config.txt`: a comment, the three core settings, the
/// disabled applications when there are any, then the adapter settings.
pub open spec fn config_lines(c: ConfigState) -> Seq<Seq<char>> {
    seq![
        "# haneng 설정 — 데몬 재시작 시 적용"@,
        setting_line("auto"@, if c.auto { "on"@ } else { "off"@ }),
        setting_line("sensitivity"@, sensitivity_name(c.sensitivity)),
        setting_line("layout"@, layout_name(c.layout)),
    ] + (if c.disabled_apps.len() > 0 {
        seq![setting_line("disabled_apps"@, join_with(c.disabled_apps, ", "@))]
    } else {
        Seq::empty()
    }) + extra_lines(c.extras)
}

pub open spec fn spec_serialize(c: ConfigState) -> Seq<char> {
    join_lines(config_lines(c))
}

/// Appends a `key = value` line and its newline.
fn append_setting(out: &mut String, key: &str, value: &str)
    ensures
        final(out)@ == old(out)@ + setting_line(key@, value@).push('\n'),
{
    push_str(out, key);
    push_char(out, ' ');
    push_char(out, '=');
    push_char(out, ' ');
    push_str(out, value);
    push_char(out, '\n');
    assert(out@ =~= old(out)@ + setting_line(key@, value@).push('\n'));
}

impl Config {
    /// The `config.txt` text of these settings; adapter settings are kept.
    pub fn serialize(&self) -> (s: String)
        ensures
            s@ == spec_serialize(self@),
    {
        let ghost c = self@;
        let mut out = String::new();
        let ghost mut lines: Seq<Seq<char>> = Seq::empty();
        push_str(&mut out, "# haneng 설정 — 데몬 재시작 시 적용");
        push_char(&mut out, '\n');
        proof {
            lines = lines.push("# haneng 설정 — 데몬 재시작 시 적용"@);
            assert(lines.drop_last() =~= Seq::<Seq<char>>::empty());
            assert(join_lines(Seq::<Seq<char>>::empty()) == Seq::<char>::empty());
            assert(out@ =~= join_lines(lines));
        }
        append_setting(&mut out, "auto", if self.auto { "on" } else { "off" });
        proof {
            let l = setting_line("auto"@, if c.auto { "on"@ } else { "off"@ });
            assert(lines.push(l).drop_last() =~= lines);
            lines = lines.push(l);
            assert(out@ =~= join_lines(lines));
        }
        let sens = match self.sensitivity {
            Sensitivity::Conservative => "conservative",
            Sensitivity::Balanced => "balanced",
            Sensitivity::Aggressive => "aggressive",
        };
        append_setting(&mut out, "sensitivity", sens);
        proof {
            let l = setting_line("sensitivity"@, sensitivity_name(c.sensitivity));
            assert(lines.push(l).drop_last() =~= lines);
            lines = lines.push(l);
            assert(out@ =~= join_lines(lines));
        }
        let lay = match self.layout {
            Layout::Dubeolsik => "dubeolsik",
            Layout::Sebeolsik390 => "sebeolsik-390",
            Layout::SebeolsikFinal => "sebeolsik-final",
        };
        append_setting(&mut out, "layout", lay);
        proof {
            let l = setting_line("layout"@, layout_name(c.layout));
            assert(lines.push(l).drop_last() =~= lines);
            lines = lines.push(l);
            assert(out@ =~= join_lines(lines));
        }
        if self.disabled_apps.len() > 0 {
            let joined = join_strings(&self.disabled_apps, ", ");
            append_setting(&mut out, "disabled_apps", joined.as_str());
            proof {
                let l = setting_line("disabled_apps"@, join_with(c.disabled_apps, ", "@));
                assert(lines.push(l).drop_last() =~= lines);
                lines = lines.push(l);
                assert(out@ =~= join_lines(lines));
            }
        }
        let ghost base = lines;
        assert(base + extra_lines(c.extras.take(0)) =~= base);
        let mut i: usize = 0;
        while i < self.extras.len()
            invariant
                i <= self.extras.len(),
                c == self@,
                out@ == join_lines(base + extra_lines(c.extras.take(i as int))),
            decreases self.extras.len() - i,
        {
            let ghost before = base + extra_lines(c.extras.take(i as int));
            append_setting(&mut out, self.extras[i].0.as_str(), self.extras[i].1.as_str());
            proof {
                let l = setting_line(c.extras[i as int].0, c.extras[i as int].1);
                assert(extra_lines(c.extras.take(i + 1)) =~= extra_lines(c.extras.take(i as int)).push(l));
                assert((base + extra_lines(c.extras.take(i + 1))).drop_last() =~= before);
            }
            i = i + 1;
        }
        assert(c.extras.take(self.extras.len() as int) =~= c.extras);
        assert(base + extra_lines(c.extras) =~= config_lines(c));
        out
    }
}

/// The strings joined by a separator.
fn join_strings(parts: &Vec<String>, sep: &str) -> (s: String)
    ensures
        s@ == join_with(strings_view(parts@), sep@),
{
    let ghost ps = strings_view(parts@);
    let mut out = String::new();
    let mut i: usize = 0;
    while i < parts.len()
        invariant
            i <= parts.len(),
            ps == strings_view(parts@),
            out@ == join_with(ps.take(i as int), sep@),
        decreases parts.len() - i,
    {
        if i > 0 {
            push_str(&mut out, sep);
        }
        push_str(&mut out, parts[i].as_str());
        assert(ps.take(i + 1).drop_last() =~= ps.take(i as int));
        i = i + 1;
    }
    assert(ps.take(parts.len() as int) =~= ps);
    out
}


// Round trip of the text format.

/// No `#` that would start a comment: none at the start and none right
/// after white space.
pub open spec fn no_comment_mark(v: Seq<char>) -> bool {
    forall|i: int| 0 <= i < v.len() && #[trigger] v[i] == '#' ==> i > 0 && !spec_is_whitespace(v[i - 1])
}

/// A value that reads back as written: trimmed, ASCII lower case, on one
/// line, and no `#` at its start or after white space.
pub open spec fn plain_value(v: Seq<char>) -> bool {
    trim(v) == v && lower_seq(v) == v && !v.contains('\n') && no_comment_mark(v)
}

pub open spec fn known_key(k: Seq<char>) -> bool {
    k == "auto"@ || k == "sensitivity"@ || k == "layout"@ || k == "disabled_apps"@
}

/// An adapter key that reads back as written: trimmed, on one line, no `=`,
/// not a comment, not a core key.
pub open spec fn plain_key(k: Seq<char>) -> bool {
    &&& trim(k) == k
    &&& !k.contains('=')
    &&& !k.contains('\n')
    &&& (k.len() > 0 ==> k[0] != '#')
    &&& !known_key(k)
}

/// A fragment of `disabled_apps` that reads back as written.
pub open spec fn plain_app(a: Seq<char>) -> bool {
    a.len() > 0 && plain_value(a) && !a.contains(',')
}

/// Settings that the text format represents exactly.
pub open spec fn canonical(c: ConfigState) -> bool {
    &&& forall|i: int| 0 <= i < c.disabled_apps.len() ==> plain_app(#[trigger] c.disabled_apps[i])
    &&& forall|i: int| 0 <= i < c.extras.len() ==> plain_key((#[trigger] c.extras[i]).0) && plain_value(c.extras[i].1)
}

proof fn lemma_trim_start_len(s: Seq<char>)
    ensures
        trim_start(s).len() <= s.len(),
    decreases s.len(),
{
    if s.len() > 0 && spec_is_whitespace(s[0]) {
        lemma_trim_start_len(s.drop_first());
    }
}

/// `trim_end` keeps a prefix, at least up to the last non-white character.
proof fn lemma_trim_end_prefix(s: Seq<char>)
    ensures
        trim_end(s).len() <= s.len(),
        trim_end(s) =~= s.take(trim_end(s).len() as int),
        forall|j: int| 0 <= j < s.len() && !spec_is_whitespace(#[trigger] s[j]) ==> j < trim_end(s).len(),
    decreases s.len(),
{
    if s.len() > 0 && spec_is_whitespace(s.last()) {
        lemma_trim_end_prefix(s.drop_last());
        assert forall|j: int| 0 <= j < s.len() && !spec_is_whitespace(#[trigger] s[j]) implies j < trim_end(s).len() by {
            assert(j < s.len() - 1);
            assert(s.drop_last()[j] == s[j]);
        }
    }
}

/// A trimmed sequence starts and ends with non-white characters.
proof fn lemma_trimmed_ends(k: Seq<char>)
    requires
        trim(k) == k,
        k.len() > 0,
    ensures
        !spec_is_whitespace(k[0]),
        !spec_is_whitespace(k.last()),
        trim_start(k) == k,
        trim_end(k) == k,
{
    if spec_is_whitespace(k[0]) {
        lemma_trim_start_len(k.drop_first());
        lemma_trim_end_prefix(trim_start(k.drop_first()));
        assert(false);
    }
    assert(trim_start(k) == k);
    if spec_is_whitespace(k.last()) {
        lemma_trim_end_prefix(k.drop_last());
        assert(false);
    }
}

/// A sequence with non-white ends is trimmed.
proof fn lemma_trim_of_plain(k: Seq<char>)
    requires
        k.len() > 0 ==> !spec_is_whitespace(k[0]) && !spec_is_whitespace(k.last()),
    ensures
        trim(k) == k,
{
}

proof fn lemma_trim_key_space(k: Seq<char>)
    requires
        trim(k) == k,
    ensures
        trim(k.push(' ')) == k,
{
    assert(k.push(' ').drop_last() =~= k);
    if k.len() > 0 {
        lemma_trimmed_ends(k);
        assert(k.push(' ')[0] == k[0]);
        assert(trim_start(k.push(' ')) == k.push(' '));
        assert(trim_end(k.push(' ')) == trim_end(k));
    } else {
        assert(k.push(' ').drop_first() =~= Seq::<char>::empty());
        assert(trim_start(Seq::<char>::empty()) == Seq::<char>::empty());
        assert(trim_start(k.push(' ')) == Seq::<char>::empty());
        assert(trim_end(Seq::<char>::empty()) == Seq::<char>::empty());
    }
}

proof fn lemma_trim_space_value(v: Seq<char>)
    requires
        trim(v) == v,
    ensures
        trim(seq![' '] + v) == v,
{
    assert((seq![' '] + v).drop_first() =~= v);
    if v.len() > 0 {
        lemma_trimmed_ends(v);
    }
}

proof fn lemma_find_char_append(a: Seq<char>, b: Seq<char>, c: char)
    requires
        !a.contains(c),
    ensures
        find_char(a + b, c) == match find_char(b, c) {
            Some(i) => Some(i + a.len()),
            None => None::<int>,
        },
    decreases a.len(),
{
    if a.len() > 0 {
        assert(a[0] != c);
        assert((a + b)[0] == a[0]);
        assert((a + b).drop_first() =~= a.drop_first() + b);
        assert forall|j: int| 0 <= j < a.drop_first().len() implies a.drop_first()[j] != c by {
            assert(a.drop_first()[j] == a[j + 1]);
        }
        lemma_find_char_append(a.drop_first(), b, c);
    } else {
        assert(a + b =~= b);
    }
}

/// A value without a `#` after white space holds no comment.
proof fn lemma_no_comment(v: Seq<char>, j: int)
    requires
        forall|i: int| 1 <= i < v.len() && #[trigger] v[i] == '#' ==> !spec_is_whitespace(v[i - 1]),
    ensures
        comment_from(v, j) is None,
    decreases v.len() - j,
{
    if 0 < j < v.len() {
        lemma_no_comment(v, j + 1);
    }
}

/// A `key = value` line reads back as that setting.
proof fn lemma_parse_setting_line(c: ConfigState, k: Seq<char>, v: Seq<char>)
    requires
        trim(k) == k,
        !k.contains('='),
        k.len() > 0 ==> k[0] != '#',
        trim(v) == v,
        lower_seq(v) == v,
        no_comment_mark(v),
    ensures
        parse_line(c, setting_line(k, v)) == apply_setting(c, k, v),
{
    let sv = seq![' '] + v;
    assert forall|m: int| 1 <= m < sv.len() && #[trigger] sv[m] == '#' implies !spec_is_whitespace(sv[m - 1]) by {
        assert(sv[m] == v[m - 1]);
        assert(m - 1 > 0);
        assert(sv[m - 1] == v[m - 2]);
    }
    lemma_no_comment(sv, 1);
    let line = setting_line(k, v);
    let rest = seq![' ', '=', ' '] + v;
    assert(line =~= k + rest);
    lemma_find_char_append(k, rest, '=');
    assert(find_char(rest, '=') == Some(1int)) by {
        reveal_with_fuel(find_char, 2);
        assert(rest[0] == ' ');
        assert(rest.drop_first()[0] == '=');
    }
    assert(line.take(k.len() + 1int) =~= k.push(' '));
    assert(line.skip(k.len() + 2int) =~= seq![' '] + v);
    lemma_trim_key_space(k);
    lemma_trim_space_value(v);
    // The trimmed line is not blank and is no comment.
    if k.len() > 0 {
        lemma_trimmed_ends(k);
        assert(line[0] == k[0]);
        assert(trim_start(line) == line);
        lemma_trim_end_prefix(line);
        assert(line[k.len() + 1int] == '=');
        assert(trim(line)[0] == k[0]);
    } else {
        let l2 = seq!['=', ' '] + v;
        assert(line.drop_first() =~= l2);
        assert(trim_start(line) == trim_start(l2));
        assert(l2[0] == '=');
        assert(trim_start(l2) == l2);
        lemma_trim_end_prefix(l2);
        assert(trim(line)[0] == '=');
    }
}

/// `split_on` of a sequence extended by a part without separator: the
/// last part grows.
proof fn lemma_split_extend(x: Seq<char>, t: Seq<char>, sep: char)
    requires
        !t.contains(sep),
    ensures
        split_on(x + t, sep) == split_on(x, sep).update(
            split_on(x, sep).len() - 1,
            split_on(x, sep).last() + t,
        ),
    decreases t.len(),
{
    lemma_split_nonempty(x, sep);
    if t.len() == 0 {
        assert(x + t =~= x);
        assert(split_on(x, sep).last() + t =~= split_on(x, sep).last());
        assert(split_on(x, sep).update(split_on(x, sep).len() - 1, split_on(x, sep).last()) =~= split_on(x, sep));
    } else {
        let t2 = t.drop_last();
        assert forall|j: int| 0 <= j < t2.len() implies t2[j] != sep by {
            assert(t2[j] == t[j]);
        }
        assert(t.last() != sep);
        lemma_split_extend(x, t2, sep);
        assert((x + t).drop_last() =~= x + t2);
        assert((x + t).last() == t.last());
        let p = split_on(x, sep);
        assert((p.last() + t2).push(t.last()) =~= p.last() + t);
        assert(p.update(p.len() - 1, p.last() + t2).update(p.len() - 1, (p.last() + t2).push(t.last()))
            =~= p.update(p.len() - 1, p.last() + t));
    }
}

proof fn lemma_split_sep(y: Seq<char>, sep: char)
    ensures
        split_on(y.push(sep), sep) == split_on(y, sep).push(Seq::<char>::empty()),
{
    assert(y.push(sep).drop_last() =~= y);
}

/// The lines joined by newlines split back into the lines and a final
/// empty part.
proof fn lemma_split_join_lines(ls: Seq<Seq<char>>)
    requires
        forall|i: int| 0 <= i < ls.len() ==> !(#[trigger] ls[i]).contains('\n'),
    ensures
        split_on(join_lines(ls), '\n') == ls.push(Seq::<char>::empty()),
    decreases ls.len(),
{
    if ls.len() == 0 {
        assert(split_on(Seq::<char>::empty(), '\n') =~= seq![Seq::<char>::empty()]);
        assert(ls.push(Seq::<char>::empty()) =~= seq![Seq::<char>::empty()]);
    } else {
        let init = ls.drop_last();
        assert forall|i: int| 0 <= i < init.len() implies !(#[trigger] init[i]).contains('\n') by {
            assert(init[i] == ls[i]);
        }
        lemma_split_join_lines(init);
        let j = join_lines(init);
        let l = ls.last();
        assert(!ls[ls.len() - 1].contains('\n'));
        assert(join_lines(ls) =~= (j + l).push('\n'));
        lemma_split_sep(j + l, '\n');
        lemma_split_extend(j, l, '\n');
        assert(init.push(Seq::<char>::empty()).last() + l =~= l);
        assert(init.push(Seq::<char>::empty()).update(init.len() as int, l) =~= ls);
    }
}

proof fn lemma_parse_lines_append(c: ConfigState, a: Seq<Seq<char>>, b: Seq<Seq<char>>)
    ensures
        parse_lines(c, a + b) == parse_lines(parse_lines(c, a), b),
    decreases b.len(),
{
    if b.len() == 0 {
        assert(a + b =~= a);
    } else {
        assert((a + b).drop_last() =~= a + b.drop_last());
        assert((a + b).last() == b.last());
        lemma_parse_lines_append(c, a, b.drop_last());
    }
}

/// The adapter lines read back as the adapter settings, appended.
proof fn lemma_parse_extra_lines(c: ConfigState, extras: Seq<(Seq<char>, Seq<char>)>)
    requires
        forall|i: int| 0 <= i < extras.len() ==> plain_key((#[trigger] extras[i]).0) && plain_value(extras[i].1),
    ensures
        parse_lines(c, extra_lines(extras)) == (ConfigState { extras: c.extras + extras, ..c }),
    decreases extras.len(),
{
    if extras.len() == 0 {
        assert(c.extras + extras =~= c.extras);
        assert(extra_lines(extras) =~= Seq::<Seq<char>>::empty());
    } else {
        let init = extras.drop_last();
        let p = extras.last();
        assert forall|i: int| 0 <= i < init.len() implies plain_key((#[trigger] init[i]).0) && plain_value(init[i].1) by {
            assert(init[i] == extras[i]);
        }
        lemma_parse_extra_lines(c, init);
        assert(extra_lines(extras).drop_last() =~= extra_lines(init));
        assert(plain_key(extras[extras.len() - 1].0));
        lemma_parse_setting_line(ConfigState { extras: c.extras + init, ..c }, p.0, p.1);
        assert(c.extras + init + seq![p] =~= c.extras + extras);
        assert((c.extras + init).push(p) =~= c.extras + extras);
    }
}

proof fn lemma_lower_concat(a: Seq<char>, b: Seq<char>)
    ensures
        lower_seq(a + b) == lower_seq(a) + lower_seq(b),
{
    assert(lower_seq(a + b) =~= lower_seq(a) + lower_seq(b));
}

/// What joining plain fragments with ", " gives.
proof fn lemma_join_apps(apps: Seq<Seq<char>>)
    requires
        apps.len() > 0,
        forall|i: int| 0 <= i < apps.len() ==> plain_app(#[trigger] apps[i]),
    ensures
        join_with(apps, ", "@).len() > 0,
        join_with(apps, ", "@)[0] == apps[0][0],
        join_with(apps, ", "@).last() == apps.last().last(),
        lower_seq(join_with(apps, ", "@)) == join_with(apps, ", "@),
        !join_with(apps, ", "@).contains('\n'),
        no_comment_mark(join_with(apps, ", "@)),
        nonempty_trimmed(split_on(join_with(apps, ", "@), ',')) == apps,
    decreases apps.len(),
{
    reveal_strlit(", ");
    let sep = ", "@;
    assert(sep =~= seq![',', ' ']);
    let a = apps.last();
    assert(plain_app(apps[apps.len() - 1]));
    lemma_trimmed_ends(a);
    if apps.len() == 1 {
        let j = join_with(apps, sep);
        assert(j == a);
        lemma_split_extend(Seq::<char>::empty(), a, ',');
        assert(Seq::<char>::empty() + a =~= a);
        assert(split_on(Seq::<char>::empty(), ',') =~= seq![Seq::<char>::empty()]);
        assert(split_on(a, ',') =~= seq![a]);
        assert(seq![a].drop_last() =~= Seq::<Seq<char>>::empty());
        assert(nonempty_trimmed(Seq::<Seq<char>>::empty()) == Seq::<Seq<char>>::empty());
        assert(trim(a) == a);
        assert(apps =~= seq![a]);
        assert(nonempty_trimmed(seq![a]) =~= apps);
    } else {
        let init = apps.drop_last();
        assert forall|i: int| 0 <= i < init.len() implies plain_app(#[trigger] init[i]) by {
            assert(init[i] == apps[i]);
        }
        lemma_join_apps(init);
        let ji = join_with(init, sep);
        let j = join_with(apps, sep);
        assert(j == ji + sep + a);
        // First and last characters.
        assert(j[0] == ji[0]);
        assert(init[0] == apps[0]);
        assert(j.last() == a.last());
        // Lower case.
        lemma_lower_concat(ji, sep);
        lemma_lower_concat(ji + sep, a);
        assert(lower_seq(sep) =~= sep);
        // No newline, no comment mark.
        assert forall|i: int| 0 <= i < j.len() implies j[i] != '\n' by {
            if i < ji.len() {
                assert(j[i] == ji[i]);
            } else if i < ji.len() + 2 {
            } else {
                assert(j[i] == a[i - ji.len() - 2]);
            }
        }
        assert forall|i: int| 0 <= i < j.len() && #[trigger] j[i] == '#' implies i > 0 && !spec_is_whitespace(j[i - 1]) by {
            if i < ji.len() {
                assert(j[i] == ji[i]);
                assert(j[i - 1] == ji[i - 1]);
            } else if i < ji.len() + 2 {
            } else {
                let m = i - ji.len() - 2;
                assert(j[i] == a[m]);
                assert(m > 0);
                assert(j[i - 1] == a[m - 1]);
            }
        }
        // Splitting at commas.
        let sa = seq![' '] + a;
        assert(j =~= ji.push(',') + sa);
        assert forall|i: int| 0 <= i < sa.len() implies sa[i] != ',' by {
            if i > 0 {
                assert(sa[i] == a[i - 1]);
            }
        }
        lemma_split_extend(ji.push(','), sa, ',');
        lemma_split_sep(ji, ',');
        let pj = split_on(ji, ',');
        assert(pj.push(Seq::<char>::empty()).update(pj.len() as int, Seq::<char>::empty() + sa) =~= pj.push(sa));
        assert(split_on(j, ',') =~= pj.push(sa));
        lemma_trim_space_value(a);
        assert(pj.push(sa).drop_last() =~= pj);
        assert(nonempty_trimmed(pj.push(sa)) =~= init.push(a));
        assert(init.push(a) =~= apps);
    }
}

proof fn lemma_setting_line_one_line(k: Seq<char>, v: Seq<char>)
    requires
        !k.contains('\n'),
        !v.contains('\n'),
    ensures
        !setting_line(k, v).contains('\n'),
{
    let l = setting_line(k, v);
    assert forall|m: int| 0 <= m < l.len() implies l[m] != '\n' by {
        if m < k.len() {
            assert(l[m] == k[m]);
        } else if m >= k.len() + 3 {
            assert(l[m] == v[m - k.len() - 3]);
        }
    }
}

/// The facts on the literal keys and values that reading back needs.
proof fn lemma_plain_literal(k: Seq<char>)
    requires
        k.len() > 0,
        !spec_is_whitespace(k[0]),
        !spec_is_whitespace(k.last()),
        lower_seq(k) =~= k,
        forall|i: int| 0 <= i < k.len() ==> k[i] != '=' && k[i] != '\n' && k[i] != '#',
    ensures
        trim(k) == k,
        lower_seq(k) == k,
        !k.contains('='),
        !k.contains('\n'),
        !k.contains('#'),
{
}

proof fn lemma_core_literals(c: ConfigState)
    ensures
        trim("auto"@) == "auto"@ && !"auto"@.contains('=') && !"auto"@.contains('\n') && "auto"@[0] != '#',
        trim("sensitivity"@) == "sensitivity"@ && !"sensitivity"@.contains('=') && !"sensitivity"@.contains('\n') && "sensitivity"@[0] != '#',
        trim("layout"@) == "layout"@ && !"layout"@.contains('=') && !"layout"@.contains('\n') && "layout"@[0] != '#',
        trim("disabled_apps"@) == "disabled_apps"@ && !"disabled_apps"@.contains('=') && !"disabled_apps"@.contains('\n') && "disabled_apps"@[0] != '#',
        ({ let v = if c.auto { "on"@ } else { "off"@ }; trim(v) == v && lower_seq(v) == v && !v.contains('\n') && !v.contains('#') }),
        trim(sensitivity_name(c.sensitivity)) == sensitivity_name(c.sensitivity),
        lower_seq(sensitivity_name(c.sensitivity)) == sensitivity_name(c.sensitivity),
        !sensitivity_name(c.sensitivity).contains('\n'),
        !sensitivity_name(c.sensitivity).contains('#'),
        trim(layout_name(c.layout)) == layout_name(c.layout),
        lower_seq(layout_name(c.layout)) == layout_name(c.layout),
        !layout_name(c.layout).contains('\n'),
        !layout_name(c.layout).contains('#'),
        !"# haneng 설정 — 데몬 재시작 시 적용"@.contains('\n'),
        "# haneng 설정 — 데몬 재시작 시 적용"@.len() > 0,
        "# haneng 설정 — 데몬 재시작 시 적용"@[0] == '#',
{
    lemma_lit_keys();
    if c.auto { lemma_lit_on(); } else { lemma_lit_off(); }
    match c.sensitivity {
        Sensitivity::Conservative => lemma_lit_conservative(),
        Sensitivity::Balanced => lemma_lit_balanced(),
        Sensitivity::Aggressive => lemma_lit_aggressive(),
    }
    match c.layout {
        Layout::Dubeolsik => lemma_lit_dubeolsik(),
        Layout::Sebeolsik390 => lemma_lit_sebeolsik390(),
        Layout::SebeolsikFinal => lemma_lit_sebeolsik_final(),
    }
    lemma_lit_header();
}

proof fn lemma_lit_keys()
    ensures
        trim("auto"@) == "auto"@ && !"auto"@.contains('=') && !"auto"@.contains('\n') && "auto"@[0] != '#',
        trim("sensitivity"@) == "sensitivity"@ && !"sensitivity"@.contains('=') && !"sensitivity"@.contains('\n') && "sensitivity"@[0] != '#',
        trim("layout"@) == "layout"@ && !"layout"@.contains('=') && !"layout"@.contains('\n') && "layout"@[0] != '#',
        trim("disabled_apps"@) == "disabled_apps"@ && !"disabled_apps"@.contains('=') && !"disabled_apps"@.contains('\n') && "disabled_apps"@[0] != '#',
{
    reveal_strlit("auto");
    reveal_strlit("sensitivity");
    reveal_strlit("layout");
    reveal_strlit("disabled_apps");
    lemma_plain_literal("auto"@);
    lemma_plain_literal("sensitivity"@);
    lemma_plain_literal("layout"@);
    lemma_plain_literal("disabled_apps"@);
}

proof fn lemma_lit_on()
    ensures
        trim("on"@) == "on"@ && lower_seq("on"@) == "on"@ && !"on"@.contains('\n') && !"on"@.contains('#'),
{
    reveal_strlit("on");
    lemma_plain_literal("on"@);
}

proof fn lemma_lit_off()
    ensures
        trim("off"@) == "off"@ && lower_seq("off"@) == "off"@ && !"off"@.contains('\n') && !"off"@.contains('#'),
{
    reveal_strlit("off");
    lemma_plain_literal("off"@);
}

proof fn lemma_lit_conservative()
    ensures
        trim("conservative"@) == "conservative"@ && lower_seq("conservative"@) == "conservative"@ && !"conservative"@.contains('\n') && !"conservative"@.contains('#'),
{
    reveal_strlit("conservative");
    lemma_plain_literal("conservative"@);
}

proof fn lemma_lit_balanced()
    ensures
        trim("balanced"@) == "balanced"@ && lower_seq("balanced"@) == "balanced"@ && !"balanced"@.contains('\n') && !"balanced"@.contains('#'),
{
    reveal_strlit("balanced");
    lemma_plain_literal("balanced"@);
}

proof fn lemma_lit_aggressive()
    ensures
        trim("aggressive"@) == "aggressive"@ && lower_seq("aggressive"@) == "aggressive"@ && !"aggressive"@.contains('\n') && !"aggressive"@.contains('#'),
{
    reveal_strlit("aggressive");
    lemma_plain_literal("aggressive"@);
}

proof fn lemma_lit_dubeolsik()
    ensures
        trim("dubeolsik"@) == "dubeolsik"@ && lower_seq("dubeolsik"@) == "dubeolsik"@ && !"dubeolsik"@.contains('\n') && !"dubeolsik"@.contains('#'),
{
    reveal_strlit("dubeolsik");
    lemma_plain_literal("dubeolsik"@);
}

proof fn lemma_lit_sebeolsik390()
    ensures
        trim("sebeolsik-390"@) == "sebeolsik-390"@ && lower_seq("sebeolsik-390"@) == "sebeolsik-390"@ && !"sebeolsik-390"@.contains('\n') && !"sebeolsik-390"@.contains('#'),
{
    reveal_strlit("sebeolsik-390");
    lemma_plain_literal("sebeolsik-390"@);
}

proof fn lemma_lit_sebeolsik_final()
    ensures
        trim("sebeolsik-final"@) == "sebeolsik-final"@ && lower_seq("sebeolsik-final"@) == "sebeolsik-final"@ && !"sebeolsik-final"@.contains('\n') && !"sebeolsik-final"@.contains('#'),
{
    reveal_strlit("sebeolsik-final");
    lemma_plain_literal("sebeolsik-final"@);
}

proof fn lemma_lit_header()
    ensures
        !"# haneng 설정 — 데몬 재시작 시 적용"@.contains('\n'),
        "# haneng 설정 — 데몬 재시작 시 적용"@.len() > 0,
        "# haneng 설정 — 데몬 재시작 시 적용"@[0] == '#',
{
    reveal_strlit("# haneng 설정 — 데몬 재시작 시 적용");
}

/// No line of the text holds a newline.
proof fn lemma_config_lines_one_line(c: ConfigState)
    requires
        canonical(c),
    ensures
        forall|i: int| 0 <= i < config_lines(c).len() ==> !(#[trigger] config_lines(c)[i]).contains('\n'),
{
    lemma_core_literals(c);
    let ls = config_lines(c);
    let dn: int = if c.disabled_apps.len() > 0 { 1 } else { 0 };
    assert forall|i: int| 0 <= i < ls.len() implies !(#[trigger] ls[i]).contains('\n') by {
        if i == 1 {
            lemma_setting_line_one_line("auto"@, if c.auto { "on"@ } else { "off"@ });
        } else if i == 2 {
            lemma_setting_line_one_line("sensitivity"@, sensitivity_name(c.sensitivity));
        } else if i == 3 {
            lemma_setting_line_one_line("layout"@, layout_name(c.layout));
        } else if 4 <= i < 4 + dn {
            lemma_join_apps(c.disabled_apps);
            lemma_setting_line_one_line("disabled_apps"@, join_with(c.disabled_apps, ", "@));
        } else if i >= 4 + dn {
            let e = c.extras[i - 4 - dn];
            assert(ls[i] == setting_line(e.0, e.1));
            assert(plain_key(e.0) && plain_value(e.1));
            lemma_setting_line_one_line(e.0, e.1);
        }
    }
}

/// Writing settings and reading them back gives the same settings, for
/// settings the text format represents exactly (values trimmed, lower
/// case, on one line, with no `#` at their start or after white space;
/// adapter keys free of `=`, not comments, not core keys).
#[verifier::rlimit(40)]
pub proof fn lemma_serialize_parse(c: ConfigState)
    requires
        canonical(c),
    ensures
        spec_parse(spec_serialize(c)) == c,
{
    lemma_core_literals(c);
    let ls = config_lines(c);
    let header = "# haneng 설정 — 데몬 재시작 시 적용"@;
    let onoff = if c.auto { "on"@ } else { "off"@ };
    let sens = sensitivity_name(c.sensitivity);
    let lay = layout_name(c.layout);
    let dis = if c.disabled_apps.len() > 0 {
        seq![setting_line("disabled_apps"@, join_with(c.disabled_apps, ", "@))]
    } else {
        Seq::empty()
    };
    let core = seq![header, setting_line("auto"@, onoff), setting_line("sensitivity"@, sens), setting_line("layout"@, lay)];
    assert(ls == core + dis + extra_lines(c.extras));
    lemma_config_lines_one_line(c);
    lemma_split_join_lines(ls);
    // Reading the lines one by one.
    let d0 = default_state();
    assert(parse_lines(d0, ls.push(Seq::<char>::empty())) == parse_line(parse_lines(d0, ls), Seq::<char>::empty())) by {
        assert(ls.push(Seq::<char>::empty()).drop_last() =~= ls);
    }
    lemma_parse_lines_append(d0, core + dis, extra_lines(c.extras));
    lemma_parse_lines_append(d0, core, dis);
    let s1 = parse_line(d0, header);
    assert(s1 == d0) by {
        assert(trim_start(header) == header);
        lemma_trim_end_prefix(header);
    }
    let s2 = parse_line(s1, setting_line("auto"@, onoff));
    lemma_parse_setting_line(s1, "auto"@, onoff);
    let s3 = parse_line(s2, setting_line("sensitivity"@, sens));
    lemma_parse_setting_line(s2, "sensitivity"@, sens);
    let s4 = parse_line(s3, setting_line("layout"@, lay));
    lemma_parse_setting_line(s3, "layout"@, lay);
    lemma_apply_core(c);
    assert(s4 == ConfigState { auto: c.auto, sensitivity: c.sensitivity, layout: c.layout, ..d0 });
    assert(parse_lines(d0, core) == s4) by {
        let c1 = seq![header];
        let c2 = c1.push(setting_line("auto"@, onoff));
        let c3 = c2.push(setting_line("sensitivity"@, sens));
        assert(c1.drop_last() =~= Seq::<Seq<char>>::empty());
        assert(parse_lines(d0, Seq::<Seq<char>>::empty()) == d0);
        assert(parse_lines(d0, c1) == s1);
        assert(c2.drop_last() =~= c1);
        assert(parse_lines(d0, c2) == s2);
        assert(c3.drop_last() =~= c2);
        assert(parse_lines(d0, c3) == s3);
        assert(core.drop_last() =~= c3);
    }
    let s5 = parse_lines(s4, dis);
    if c.disabled_apps.len() > 0 {
        lemma_join_apps(c.disabled_apps);
        let v = join_with(c.disabled_apps, ", "@);
        assert(plain_app(c.disabled_apps[0]));
        assert(plain_app(c.disabled_apps[c.disabled_apps.len() - 1]));
        lemma_trimmed_ends(c.disabled_apps[0]);
        lemma_trimmed_ends(c.disabled_apps.last());
        lemma_trim_of_plain(v);
        lemma_parse_setting_line(s4, "disabled_apps"@, v);
        lemma_apply_disabled(s4, v);
        assert(dis.drop_last() =~= Seq::<Seq<char>>::empty());
        assert(s5 == ConfigState { disabled_apps: c.disabled_apps, ..s4 });
    } else {
        assert(c.disabled_apps =~= Seq::<Seq<char>>::empty());
        assert(dis =~= Seq::<Seq<char>>::empty());
        assert(parse_lines(s4, Seq::<Seq<char>>::empty()) == s4);
        assert(s5 == ConfigState { disabled_apps: c.disabled_apps, ..s4 });
    }
    lemma_parse_extra_lines(s5, c.extras);
    assert(s5.extras + c.extras =~= c.extras);
    // The final empty part changes nothing.
    assert(trim_start(Seq::<char>::empty()) == Seq::<char>::empty());
    assert(trim_end(Seq::<char>::empty()) == Seq::<char>::empty());
}

/// The core settings read back as written.
proof fn lemma_apply_core(c: ConfigState)
    ensures
        ({
            let s1 = apply_setting(default_state(), "auto"@, if c.auto { "on"@ } else { "off"@ });
            let s2 = apply_setting(s1, "sensitivity"@, sensitivity_name(c.sensitivity));
            let s3 = apply_setting(s2, "layout"@, layout_name(c.layout));
            s3 == ConfigState { auto: c.auto, sensitivity: c.sensitivity, layout: c.layout, ..default_state() }
        }),
{
    reveal_strlit("auto");
    reveal_strlit("on");
    reveal_strlit("off");
    reveal_strlit("sensitivity");
    reveal_strlit("conservative");
    reveal_strlit("balanced");
    reveal_strlit("aggressive");
    reveal_strlit("layout");
    reveal_strlit("dubeolsik");
    reveal_strlit("sebeolsik-390");
    reveal_strlit("sebeolsik-final");
    reveal_strlit("disabled_apps");
    reveal_strlit("true");
    reveal_strlit("1");
    reveal_strlit("false");
    reveal_strlit("0");
    reveal_strlit("2");
    reveal_strlit("sebeolsik390");
    reveal_strlit("390");
    reveal_strlit("sebeolsikfinal");
    reveal_strlit("3f");
    assert("auto"@.len() == 4 && "sensitivity"@.len() == 11 && "layout"@.len() == 6 && "disabled_apps"@.len() == 13);
    assert("on"@.len() == 2 && "off"@.len() == 3 && "true"@.len() == 4 && "false"@.len() == 5);
    assert("conservative"@.len() == 12 && "balanced"@.len() == 8 && "aggressive"@.len() == 10);
    assert("dubeolsik"@.len() == 9 && "2"@.len() == 1 && "sebeolsik-390"@.len() == 13 && "sebeolsik390"@.len() == 12);
    assert("390"@.len() == 3 && "sebeolsik-final"@.len() == 15 && "sebeolsikfinal"@.len() == 14 && "3f"@.len() == 2);
}

/// The `disabled_apps` key sets the list.
proof fn lemma_apply_disabled(c: ConfigState, v: Seq<char>)
    ensures
        apply_setting(c, "disabled_apps"@, v) == (ConfigState { disabled_apps: app_list(v), ..c }),
{
    reveal_strlit("auto");
    reveal_strlit("sensitivity");
    reveal_strlit("layout");
    reveal_strlit("disabled_apps");
    assert("auto"@.len() == 4 && "sensitivity"@.len() == 11 && "layout"@.len() == 6 && "disabled_apps"@.len() == 13);
}


/// The words of `exceptions.txt`: its lines, trimmed, blank ones dropped.
pub open spec fn exception_words(text: Seq<char>) -> Seq<Seq<char>> {
    nonempty_trimmed(split_on(text, '\n'))
}

/// The text of `exceptions.txt`: one word per line.
pub open spec fn spec_exceptions_text(words: Seq<Seq<char>>) -> Seq<char> {
    if words.len() == 0 { Seq::empty() } else { join_with(words, seq!['\n']).push('\n') }
}

/// Reads the exception list.
pub fn exceptions_from_text(text: &str) -> (words: Vec<String>)
    ensures
        strings_view(words@) == exception_words(text@),
{
    let chars = chars_of(text);
    split_nonempty_trimmed(&chars, '\n')
}

/// Writes the exception list, one word per line.
pub fn exceptions_to_text(words: &Vec<String>) -> (text: String)
    ensures
        text@ == spec_exceptions_text(strings_view(words@)),
{
    let mut text = join_strings(words, "\n");
    if words.len() > 0 {
        push_char(&mut text, '\n');
    }
    proof {
        reveal_strlit("\n");
        assert("\n"@ =~= seq!['\n']);
    }
    text
}

/// A word that reads back as written: not blank, trimmed, on one line.
pub open spec fn plain_word(w: Seq<char>) -> bool {
    w.len() > 0 && trim(w) == w && !w.contains('\n')
}

proof fn lemma_nonempty_trimmed_id(ws: Seq<Seq<char>>)
    requires
        forall|i: int| 0 <= i < ws.len() ==> plain_word(#[trigger] ws[i]),
    ensures
        nonempty_trimmed(ws) == ws,
    decreases ws.len(),
{
    if ws.len() > 0 {
        let init = ws.drop_last();
        assert forall|i: int| 0 <= i < init.len() implies plain_word(#[trigger] init[i]) by {
            assert(init[i] == ws[i]);
        }
        lemma_nonempty_trimmed_id(init);
        assert(plain_word(ws[ws.len() - 1]));
        assert(init.push(ws.last()) =~= ws);
    }
}

proof fn lemma_split_join_newline(ws: Seq<Seq<char>>)
    requires
        ws.len() > 0,
        forall|i: int| 0 <= i < ws.len() ==> !(#[trigger] ws[i]).contains('\n'),
    ensures
        split_on(join_with(ws, seq!['\n']), '\n') == ws,
    decreases ws.len(),
{
    let w = ws.last();
    assert(!ws[ws.len() - 1].contains('\n'));
    if ws.len() == 1 {
        lemma_split_extend(Seq::<char>::empty(), w, '\n');
        assert(Seq::<char>::empty() + w =~= w);
        assert(split_on(Seq::<char>::empty(), '\n') =~= seq![Seq::<char>::empty()]);
        assert(ws =~= seq![w]);
    } else {
        let init = ws.drop_last();
        assert forall|i: int| 0 <= i < init.len() implies !(#[trigger] init[i]).contains('\n') by {
            assert(init[i] == ws[i]);
        }
        lemma_split_join_newline(init);
        let j = join_with(init, seq!['\n']);
        assert(join_with(ws, seq!['\n']) =~= j.push('\n') + w);
        lemma_split_extend(j.push('\n'), w, '\n');
        lemma_split_sep(j, '\n');
        assert(init.push(Seq::<char>::empty()).update(init.len() as int, Seq::<char>::empty() + w) =~= ws);
    }
}

/// Writing an exception list and reading it back gives the same words,
/// for words that are not blank, trimmed and on one line.
pub proof fn lemma_exceptions_roundtrip(ws: Seq<Seq<char>>)
    requires
        forall|i: int| 0 <= i < ws.len() ==> plain_word(#[trigger] ws[i]),
    ensures
        exception_words(spec_exceptions_text(ws)) == ws,
{
    lemma_nonempty_trimmed_id(ws);
    if ws.len() == 0 {
        assert(split_on(Seq::<char>::empty(), '\n') =~= seq![Seq::<char>::empty()]);
        assert(seq![Seq::<char>::empty()].drop_last() =~= Seq::<Seq<char>>::empty());
        assert(trim(Seq::<char>::empty()).len() == 0) by {
            assert(trim_start(Seq::<char>::empty()) == Seq::<char>::empty());
            assert(trim_end(Seq::<char>::empty()) == Seq::<char>::empty());
        }
        assert(nonempty_trimmed(Seq::<Seq<char>>::empty()) == Seq::<Seq<char>>::empty());
    } else {
        lemma_split_join_newline(ws);
        lemma_split_sep(join_with(ws, seq!['\n']), '\n');
        assert(ws.push(Seq::<char>::empty()).drop_last() =~= ws);
        assert(trim(Seq::<char>::empty()).len() == 0) by {
            assert(trim_start(Seq::<char>::empty()) == Seq::<char>::empty());
            assert(trim_end(Seq::<char>::empty()) == Seq::<char>::empty());
        }
    }
}

pub proof fn lemma_lookup_without(e: Seq<(Seq<char>, Seq<char>)>, k: Seq<char>)
    ensures
        lookup(without_key(e, k), k) is None,
    decreases e.len(),
{
    if e.len() > 0 {
        let rest = without_key(e.drop_last(), k);
        lemma_lookup_without(e.drop_last(), k);
        if e.last().0 != k {
            lemma_lookup_append(rest, seq![e.last()], k);
            lemma_lookup_single_miss(e.last(), k);
            assert(rest.push(e.last()) =~= rest + seq![e.last()]);
        }
    } else {
        assert(without_key(e, k) == Seq::<(Seq<char>, Seq<char>)>::empty());
    }
}

pub proof fn lemma_lookup_single_miss(p: (Seq<char>, Seq<char>), k: Seq<char>)
    requires
        p.0 != k,
    ensures
        lookup(seq![p], k) is None,
{
    assert(seq![p].drop_first() =~= Seq::<(Seq<char>, Seq<char>)>::empty());
    assert(lookup(Seq::<(Seq<char>, Seq<char>)>::empty(), k) is None);
}

pub proof fn lemma_lookup_append(a: Seq<(Seq<char>, Seq<char>)>, b: Seq<(Seq<char>, Seq<char>)>, k: Seq<char>)
    requires
        lookup(a, k) is None,
    ensures
        lookup(a + b, k) == lookup(b, k),
    decreases a.len(),
{
    if a.len() == 0 {
        assert(a + b =~= b);
    } else {
        assert((a + b)[0] == a[0]);
        assert((a + b).drop_first() =~= a.drop_first() + b);
        lemma_lookup_append(a.drop_first(), b, k);
    }
}

/// Reading an adapter setting gives what was last written under its key,
/// and nothing once it was written empty.
pub proof fn lemma_set_extra_read(c: ConfigState, key: Seq<char>, value: Seq<char>)
    ensures
        ({
            let after = without_key(c.extras, key) + (if value.len() > 0 { seq![(key, value)] } else { Seq::empty() });
            lookup(after, key) == (if value.len() > 0 { Some(value) } else { None })
        }),
{
    lemma_lookup_without(c.extras, key);
    let w = without_key(c.extras, key);
    if value.len() > 0 {
        lemma_lookup_append(w, seq![(key, value)], key);
    } else {
        assert(w + Seq::<(Seq<char>, Seq<char>)>::empty() =~= w);
    }
}


/// Removing another key leaves a lookup unchanged.
pub proof fn lemma_lookup_without_other(e: Seq<(Seq<char>, Seq<char>)>, key: Seq<char>, k: Seq<char>)
    requires
        key != k,
    ensures
        lookup(without_key(e, key), k) == lookup(e, k),
    decreases e.len(),
{
    if e.len() > 0 {
        let init = e.drop_last();
        let rest = without_key(init, key);
        lemma_lookup_without_other(init, key, k);
        assert(init + seq![e.last()] =~= e);
        lemma_lookup_prefix(init, seq![e.last()], k);
        if e.last().0 != key {
            assert(rest.push(e.last()) =~= rest + seq![e.last()]);
            lemma_lookup_prefix(rest, seq![e.last()], k);
        } else {
            lemma_lookup_single_miss(e.last(), k);
        }
    } else {
        assert(without_key(e, key) == Seq::<(Seq<char>, Seq<char>)>::empty());
    }
}

/// A lookup that finds its key in a prefix ignores what follows; one
/// that does not goes on in it.
pub proof fn lemma_lookup_prefix(a: Seq<(Seq<char>, Seq<char>)>, b: Seq<(Seq<char>, Seq<char>)>, k: Seq<char>)
    ensures
        lookup(a + b, k) == (if lookup(a, k) is Some { lookup(a, k) } else { lookup(b, k) }),
    decreases a.len(),
{
    if a.len() == 0 {
        assert(a + b =~= b);
    } else {
        assert((a + b)[0] == a[0]);
        assert((a + b).drop_first() =~= a.drop_first() + b);
        lemma_lookup_prefix(a.drop_first(), b, k);
    }
}


/// The spellings each core setting accepts: `auto` is on for `on`, `true`,
/// `1` and off for `off`, `false`, `0`; `sensitivity` takes its three
/// names; `layout` takes `dubeolsik` or `2`, `sebeolsik-390`,
/// `sebeolsik390` or `390`, and `sebeolsik-final`, `sebeolsikfinal` or
/// `3f`. Each leaves the other settings as they were.
pub proof fn lemma_setting_spellings(c: ConfigState)
    ensures
        apply_setting(c, "auto"@, "on"@) == (ConfigState { auto: true, ..c }),
        apply_setting(c, "auto"@, "true"@) == (ConfigState { auto: true, ..c }),
        apply_setting(c, "auto"@, "1"@) == (ConfigState { auto: true, ..c }),
        apply_setting(c, "auto"@, "off"@) == (ConfigState { auto: false, ..c }),
        apply_setting(c, "auto"@, "false"@) == (ConfigState { auto: false, ..c }),
        apply_setting(c, "auto"@, "0"@) == (ConfigState { auto: false, ..c }),
        apply_setting(c, "sensitivity"@, "conservative"@) == (ConfigState { sensitivity: Sensitivity::Conservative, ..c }),
        apply_setting(c, "sensitivity"@, "balanced"@) == (ConfigState { sensitivity: Sensitivity::Balanced, ..c }),
        apply_setting(c, "sensitivity"@, "aggressive"@) == (ConfigState { sensitivity: Sensitivity::Aggressive, ..c }),
        apply_setting(c, "layout"@, "dubeolsik"@) == (ConfigState { layout: Layout::Dubeolsik, ..c }),
        apply_setting(c, "layout"@, "2"@) == (ConfigState { layout: Layout::Dubeolsik, ..c }),
        apply_setting(c, "layout"@, "sebeolsik-390"@) == (ConfigState { layout: Layout::Sebeolsik390, ..c }),
        apply_setting(c, "layout"@, "sebeolsik390"@) == (ConfigState { layout: Layout::Sebeolsik390, ..c }),
        apply_setting(c, "layout"@, "390"@) == (ConfigState { layout: Layout::Sebeolsik390, ..c }),
        apply_setting(c, "layout"@, "sebeolsik-final"@) == (ConfigState { layout: Layout::SebeolsikFinal, ..c }),
        apply_setting(c, "layout"@, "sebeolsikfinal"@) == (ConfigState { layout: Layout::SebeolsikFinal, ..c }),
        apply_setting(c, "layout"@, "3f"@) == (ConfigState { layout: Layout::SebeolsikFinal, ..c }),
{
    reveal_strlit("auto");
    reveal_strlit("sensitivity");
    reveal_strlit("layout");
    reveal_strlit("disabled_apps");
    reveal_strlit("on");
    reveal_strlit("true");
    reveal_strlit("1");
    reveal_strlit("off");
    reveal_strlit("false");
    reveal_strlit("0");
    reveal_strlit("conservative");
    reveal_strlit("balanced");
    reveal_strlit("aggressive");
    reveal_strlit("dubeolsik");
    reveal_strlit("2");
    reveal_strlit("sebeolsik-390");
    reveal_strlit("sebeolsik390");
    reveal_strlit("390");
    reveal_strlit("sebeolsik-final");
    reveal_strlit("sebeolsikfinal");
    reveal_strlit("3f");
    assert("0"@[0] != "1"@[0]);
    assert("auto"@.len() == 4 && "sensitivity"@.len() == 11 && "layout"@.len() == 6 && "disabled_apps"@.len() == 13 && "on"@.len() == 2 && "true"@.len() == 4 && "1"@.len() == 1 && "off"@.len() == 3 && "false"@.len() == 5 && "0"@.len() == 1 && "conservative"@.len() == 12 && "balanced"@.len() == 8 && "aggressive"@.len() == 10 && "dubeolsik"@.len() == 9 && "2"@.len() == 1 && "sebeolsik-390"@.len() == 13 && "sebeolsik390"@.len() == 12 && "390"@.len() == 3 && "sebeolsik-final"@.len() == 15 && "sebeolsikfinal"@.len() == 14 && "3f"@.len() == 2);
}

/// A line `auto = off`, `auto = false` or `auto = 0` turns automatic
/// correction off, and `auto = on`, `auto = true` or `auto = 1` turns it
/// on, whatever came before.
pub proof fn lemma_auto_lines(c: ConfigState)
    ensures
        !parse_line(c, setting_line("auto"@, "off"@)).auto,
        !parse_line(c, setting_line("auto"@, "false"@)).auto,
        !parse_line(c, setting_line("auto"@, "0"@)).auto,
        parse_line(c, setting_line("auto"@, "on"@)).auto,
        parse_line(c, setting_line("auto"@, "true"@)).auto,
        parse_line(c, setting_line("auto"@, "1"@)).auto,
{
    lemma_setting_spellings(c);
    reveal_strlit("auto");
    reveal_strlit("off");
    reveal_strlit("false");
    reveal_strlit("0");
    reveal_strlit("on");
    reveal_strlit("true");
    reveal_strlit("1");
    lemma_plain_literal("auto"@);
    lemma_plain_literal("off"@);
    lemma_plain_literal("false"@);
    lemma_plain_literal("0"@);
    lemma_plain_literal("on"@);
    lemma_plain_literal("true"@);
    lemma_plain_literal("1"@);
    lemma_parse_setting_line(c, "auto"@, "off"@);
    lemma_parse_setting_line(c, "auto"@, "false"@);
    lemma_parse_setting_line(c, "auto"@, "0"@);
    lemma_parse_setting_line(c, "auto"@, "on"@);
    lemma_parse_setting_line(c, "auto"@, "true"@);
    lemma_parse_setting_line(c, "auto"@, "1"@);
}

} // verus!
