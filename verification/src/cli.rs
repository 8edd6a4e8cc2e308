//! The command line tool's own logic: its options, and word-by-word
//! detection and correction of a line of text.
use vstd::prelude::*;
use crate::compose::{compose_keys, english_to_hangul};
use crate::decompose::{decompose_text, hangul_to_english};
use crate::detect::{spec_analyze, Detector, DetectorState, Sensitivity, Verdict, VerdictSpec};
use crate::layout::Layout;
use crate::text::{chars_eq, chars_of, is_whitespace, push_char, push_str, slice_chars, spec_is_whitespace, string_of};

verus! {

/// What the tool does with its text.
#[derive(Debug, Clone, Copy, PartialEq, Eq, Structural)]
pub enum CliMode {
    /// Detect and correct word by word.
    Auto,
    /// Convert everything to Hangul.
    ToHangul,
    /// Convert everything to English keys.
    ToEnglish,
}

/// The options of one run.
#[derive(Debug)]
pub struct CliOptions {
    pub mode: CliMode,
    pub sensitivity: Sensitivity,
    pub verbose: bool,
    /// `--help` was given: print the usage and stop.
    pub help: bool,
    /// The other arguments: the text, joined by spaces.
    pub text_args: Vec<String>,
}

pub ghost struct CliOptionsSpec {
    pub mode: CliMode,
    pub sensitivity: Sensitivity,
    pub verbose: bool,
    pub help: bool,
    pub text_args: Seq<Seq<char>>,
}

pub open spec fn options_view(o: CliOptions) -> CliOptionsSpec {
    CliOptionsSpec {
        mode: o.mode,
        sensitivity: o.sensitivity,
        verbose: o.verbose,
        help: o.help,
        text_args: o.text_args@.map_values(|s: String| s@),
    }
}

/// The options after the arguments, read in order; `--help` stops the
/// reading.
pub open spec fn spec_parse_args(args: Seq<Seq<char>>) -> CliOptionsSpec
    decreases args.len(),
{
    if args.len() == 0 {
        CliOptionsSpec { mode: CliMode::Auto, sensitivity: Sensitivity::Balanced, verbose: false, help: false, text_args: Seq::empty() }
    } else {
        let o = spec_parse_args(args.drop_last());
        let a = args.last();
        if o.help {
            o
        } else if a == "--to-hangul"@ {
            CliOptionsSpec { mode: CliMode::ToHangul, ..o }
        } else if a == "--to-english"@ {
            CliOptionsSpec { mode: CliMode::ToEnglish, ..o }
        } else if a == "--conservative"@ {
            CliOptionsSpec { sensitivity: Sensitivity::Conservative, ..o }
        } else if a == "--aggressive"@ {
            CliOptionsSpec { sensitivity: Sensitivity::Aggressive, ..o }
        } else if a == "-v"@ || a == "--verbose"@ {
            CliOptionsSpec { verbose: true, ..o }
        } else if a == "--help"@ {
            CliOptionsSpec { help: true, ..o }
        } else {
            CliOptionsSpec { text_args: o.text_args.push(a), ..o }
        }
    }
}

fn is_arg(a: &Vec<char>, lit: &str) -> (b: bool)
    ensures
        b == (a@ == lit@),
{
    chars_eq(a, &chars_of(lit))
}

/// Reads the command line arguments (the program name excluded).
pub fn parse_args(args: &Vec<String>) -> (o: CliOptions)
    ensures
        options_view(o) == spec_parse_args(args@.map_values(|s: String| s@)),
{
    let ghost all = args@.map_values(|s: String| s@);
    let mut o = CliOptions { mode: CliMode::Auto, sensitivity: Sensitivity::Balanced, verbose: false, help: false, text_args: Vec::new() };
    assert(options_view(o).text_args =~= Seq::<Seq<char>>::empty());
    let mut i: usize = 0;
    while i < args.len()
        invariant
            i <= args.len(),
            all == args@.map_values(|s: String| s@),
            options_view(o) == spec_parse_args(all.take(i as int)),
        decreases args.len() - i,
    {
        assert(all.take(i + 1).drop_last() =~= all.take(i as int));
        assert(all.take(i + 1).last() == args@[i as int]@);
        if !o.help {
            let a = chars_of(args[i].as_str());
            if is_arg(&a, "--to-hangul") {
                o.mode = CliMode::ToHangul;
            } else if is_arg(&a, "--to-english") {
                o.mode = CliMode::ToEnglish;
            } else if is_arg(&a, "--conservative") {
                o.sensitivity = Sensitivity::Conservative;
            } else if is_arg(&a, "--aggressive") {
                o.sensitivity = Sensitivity::Aggressive;
            } else if is_arg(&a, "-v") || is_arg(&a, "--verbose") {
                o.verbose = true;
            } else if is_arg(&a, "--help") {
                o.help = true;
            } else {
                let ghost before = o.text_args@;
                o.text_args.push(args[i].clone());
                assert(o.text_args@.map_values(|s: String| s@) =~= before.map_values(|s: String| s@).push(args@[i as int]@));
            }
        }
        i = i + 1;
    }
    assert(all.take(args.len() as int) =~= all);
    o
}

/// ASCII punctuation, as `char::is_ascii_punctuation`.
pub open spec fn spec_is_ascii_punct(c: char) -> bool {
    ('!' <= c <= '/') || (':' <= c <= '@') || ('[' <= c <= '`') || ('{' <= c <= '~')
}

fn is_ascii_punct(c: char) -> (b: bool)
    ensures
        b == spec_is_ascii_punct(c),
{
    ('!' <= c && c <= '/') || (':' <= c && c <= '@') || ('[' <= c && c <= '`') || ('{' <= c && c <= '~')
}

/// Number of leading punctuation characters.
pub open spec fn lead_punct(s: Seq<char>) -> int
    decreases s.len(),
{
    if s.len() > 0 && spec_is_ascii_punct(s[0]) { 1 + lead_punct(s.drop_first()) } else { 0 }
}

/// Number of trailing punctuation characters.
pub open spec fn trail_punct(s: Seq<char>) -> int
    decreases s.len(),
{
    if s.len() > 0 && spec_is_ascii_punct(s.last()) { 1 + trail_punct(s.drop_last()) } else { 0 }
}

/// A word corrected: the detector judges it without its leading and
/// trailing punctuation, which is put back around the conversion. The
/// second part is the correction made (`core`, `corrected`), if any.
pub open spec fn spec_correct_word(d: DetectorState, word: Seq<char>) -> (Seq<char>, Option<(Seq<char>, Seq<char>)>) {
    let a = lead_punct(word);
    let rest = word.skip(a);
    let core = rest.take(rest.len() - trail_punct(rest));
    let suffix = rest.skip(rest.len() - trail_punct(rest));
    if core.len() == 0 {
        (word, None)
    } else {
        match spec_analyze(d, core) {
            VerdictSpec::Keep => (word, None),
            VerdictSpec::ToHangul(s) => (word.take(a) + s + suffix, Some((core, s))),
            VerdictSpec::ToEnglish(s) => (word.take(a) + s + suffix, Some((core, s))),
        }
    }
}

proof fn lemma_punct_bounds(s: Seq<char>)
    ensures
        0 <= lead_punct(s) <= s.len(),
        0 <= trail_punct(s) <= s.len(),
        forall|i: int| 0 <= i < lead_punct(s) ==> spec_is_ascii_punct(#[trigger] s[i]),
    decreases s.len(),
{
    if s.len() > 0 {
        lemma_punct_bounds(s.drop_first());
        lemma_punct_bounds(s.drop_last());
        if spec_is_ascii_punct(s[0]) {
            assert forall|i: int| 0 <= i < lead_punct(s) implies spec_is_ascii_punct(#[trigger] s[i]) by {
                if i > 0 {
                    assert(s[i] == s.drop_first()[i - 1]);
                }
            }
        }
    }
}

/// Corrects one word; returns the text and the correction made, if any.
pub fn correct_word(detector: &Detector, word: &str) -> (r: (String, Option<(String, String)>))
    requires
        detector.wf(),
    ensures
        r.0@ == spec_correct_word(detector@, word@).0,
        match r.1 {
            Some((c, s)) => spec_correct_word(detector@, word@).1 == Some((c@, s@)),
            None => spec_correct_word(detector@, word@).1 is None,
        },
{
    let w = chars_of(word);
    let n = w.len();
    let mut a: usize = 0;
    assert(w@.skip(0) =~= w@);
    while a < n && is_ascii_punct(w[a])
        invariant
            a <= n == w@.len(),
            lead_punct(w@) == a + lead_punct(w@.skip(a as int)),
        decreases n - a,
    {
        assert(w@.skip(a as int).drop_first() =~= w@.skip(a + 1));
        a = a + 1;
    }
    let ghost rest = w@.skip(a as int);
    assert(lead_punct(rest) == 0);
    let mut b: usize = n;
    assert(rest =~= w@.subrange(a as int, b as int));
    while b > a && is_ascii_punct(w[b - 1])
        invariant
            a <= b <= n == w@.len(),
            rest == w@.skip(a as int),
            trail_punct(rest) == (n - b) + trail_punct(w@.subrange(a as int, b as int)),
        decreases b,
    {
        assert(w@.subrange(a as int, b as int).drop_last() =~= w@.subrange(a as int, b - 1));
        b = b - 1;
    }
    proof {
        lemma_punct_bounds(w@.subrange(a as int, b as int));
    }
    assert(trail_punct(rest) == n - b);
    let core = slice_chars(&w, a, b);
    assert(core@ =~= rest.take(rest.len() - trail_punct(rest)));
    if core.len() == 0 {
        return (word.to_owned(), None);
    }
    let core_s = string_of(&core);
    let corrected = match detector.analyze(core_s.as_str()) {
        Verdict::Keep => {
            return (word.to_owned(), None);
        },
        Verdict::ToHangul(s) => s,
        Verdict::ToEnglish(s) => s,
    };
    let prefix = slice_chars(&w, 0, a);
    let suffix = slice_chars(&w, b, n);
    assert(prefix@ =~= w@.take(a as int));
    assert(suffix@ =~= rest.skip(rest.len() - trail_punct(rest)));
    let mut out = string_of(&prefix);
    let cs = chars_of(corrected.as_str());
    let mut k: usize = 0;
    while k < cs.len()
        invariant
            k <= cs.len(),
            out@ == prefix@ + cs@.take(k as int),
        decreases cs.len() - k,
    {
        push_char(&mut out, cs[k]);
        assert(cs@.take(k + 1) =~= cs@.take(k as int).push(cs@[k as int]));
        k = k + 1;
    }
    let mut m: usize = 0;
    while m < suffix.len()
        invariant
            m <= suffix.len(),
            out@ == prefix@ + cs@ + suffix@.take(m as int),
        decreases suffix.len() - m,
    {
        push_char(&mut out, suffix[m]);
        assert(suffix@.take(m + 1) =~= suffix@.take(m as int).push(suffix@[m as int]));
        m = m + 1;
    }
    assert(cs@.take(cs.len() as int) =~= cs@);
    assert(suffix@.take(suffix.len() as int) =~= suffix@);
    (out, Some((core_s, corrected)))
}

/// The output and corrections of the words of a line read so far (the
/// last word still open).
pub open spec fn auto_fold(d: DetectorState, line: Seq<char>) -> (Seq<char>, Seq<char>, Seq<(Seq<char>, Seq<char>)>)
    decreases line.len(),
{
    if line.len() == 0 {
        (Seq::empty(), Seq::empty(), Seq::empty())
    } else {
        let (out, word, notes) = auto_fold(d, line.drop_last());
        let c = line.last();
        if spec_is_whitespace(c) {
            let (text, note) = spec_correct_word(d, word);
            (out + text.push(c), Seq::empty(), match note {
                Some(n) => notes.push(n),
                None => notes,
            })
        } else {
            (out, word.push(c), notes)
        }
    }
}

/// The result of a line: in `Auto`, each white-space separated word
/// corrected and the white space kept; otherwise the whole line converted.
/// The corrections made come in order.
pub open spec fn spec_process(d: DetectorState, mode: CliMode, line: Seq<char>) -> (Seq<char>, Seq<(Seq<char>, Seq<char>)>) {
    match mode {
        CliMode::ToHangul => (compose_keys(Layout::Dubeolsik, line), Seq::empty()),
        CliMode::ToEnglish => (decompose_text(Layout::Dubeolsik, line), Seq::empty()),
        CliMode::Auto => {
            let (out, word, notes) = auto_fold(d, line);
            let (text, note) = spec_correct_word(d, word);
            (out + text, match note {
                Some(n) => notes.push(n),
                None => notes,
            })
        },
    }
}

pub open spec fn notes_view(v: Seq<(String, String)>) -> Seq<(Seq<char>, Seq<char>)> {
    v.map_values(|p: (String, String)| (p.0@, p.1@))
}

/// Processes one line of text; returns the output and the corrections made
/// (for the verbose report).
pub fn process(detector: &Detector, mode: CliMode, line: &str) -> (r: (String, Vec<(String, String)>))
    requires
        detector.wf(),
    ensures
        r.0@ == spec_process(detector@, mode, line@).0,
        notes_view(r.1@) == spec_process(detector@, mode, line@).1,
{
    match mode {
        CliMode::ToHangul => {
            let v: Vec<(String, String)> = Vec::new();
            assert(notes_view(v@) =~= Seq::<(Seq<char>, Seq<char>)>::empty());
            return (english_to_hangul(line), v);
        },
        CliMode::ToEnglish => {
            let v: Vec<(String, String)> = Vec::new();
            assert(notes_view(v@) =~= Seq::<(Seq<char>, Seq<char>)>::empty());
            return (hangul_to_english(line), v);
        },
        CliMode::Auto => {},
    }
    let chars = chars_of(line);
    let mut out = String::new();
    let mut word = String::new();
    let mut notes: Vec<(String, String)> = Vec::new();
    assert(notes_view(notes@) =~= Seq::<(Seq<char>, Seq<char>)>::empty());
    let mut i: usize = 0;
    while i < chars.len()
        invariant
            i <= chars.len(),
            chars@ == line@,
            detector.wf(),
            auto_fold(detector@, chars@.take(i as int)) == (out@, word@, notes_view(notes@)),
        decreases chars.len() - i,
    {
        let c = chars[i];
        assert(chars@.take(i + 1).drop_last() =~= chars@.take(i as int));
        assert(chars@.take(i + 1).last() == c);
        if is_whitespace(c) {
            let (text, note) = correct_word(detector, word.as_str());
            push_str(&mut out, text.as_str());
            push_char(&mut out, c);
            match note {
                Some(n) => {
                    let ghost before = notes@;
                    notes.push(n);
                    assert(notes_view(notes@) =~= notes_view(before).push((notes@.last().0@, notes@.last().1@)));
                },
                None => {},
            }
            word = String::new();
        } else {
            push_char(&mut word, c);
        }
        i = i + 1;
    }
    assert(chars@.take(chars.len() as int) =~= chars@);
    let (text, note) = correct_word(detector, word.as_str());
    push_str(&mut out, text.as_str());
    match note {
        Some(n) => {
            let ghost before = notes@;
            notes.push(n);
            assert(notes_view(notes@) =~= notes_view(before).push((notes@.last().0@, notes@.last().1@)));
        },
        None => {},
    }
    (out, notes)
}

} // verus!
