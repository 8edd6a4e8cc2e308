//! Dictionary and bigram model lookups used as detection evidence.
//!
//! A lexicon holds sorted English and Korean word lists, looked up by binary
//! search, and quantised bigram log-probabilities: ln P(next | previous)
//! times 256, symbol 0 being the word boundary. English symbols are
//! 1..=26 for a-z; Korean symbols are 1..=51 for the compatibility jamo
//! U+3131..U+3163, syllables being read as their initial, vowel and final.
use vstd::prelude::*;
use crate::hangul::{
    cho_seq, decompose_syllable, is_compat_jamo, jong_seq, jung_seq, spec_decompose,
    spec_is_compat_jamo, CHOSEONG, JONGSEONG, JUNGSEONG,
};
use crate::lexicon_data::{builtin_english, builtin_english_words, builtin_korean, builtin_korean_words, builtin_lexicon, lemma_builtin_wf};
use crate::text::{chars_of, is_ascii_alpha, spec_is_ascii_alpha, spec_is_ascii_lower, spec_lower, string_of, to_lower};

verus! {

/// Quantised log-probability of an unobserved transition (-12.0 × 256).
pub const MISSING_LP: i16 = -3072;
pub const EN_SYMBOLS: usize = 27;
pub const KO_SYMBOLS: usize = 52;

/// Lexicographic order on characters (the order of UTF-8 strings).
pub open spec fn seq_lt(a: Seq<char>, b: Seq<char>) -> bool
    decreases a.len(),
{
    if a.len() == 0 {
        b.len() > 0
    } else if b.len() == 0 {
        false
    } else if a[0] < b[0] {
        true
    } else if a[0] == b[0] {
        seq_lt(a.drop_first(), b.drop_first())
    } else {
        false
    }
}

pub proof fn lemma_lt_irrefl(a: Seq<char>)
    ensures
        !seq_lt(a, a),
    decreases a.len(),
{
    if a.len() > 0 {
        lemma_lt_irrefl(a.drop_first());
    }
}

pub proof fn lemma_lt_trans(a: Seq<char>, b: Seq<char>, c: Seq<char>)
    requires
        seq_lt(a, b),
        seq_lt(b, c),
    ensures
        seq_lt(a, c),
    decreases a.len(),
{
    if a.len() > 0 && b.len() > 0 && c.len() > 0 && a[0] == b[0] && b[0] == c[0] {
        lemma_lt_trans(a.drop_first(), b.drop_first(), c.drop_first());
    }
}

proof fn lemma_lt_skip(a: Seq<char>, b: Seq<char>, i: int)
    requires
        0 <= i <= a.len(),
        i <= b.len(),
        a.take(i) == b.take(i),
    ensures
        seq_lt(a, b) == seq_lt(a.skip(i), b.skip(i)),
    decreases i,
{
    if i > 0 {
        assert(a[0] == a.take(i)[0]);
        assert(b[0] == b.take(i)[0]);
        assert(a.drop_first().take(i - 1) =~= a.take(i).drop_first());
        assert(b.drop_first().take(i - 1) =~= b.take(i).drop_first());
        lemma_lt_skip(a.drop_first(), b.drop_first(), i - 1);
        assert(a.drop_first().skip(i - 1) =~= a.skip(i));
        assert(b.drop_first().skip(i - 1) =~= b.skip(i));
    } else {
        assert(a.skip(0) =~= a);
        assert(b.skip(0) =~= b);
    }
}

/// Three-way comparison: -1, 0 or 1.
fn compare_chars(a: &Vec<char>, b: &Vec<char>) -> (r: i8)
    ensures
        r == -1 <==> seq_lt(a@, b@),
        r == 0 <==> a@ == b@,
        r == 1 <==> seq_lt(b@, a@),
        r == -1 || r == 0 || r == 1,
{
    let mut i: usize = 0;
    while i < a.len() && i < b.len()
        invariant
            i <= a.len(),
            i <= b.len(),
            a@.take(i as int) == b@.take(i as int),
        decreases a.len() - i,
    {
        if a[i] != b[i] {
            proof {
                lemma_lt_skip(a@, b@, i as int);
                lemma_lt_skip(b@, a@, i as int);
                assert(a@.skip(i as int)[0] == a@[i as int]);
                assert(b@.skip(i as int)[0] == b@[i as int]);
            }
            if a[i] < b[i] {
                return -1;
            } else {
                return 1;
            }
        }
        assert(a@.take(i + 1) =~= a@.take(i as int).push(a@[i as int]));
        assert(b@.take(i + 1) =~= b@.take(i as int).push(b@[i as int]));
        i = i + 1;
    }
    proof {
        lemma_lt_skip(a@, b@, i as int);
        lemma_lt_skip(b@, a@, i as int);
    }
    if a.len() == b.len() {
        assert(a@ =~= a@.take(i as int));
        assert(b@ =~= b@.take(i as int));
        proof { lemma_lt_irrefl(a@); }
        0
    } else if a.len() < b.len() {
        -1
    } else {
        1
    }
}

pub open spec fn sorted(w: Seq<Seq<char>>) -> bool {
    forall|i: int, j: int| 0 <= i < j < w.len() ==> seq_lt(#[trigger] w[i], #[trigger] w[j])
}

pub open spec fn table_ok(t: Seq<Seq<i16>>, n: int) -> bool {
    &&& t.len() == n
    &&& forall|i: int| 0 <= i < n ==> (#[trigger] t[i]).len() == n
}

/// The abstract content of a lexicon.
pub ghost struct LexiconState {
    pub en_words: Seq<Seq<char>>,
    pub ko_words: Seq<Seq<char>>,
    pub en_bigram: Seq<Seq<i16>>,
    pub ko_bigram: Seq<Seq<i16>>,
}

/// Word lists (sorted, for binary search) and bigram tables.
#[derive(Debug)]
pub struct Lexicon {
    en_words: Vec<Vec<char>>,
    ko_words: Vec<Vec<char>>,
    en_bigram: Vec<Vec<i16>>,
    ko_bigram: Vec<Vec<i16>>,
}

pub open spec fn vv_view<T>(v: Seq<Vec<T>>) -> Seq<Seq<T>> {
    v.map_values(|x: Vec<T>| x@)
}

impl View for Lexicon {
    type V = LexiconState;

    closed spec fn view(&self) -> LexiconState {
        LexiconState {
            en_words: vv_view(self.en_words@),
            ko_words: vv_view(self.ko_words@),
            en_bigram: vv_view(self.en_bigram@),
            ko_bigram: vv_view(self.ko_bigram@),
        }
    }
}

/// A word an English list may hold: lower-case ASCII letters only.
pub open spec fn english_shaped(w: Seq<char>) -> bool {
    forall|i: int| 0 <= i < w.len() ==> spec_is_ascii_lower(#[trigger] w[i])
}

/// A word a Korean list may hold: no ASCII letter.
pub open spec fn korean_shaped(w: Seq<char>) -> bool {
    forall|i: int| 0 <= i < w.len() ==> !spec_is_ascii_alpha(#[trigger] w[i])
}

pub open spec fn all_english_shaped(ws: Seq<Seq<char>>) -> bool {
    forall|i: int| 0 <= i < ws.len() ==> english_shaped(#[trigger] ws[i])
}

pub open spec fn all_korean_shaped(ws: Seq<Seq<char>>) -> bool {
    forall|i: int| 0 <= i < ws.len() ==> korean_shaped(#[trigger] ws[i])
}

pub open spec fn lexicon_wf(l: LexiconState) -> bool {
    &&& sorted(l.en_words)
    &&& sorted(l.ko_words)
    &&& all_english_shaped(l.en_words)
    &&& all_korean_shaped(l.ko_words)
    &&& table_ok(l.en_bigram, EN_SYMBOLS as int)
    &&& table_ok(l.ko_bigram, KO_SYMBOLS as int)
}

/// Binary search in a sorted list.
fn sorted_contains(words: &Vec<Vec<char>>, key: &Vec<char>) -> (b: bool)
    requires
        sorted(vv_view(words@)),
    ensures
        b == vv_view(words@).contains(key@),
{
    let ghost w = vv_view(words@);
    let mut lo: usize = 0;
    let mut hi: usize = words.len();
    while lo < hi
        invariant
            lo <= hi <= words.len(),
            w == vv_view(words@),
            w.len() == words.len(),
            sorted(w),
            forall|j: int| 0 <= j < lo ==> seq_lt(#[trigger] w[j], key@),
            forall|j: int| hi <= j < w.len() ==> seq_lt(key@, #[trigger] w[j]),
        decreases hi - lo,
    {
        let mid = lo + (hi - lo) / 2;
        let r = compare_chars(&words[mid], key);
        assert(w[mid as int] == words@[mid as int]@);
        if r == 0 {
            assert(w[mid as int] == key@);
            return true;
        } else if r == -1 {
            assert forall|j: int| 0 <= j < mid + 1 implies seq_lt(#[trigger] w[j], key@) by {
                if j < mid {
                    lemma_lt_trans(w[j], w[mid as int], key@);
                }
            }
            lo = mid + 1;
        } else {
            assert forall|j: int| mid <= j < w.len() implies seq_lt(key@, #[trigger] w[j]) by {
                if j > mid {
                    lemma_lt_trans(key@, w[mid as int], w[j]);
                }
            }
            hi = mid;
        }
    }
    assert forall|j: int| 0 <= j < w.len() implies w[j] != key@ by {
        lemma_lt_irrefl(key@);
    }
    false
}

/// Checks that a list is strictly sorted, converting it for lookups.
fn sorted_chars(words: &Vec<String>) -> (r: Option<Vec<Vec<char>>>)
    ensures
        match r {
            Some(v) => vv_view(v@) == words@.map_values(|s: String| s@) && sorted(vv_view(v@)),
            None => !sorted(words@.map_values(|s: String| s@)),
        },
{
    let ghost src = words@.map_values(|s: String| s@);
    let mut out: Vec<Vec<char>> = Vec::new();
    let mut i: usize = 0;
    while i < words.len()
        invariant
            i <= words.len(),
            src == words@.map_values(|s: String| s@),
            vv_view(out@) == src.take(i as int),
            out@.len() == i,
            sorted(vv_view(out@)),
        decreases words.len() - i,
    {
        let w = chars_of(words[i].as_str());
        assert(src[i as int] == w@);
        let ghost prev = vv_view(out@);
        if i > 0 {
            let r = compare_chars(&out[i - 1], &w);
            assert(prev[i - 1] == out@[i - 1]@);
            if r != -1 {
                assert(src[i - 1] == prev[i - 1]);
                assert(!sorted(src)) by {
                    assert(!seq_lt(src[i - 1], src[i as int]));
                }
                return None;
            }
            let ghost next = prev.push(w@);
            assert forall|a: int, b: int| 0 <= a < b < i + 1 implies seq_lt(#[trigger] next[a], #[trigger] next[b]) by {
                if b == i {
                    if a < i - 1 {
                        lemma_lt_trans(prev[a], prev[i - 1], w@);
                    }
                } else {
                    assert(next[a] == prev[a] && next[b] == prev[b]);
                }
            }
            assert(vv_view(out@.push(w)) =~= next);
        }
        out.push(w);
        assert(vv_view(out@) =~= src.take(i + 1));
        i = i + 1;
    }
    assert(src.take(words.len() as int) =~= src);
    Some(out)
}

/// Whether every word has the shape of its list: lower-case ASCII letters
/// for English, no ASCII letter for Korean.
fn words_shaped(words: &Vec<Vec<char>>, english: bool) -> (b: bool)
    ensures
        b == if english { all_english_shaped(vv_view(words@)) } else { all_korean_shaped(vv_view(words@)) },
{
    let ghost ws = vv_view(words@);
    let mut i: usize = 0;
    while i < words.len()
        invariant
            i <= words.len(),
            ws == vv_view(words@),
            ws.len() == words.len(),
            forall|k: int| 0 <= k < i ==> if english { english_shaped(#[trigger] ws[k]) } else { korean_shaped(ws[k]) },
        decreases words.len() - i,
    {
        let w = &words[i];
        assert(ws[i as int] == w@);
        let mut j: usize = 0;
        while j < w.len()
            invariant
                j <= w.len(),
                i < words.len(),
                ws == vv_view(words@),
                w@ == ws[i as int],
                forall|m: int| 0 <= m < j ==> if english { spec_is_ascii_lower(#[trigger] w@[m]) } else { !spec_is_ascii_alpha(w@[m]) },
            decreases w.len() - j,
        {
            let c = w[j];
            let ok = if english { 'a' <= c && c <= 'z' } else { !is_ascii_alpha(c) };
            if !ok {
                assert(ws[i as int][j as int] == c);
                assert(!(if english { english_shaped(ws[i as int]) } else { korean_shaped(ws[i as int]) }));
                return false;
            }
            j = j + 1;
        }
        assert(if english { english_shaped(ws[i as int]) } else { korean_shaped(ws[i as int]) });
        i = i + 1;
    }
    true
}

/// An `n` × `n` table in which every transition is unobserved.
pub open spec fn missing_table_spec(n: nat) -> Seq<Seq<i16>> {
    Seq::new(n, |i: int| Seq::new(n, |j: int| MISSING_LP))
}

/// The lexicon without words: no word lists, every transition of both
/// bigram tables at the unobserved value.
pub open spec fn empty_lexicon() -> LexiconState {
    LexiconState {
        en_words: Seq::empty(),
        ko_words: Seq::empty(),
        en_bigram: missing_table_spec(EN_SYMBOLS as nat),
        ko_bigram: missing_table_spec(KO_SYMBOLS as nat),
    }
}

/// A table of the given size filled with the unobserved-transition value.
fn missing_table(n: usize) -> (t: Vec<Vec<i16>>)
    ensures
        table_ok(vv_view(t@), n as int),
        vv_view(t@) == missing_table_spec(n as nat),
{
    let mut t: Vec<Vec<i16>> = Vec::new();
    let mut i: usize = 0;
    while i < n
        invariant
            i <= n,
            t@.len() == i,
            forall|k: int| 0 <= k < i ==> (#[trigger] t@[k])@.len() == n,
            forall|k: int| 0 <= k < i ==> (#[trigger] t@[k])@ == Seq::new(n as nat, |j: int| MISSING_LP),
        decreases n - i,
    {
        let mut row: Vec<i16> = Vec::new();
        let mut j: usize = 0;
        while j < n
            invariant
                j <= n,
                row@.len() == j,
                forall|m: int| 0 <= m < j ==> row@[m] == MISSING_LP,
            decreases n - j,
        {
            row.push(MISSING_LP);
            j = j + 1;
        }
        assert(row@ =~= Seq::new(n as nat, |j: int| MISSING_LP));
        t.push(row);
        i = i + 1;
    }
    assert(vv_view(t@) =~= missing_table_spec(n as nat));
    t
}

fn table_has_size(t: &Vec<Vec<i16>>, n: usize) -> (b: bool)
    ensures
        b == table_ok(vv_view(t@), n as int),
{
    if t.len() != n {
        return false;
    }
    let mut i: usize = 0;
    while i < n
        invariant
            i <= n,
            t.len() == n,
            forall|k: int| 0 <= k < i ==> (#[trigger] vv_view(t@)[k]).len() == n,
        decreases n - i,
    {
        if t[i].len() != n {
            assert(vv_view(t@)[i as int].len() != n);
            return false;
        }
        i = i + 1;
    }
    true
}

/// Lower-cases the ASCII letters of a sequence.
pub open spec fn lower_seq(s: Seq<char>) -> Seq<char> {
    s.map_values(|c: char| spec_lower(c))
}

/// The Korean bigram symbols of one character: a syllable gives its
/// initial, vowel and (if any) final; a compatibility jamo itself.
pub open spec fn jamo_symbol(c: char) -> int {
    (c as u32) - 0x3131 + 1
}

pub open spec fn ko_char_symbols(c: char) -> Option<Seq<int>> {
    match spec_decompose(c) {
        Some((cho, jung, jong)) => Some(
            seq![jamo_symbol(cho_seq()[cho]), jamo_symbol(jung_seq()[jung])]
                + if jong > 0 { seq![jamo_symbol(jong_seq()[jong - 1])] } else { Seq::empty() },
        ),
        None => if spec_is_compat_jamo(c) { Some(seq![jamo_symbol(c)]) } else { None },
    }
}

/// The Korean symbol stream of a word; `None` if it holds a non-Hangul character.
pub open spec fn ko_symbols(w: Seq<char>) -> Option<Seq<int>>
    decreases w.len(),
{
    if w.len() == 0 {
        Some(Seq::empty())
    } else {
        match (ko_symbols(w.drop_last()), ko_char_symbols(w.last())) {
            (Some(a), Some(b)) => Some(a + b),
            _ => None,
        }
    }
}

/// The English symbol stream of a word (lower-cased); `None` if it holds a
/// character other than a-z.
pub open spec fn en_symbols(w: Seq<char>) -> Option<Seq<int>> {
    if forall|i: int| 0 <= i < w.len() ==> spec_is_ascii_lower(#[trigger] lower_seq(w)[i]) {
        Some(lower_seq(w).map_values(|c: char| (c as u32) - ('a' as u32) + 1))
    } else {
        None
    }
}

/// Sum of the transitions boundary → s[0] → ... → s[last] (end boundary excluded).
pub open spec fn trans_sum(t: Seq<Seq<i16>>, s: Seq<int>) -> int
    decreases s.len(),
{
    if s.len() == 0 {
        0
    } else {
        let prev = if s.len() >= 2 { s[s.len() - 2] } else { 0 };
        trans_sum(t, s.drop_last()) + t[prev][s.last()]
    }
}

/// Sum of all transitions from boundary to boundary.
pub open spec fn path_lp(t: Seq<Seq<i16>>, s: Seq<int>) -> int {
    trans_sum(t, s) + t[if s.len() > 0 { s.last() } else { 0 }][0]
}

/// The (log-probability sum, symbol count) of a symbol stream, or `None`
/// for an empty stream.
pub open spec fn bigram_lp(t: Seq<Seq<i16>>, syms: Option<Seq<int>>) -> Option<(int, int)> {
    match syms {
        Some(s) => if s.len() == 0 { None } else { Some((path_lp(t, s), s.len() as int)) },
        None => None,
    }
}

/// The length of the longest dictionary word that is a prefix of `w`
/// among its first `k` characters (0 if none).
pub open spec fn longest_prefix(words: Seq<Seq<char>>, w: Seq<char>, k: int) -> int
    decreases k,
{
    if k <= 0 {
        0
    } else if words.contains(w.take(k)) {
        k
    } else {
        longest_prefix(words, w, k - 1)
    }
}

fn path_sum(t: &Vec<Vec<i16>>, syms: &Vec<usize>, n: usize) -> (r: i128)
    requires
        table_ok(vv_view(t@), n as int),
        syms.len() > 0,
        forall|i: int| 0 <= i < syms.len() ==> #[trigger] syms@[i] < n,
    ensures
        r == path_lp(vv_view(t@), syms@.map_values(|x: usize| x as int)),
        -32768 * (syms.len() + 1) <= r <= 32767 * (syms.len() + 1),
{
    let ghost tv = vv_view(t@);
    let ghost s = syms@.map_values(|x: usize| x as int);
    assert(syms@[0] < n);
    let mut sum: i128 = 0;
    let mut prev: usize = 0;
    let mut i: usize = 0;
    while i < syms.len()
        invariant
            i <= syms.len(),
            tv == vv_view(t@),
            s == syms@.map_values(|x: usize| x as int),
            table_ok(tv, n as int),
            forall|k: int| 0 <= k < syms.len() ==> #[trigger] syms@[k] < n,
            prev < n,
            prev == if i > 0 { s[i - 1] } else { 0 },
            sum == trans_sum(tv, s.take(i as int)),
            -32768 * i <= sum <= 32767 * i,
        decreases syms.len() - i,
    {
        let x = syms[i];
        assert(tv[prev as int][x as int] == t@[prev as int]@[x as int]);
        let v = t[prev][x];
        assert(s.take(i + 1).drop_last() =~= s.take(i as int));
        proof {
            if i >= 1 {
                assert(s.take(i + 1)[i - 1] == s[i - 1]);
            }
        }
        sum = sum + v as i128;
        prev = x;
        i = i + 1;
    }
    assert(s.take(syms.len() as int) =~= s);
    assert(tv[prev as int][0] == t@[prev as int]@[0]);
    sum + t[prev][0] as i128
}

impl Lexicon {
    pub open spec fn wf(&self) -> bool {
        lexicon_wf(self@)
    }

    /// A lexicon without words, every transition unobserved.
    pub fn empty() -> (l: Lexicon)
        ensures
            l.wf(),
            l@ == empty_lexicon(),
    {
        let l = Lexicon {
            en_words: Vec::new(),
            ko_words: Vec::new(),
            en_bigram: missing_table(EN_SYMBOLS),
            ko_bigram: missing_table(KO_SYMBOLS),
        };
        assert(vv_view(l.en_words@) =~= Seq::<Seq<char>>::empty());
        assert(vv_view(l.ko_words@) =~= Seq::<Seq<char>>::empty());
        l
    }

    /// The built-in lexicon: the seed word lists, no bigram observed.
    pub fn builtin() -> (l: Lexicon)
        ensures
            l.wf(),
            l@ == builtin_lexicon(),
    {
        proof {
            lemma_builtin_wf();
        }
        Lexicon {
            en_words: builtin_english(),
            ko_words: builtin_korean(),
            en_bigram: missing_table(EN_SYMBOLS),
            ko_bigram: missing_table(KO_SYMBOLS),
        }
    }

    /// Builds a lexicon from its word lists (each strictly sorted; English
    /// words of lower-case ASCII letters, Korean words without ASCII
    /// letters) and its
    /// bigram tables (27 × 27 for English, 52 × 52 for Korean); `None` if
    /// one of these does not hold.
    pub fn new(en_words: Vec<String>, ko_words: Vec<String>, en_bigram: Vec<Vec<i16>>, ko_bigram: Vec<Vec<i16>>) -> (r: Option<Lexicon>)
        ensures
            r is Some <==> (sorted(en_words@.map_values(|s: String| s@)) && sorted(
                ko_words@.map_values(|s: String| s@),
            ) && all_english_shaped(en_words@.map_values(|s: String| s@)) && all_korean_shaped(
                ko_words@.map_values(|s: String| s@),
            ) && table_ok(vv_view(en_bigram@), EN_SYMBOLS as int) && table_ok(vv_view(ko_bigram@), KO_SYMBOLS as int)),
            r matches Some(l) ==> l.wf() && l@.en_words == en_words@.map_values(|s: String| s@)
                && l@.ko_words == ko_words@.map_values(|s: String| s@) && l@.en_bigram == vv_view(en_bigram@)
                && l@.ko_bigram == vv_view(ko_bigram@),
    {
        let en = match sorted_chars(&en_words) {
            Some(v) => v,
            None => return None,
        };
        let ko = match sorted_chars(&ko_words) {
            Some(v) => v,
            None => return None,
        };
        if !words_shaped(&en, true) || !words_shaped(&ko, false) {
            return None;
        }
        if !table_has_size(&en_bigram, EN_SYMBOLS) || !table_has_size(&ko_bigram, KO_SYMBOLS) {
            return None;
        }
        Some(Lexicon { en_words: en, ko_words: ko, en_bigram, ko_bigram })
    }

    /// The English word list, sorted.
    pub fn english_words(&self) -> (v: Vec<String>)
        ensures
            v@.map_values(|s: String| s@) == self@.en_words,
    {
        words_to_strings(&self.en_words)
    }

    /// The Korean word list, sorted.
    pub fn korean_words(&self) -> (v: Vec<String>)
        ensures
            v@.map_values(|s: String| s@) == self@.ko_words,
    {
        words_to_strings(&self.ko_words)
    }

    /// Whether the word, lower-cased, is in the English dictionary.
    pub fn english_word_exists(&self, word: &str) -> (b: bool)
        requires
            self.wf(),
        ensures
            b == self@.en_words.contains(lower_seq(word@)),
    {
        let chars = chars_of(word);
        let mut lower: Vec<char> = Vec::new();
        let mut i: usize = 0;
        while i < chars.len()
            invariant
                i <= chars.len(),
                lower@ == lower_seq(chars@.take(i as int)),
            decreases chars.len() - i,
        {
            lower.push(to_lower(chars[i]));
            assert(lower_seq(chars@.take(i + 1)) =~= lower_seq(chars@.take(i as int)).push(spec_lower(chars@[i as int])));
            i = i + 1;
        }
        assert(chars@.take(chars.len() as int) =~= chars@);
        sorted_contains(&self.en_words, &lower)
    }

    /// Whether the word is in the Korean dictionary.
    pub fn korean_word_exists(&self, word: &str) -> (b: bool)
        requires
            self.wf(),
        ensures
            b == self@.ko_words.contains(word@),
    {
        let chars = chars_of(word);
        sorted_contains(&self.ko_words, &chars)
    }

    fn korean_chars_exist(&self, w: &Vec<char>) -> (b: bool)
        requires
            self.wf(),
        ensures
            b == self@.ko_words.contains(w@),
    {
        sorted_contains(&self.ko_words, w)
    }

    /// Length in characters of the longest dictionary word that is a prefix
    /// of `word` (0 if none) — to give partial credit to forms with a
    /// particle or ending ("괜찮아요" = "괜찮아" + "요").
    pub fn korean_longest_dict_prefix_chars(&self, word: &str) -> (n: usize)
        requires
            self.wf(),
        ensures
            n == longest_prefix(self@.ko_words, word@, word@.len() as int),
    {
        let chars = chars_of(word);
        let mut k: usize = chars.len();
        while k > 0
            invariant
                k <= chars.len(),
                chars@ == word@,
                longest_prefix(self@.ko_words, word@, word@.len() as int) == longest_prefix(self@.ko_words, word@, k as int),
                self.wf(),
            decreases k,
        {
            let mut prefix: Vec<char> = Vec::new();
            let mut i: usize = 0;
            while i < k
                invariant
                    i <= k <= chars.len(),
                    prefix@ == chars@.take(i as int),
                decreases k - i,
            {
                prefix.push(chars[i]);
                assert(chars@.take(i + 1) =~= chars@.take(i as int).push(chars@[i as int]));
                i = i + 1;
            }
            if self.korean_chars_exist(&prefix) {
                return k;
            }
            k = k - 1;
        }
        0
    }

    /// The Korean bigram (log-probability sum ×256, symbol count) of a word
    /// read as jamo; `None` if it holds a non-Hangul character or nothing.
    pub fn korean_jamo_bigram_lp(&self, word: &str) -> (r: Option<(i128, usize)>)
        requires
            self.wf(),
        ensures
            match r {
                Some((sum, n)) => bigram_lp(self@.ko_bigram, ko_symbols(word@)) == Some((sum as int, n as int))
                && -32768 * (n + 1) <= sum <= 32767 * (n + 1),
                None => bigram_lp(self@.ko_bigram, ko_symbols(word@)) is None,
            },
    {
        let chars = chars_of(word);
        match korean_symbols(&chars) {
            Some(syms) => {
                if syms.len() == 0 {
                    None
                } else {
                    let s = path_sum(&self.ko_bigram, &syms, KO_SYMBOLS);
                    Some((s, syms.len()))
                }
            },
            None => None,
        }
    }

    /// The English bigram (log-probability sum ×256, symbol count) of a word,
    /// lower-cased; `None` if it holds a character other than a letter, or
    /// nothing.
    pub fn english_bigram_lp(&self, word: &str) -> (r: Option<(i128, usize)>)
        requires
            self.wf(),
        ensures
            match r {
                Some((sum, n)) => bigram_lp(self@.en_bigram, en_symbols(word@)) == Some((sum as int, n as int))
                && -32768 * (n + 1) <= sum <= 32767 * (n + 1),
                None => bigram_lp(self@.en_bigram, en_symbols(word@)) is None,
            },
    {
        let chars = chars_of(word);
        let mut syms: Vec<usize> = Vec::new();
        let ghost target = lower_seq(word@).map_values(|c: char| (c as u32) - ('a' as u32) + 1);
        let mut i: usize = 0;
        while i < chars.len()
            invariant
                i <= chars.len(),
                chars@ == word@,
                target == lower_seq(word@).map_values(|c: char| (c as u32) - ('a' as u32) + 1),
                syms@.len() == i,
                forall|k: int| 0 <= k < i ==> spec_is_ascii_lower(#[trigger] lower_seq(word@)[k]),
                forall|k: int| 0 <= k < i ==> (#[trigger] syms@[k]) as int == target[k] && syms@[k] < EN_SYMBOLS,
            decreases chars.len() - i,
        {
            let c = to_lower(chars[i]);
            assert(lower_seq(word@)[i as int] == c);
            if !('a' <= c && c <= 'z') {
                assert(!spec_is_ascii_lower(lower_seq(word@)[i as int]));
                return None;
            }
            syms.push((c as u32 - 'a' as u32 + 1) as usize);
            i = i + 1;
        }
        assert(syms@.map_values(|x: usize| x as int) =~= target);
        if syms.len() == 0 {
            return None;
        }
        let s = path_sum(&self.en_bigram, &syms, EN_SYMBOLS);
        Some((s, syms.len()))
    }
}

fn words_to_strings(words: &Vec<Vec<char>>) -> (v: Vec<String>)
    ensures
        v@.map_values(|s: String| s@) == vv_view(words@),
{
    let mut v: Vec<String> = Vec::new();
    let mut i: usize = 0;
    while i < words.len()
        invariant
            i <= words.len(),
            v@.map_values(|s: String| s@) == vv_view(words@).take(i as int),
        decreases words.len() - i,
    {
        let s = string_of(&words[i]);
        let ghost before = v@;
        v.push(s);
        assert(v@ == before.push(s));
        assert(v@.map_values(|s: String| s@) =~= before.map_values(|s: String| s@).push(s@));
        assert(vv_view(words@).take(i + 1) =~= vv_view(words@).take(i as int).push(words@[i as int]@));
        assert(v@.map_values(|s: String| s@) =~= vv_view(words@).take(i + 1));
        i = i + 1;
    }
    assert(vv_view(words@).take(words.len() as int) =~= vv_view(words@));
    v
}

fn symbol_of(c: char) -> (s: usize)
    requires
        0x3131 <= c as u32 <= 0x3163,
    ensures
        s as int == jamo_symbol(c),
        1 <= s < KO_SYMBOLS,
{
    (c as u32 - 0x3131 + 1) as usize
}

/// The Korean symbol stream of a word.
pub fn korean_symbols(w: &Vec<char>) -> (r: Option<Vec<usize>>)
    ensures
        match r {
            Some(v) => ko_symbols(w@) == Some(v@.map_values(|x: usize| x as int))
                && forall|i: int| 0 <= i < v.len() ==> #[trigger] v@[i] < KO_SYMBOLS,
            None => ko_symbols(w@) is None,
        },
{
    proof { crate::hangul::lemma_table_values(); }
    let mut out: Vec<usize> = Vec::new();
    let mut i: usize = 0;
    while i < w.len()
        invariant
            i <= w.len(),
            ko_symbols(w@.take(i as int)) == Some(out@.map_values(|x: usize| x as int)),
            forall|k: int| 0 <= k < out.len() ==> #[trigger] out@[k] < KO_SYMBOLS,
            CHOSEONG@ == cho_seq() && JUNGSEONG@ == jung_seq() && JONGSEONG@ == jong_seq(),
        decreases w.len() - i,
    {
        let c = w[i];
        let ghost prev = out@.map_values(|x: usize| x as int);
        assert(w@.take(i + 1).drop_last() =~= w@.take(i as int));
        assert(w@.take(i + 1).last() == c);
        if let Some((cho, jung, jong)) = decompose_syllable(c) {
            out.push(symbol_of(CHOSEONG[cho]));
            out.push(symbol_of(JUNGSEONG[jung]));
            if jong > 0 {
                out.push(symbol_of(JONGSEONG[jong - 1]));
            }
            assert(out@.map_values(|x: usize| x as int) =~= prev + ko_char_symbols(c)->0);
        } else if is_compat_jamo(c) {
            out.push(symbol_of(c));
            assert(out@.map_values(|x: usize| x as int) =~= prev + ko_char_symbols(c)->0);
        } else {
            proof { lemma_ko_symbols_none(w@, i as int); }
            return None;
        }
        i = i + 1;
    }
    assert(w@.take(w.len() as int) =~= w@);
    Some(out)
}

proof fn lemma_ko_symbols_none(w: Seq<char>, i: int)
    requires
        0 <= i < w.len(),
        ko_char_symbols(w[i]) is None,
    ensures
        ko_symbols(w) is None,
    decreases w.len(),
{
    if i < w.len() - 1 {
        assert(w.drop_last()[i] == w[i]);
        lemma_ko_symbols_none(w.drop_last(), i);
    }
}


/// The built-in English word list, sorted.
pub fn english_words() -> (v: Vec<String>)
    ensures
        v@.map_values(|s: String| s@) == builtin_english_words(),
{
    Lexicon::builtin().english_words()
}

/// The built-in Korean word list, sorted.
pub fn korean_words() -> (v: Vec<String>)
    ensures
        v@.map_values(|s: String| s@) == builtin_korean_words(),
{
    Lexicon::builtin().korean_words()
}

/// Whether the word, lower-cased, is in the built-in English dictionary.
pub fn english_word_exists(word: &str) -> (b: bool)
    ensures
        b == builtin_english_words().contains(lower_seq(word@)),
{
    Lexicon::builtin().english_word_exists(word)
}

/// Whether the word is in the built-in Korean dictionary.
pub fn korean_word_exists(word: &str) -> (b: bool)
    ensures
        b == builtin_korean_words().contains(word@),
{
    Lexicon::builtin().korean_word_exists(word)
}

} // verus!
