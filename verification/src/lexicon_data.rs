//! The built-in dictionary: a seed of common English and Korean words,
//! each list sorted, with every bigram transition unobserved.
use vstd::prelude::*;
use crate::lexicon::{
    all_english_shaped, all_korean_shaped, lemma_lt_trans, lexicon_wf, missing_table_spec, seq_lt, sorted,
    table_ok, vv_view, LexiconState, EN_SYMBOLS, KO_SYMBOLS,
};

verus! {

/// The built-in English words, sorted.
pub open spec fn builtin_english_words() -> Seq<Seq<char>> {
    seq![
        seq!['a', 'n', 'd'],
        seq!['c', 'o', 'm', 'p', 'u', 't', 'e', 'r'],
        seq!['g', 'o'],
        seq!['h', 'e', 'l', 'l', 'o'],
        seq!['k', 'e', 'y', 'b', 'o', 'a', 'r', 'd'],
        seq!['q', 'u', 'e', 's', 't', 'i', 'o', 'n'],
        seq!['s', 'k', 'a'],
        seq!['s', 'o', 'c', 'k'],
        seq!['s', 'o', 'm', 'e'],
        seq!['s', 'o', 's'],
        seq!['s', 't', 'r', 'e', 'n', 'g', 't', 'h', 's'],
        seq!['t', 'h', 'a', 'n', 'k', 's'],
        seq!['t', 'h', 'e'],
        seq!['v', 'o', 'd', 'k', 'a'],
        seq!['w', 'i', 't', 'h'],
        seq!['w', 'o', 'r', 'k', 'i', 'n', 'g'],
        seq!['w', 'o', 'r', 'l', 'd']
    ]
}

/// The built-in Korean words, sorted.
pub open spec fn builtin_korean_words() -> Seq<Seq<char>> {
    seq![
        seq!['감', '사', '합', '니', '다'],
        seq!['괜', '찮', '아'],
        seq!['괜', '찮', '아', '요'],
        seq!['남'],
        seq!['내'],
        seq!['대', '한', '민', '국'],
        seq!['사', '랑'],
        seq!['소'],
        seq!['수', '고'],
        seq!['안', '녕', '하', '세', '요'],
        seq!['어', '디', '야'],
        seq!['없', '다'],
        seq!['책', '상'],
        seq!['컴', '퓨', '터'],
        seq!['키', '보', '드'],
        seq!['학', '교'],
        seq!['한', '글'],
        seq!['해']
    ]
}

/// The built-in lexicon: the word lists above, no bigram observed.
pub open spec fn builtin_lexicon() -> LexiconState {
    LexiconState {
        en_words: builtin_english_words(),
        ko_words: builtin_korean_words(),
        en_bigram: missing_table_spec(EN_SYMBOLS as nat),
        ko_bigram: missing_table_spec(KO_SYMBOLS as nat),
    }
}

pub fn builtin_english() -> (v: Vec<Vec<char>>)
    ensures
        vv_view(v@) == builtin_english_words(),
{
    let v = vec![
        vec!['a', 'n', 'd'],
        vec!['c', 'o', 'm', 'p', 'u', 't', 'e', 'r'],
        vec!['g', 'o'],
        vec!['h', 'e', 'l', 'l', 'o'],
        vec!['k', 'e', 'y', 'b', 'o', 'a', 'r', 'd'],
        vec!['q', 'u', 'e', 's', 't', 'i', 'o', 'n'],
        vec!['s', 'k', 'a'],
        vec!['s', 'o', 'c', 'k'],
        vec!['s', 'o', 'm', 'e'],
        vec!['s', 'o', 's'],
        vec!['s', 't', 'r', 'e', 'n', 'g', 't', 'h', 's'],
        vec!['t', 'h', 'a', 'n', 'k', 's'],
        vec!['t', 'h', 'e'],
        vec!['v', 'o', 'd', 'k', 'a'],
        vec!['w', 'i', 't', 'h'],
        vec!['w', 'o', 'r', 'k', 'i', 'n', 'g'],
        vec!['w', 'o', 'r', 'l', 'd']
    ];
    assert(vv_view(v@) =~~= builtin_english_words());
    v
}

pub fn builtin_korean() -> (v: Vec<Vec<char>>)
    ensures
        vv_view(v@) == builtin_korean_words(),
{
    let v = vec![
        vec!['감', '사', '합', '니', '다'],
        vec!['괜', '찮', '아'],
        vec!['괜', '찮', '아', '요'],
        vec!['남'],
        vec!['내'],
        vec!['대', '한', '민', '국'],
        vec!['사', '랑'],
        vec!['소'],
        vec!['수', '고'],
        vec!['안', '녕', '하', '세', '요'],
        vec!['어', '디', '야'],
        vec!['없', '다'],
        vec!['책', '상'],
        vec!['컴', '퓨', '터'],
        vec!['키', '보', '드'],
        vec!['학', '교'],
        vec!['한', '글'],
        vec!['해']
    ];
    assert(vv_view(v@) =~~= builtin_korean_words());
    v
}

/// A list whose neighbours are in order is sorted.
proof fn lemma_sorted_adjacent(w: Seq<Seq<char>>)
    requires
        forall|i: int| 0 <= i < w.len() - 1 ==> seq_lt(#[trigger] w[i], w[i + 1]),
    ensures
        sorted(w),
    decreases w.len(),
{
    if w.len() > 1 {
        let p = w.drop_last();
        assert forall|i: int| 0 <= i < p.len() - 1 implies seq_lt(#[trigger] p[i], p[i + 1]) by {
            assert(p[i] == w[i] && p[i + 1] == w[i + 1]);
        }
        lemma_sorted_adjacent(p);
        assert forall|i: int, j: int| 0 <= i < j < w.len() implies seq_lt(#[trigger] w[i], #[trigger] w[j]) by {
            if j < w.len() - 1 {
                assert(p[i] == w[i] && p[j] == w[j]);
            } else if i < j - 1 {
                assert(p[i] == w[i] && p[j - 1] == w[j - 1]);
                lemma_lt_trans(w[i], w[j - 1], w[j]);
            }
        }
    }
}

/// The built-in lexicon is well formed: sorted lists of words of the
/// right shape, tables of the right size.
pub proof fn lemma_builtin_wf()
    ensures
        lexicon_wf(builtin_lexicon()),
{
    reveal_with_fuel(seq_lt, 6);
    assert(seq_lt(builtin_english_words()[0], builtin_english_words()[1]));
    assert(seq_lt(builtin_english_words()[1], builtin_english_words()[2]));
    assert(seq_lt(builtin_english_words()[2], builtin_english_words()[3]));
    assert(seq_lt(builtin_english_words()[3], builtin_english_words()[4]));
    assert(seq_lt(builtin_english_words()[4], builtin_english_words()[5]));
    assert(seq_lt(builtin_english_words()[5], builtin_english_words()[6]));
    assert(seq_lt(builtin_english_words()[6], builtin_english_words()[7]));
    assert(seq_lt(builtin_english_words()[7], builtin_english_words()[8]));
    assert(seq_lt(builtin_english_words()[8], builtin_english_words()[9]));
    assert(seq_lt(builtin_english_words()[9], builtin_english_words()[10]));
    assert(seq_lt(builtin_english_words()[10], builtin_english_words()[11]));
    assert(seq_lt(builtin_english_words()[11], builtin_english_words()[12]));
    assert(seq_lt(builtin_english_words()[12], builtin_english_words()[13]));
    assert(seq_lt(builtin_english_words()[13], builtin_english_words()[14]));
    assert(seq_lt(builtin_english_words()[14], builtin_english_words()[15]));
    assert(seq_lt(builtin_english_words()[15], builtin_english_words()[16]));
    assert(seq_lt(builtin_korean_words()[0], builtin_korean_words()[1]));
    assert(seq_lt(builtin_korean_words()[1], builtin_korean_words()[2]));
    assert(seq_lt(builtin_korean_words()[2], builtin_korean_words()[3]));
    assert(seq_lt(builtin_korean_words()[3], builtin_korean_words()[4]));
    assert(seq_lt(builtin_korean_words()[4], builtin_korean_words()[5]));
    assert(seq_lt(builtin_korean_words()[5], builtin_korean_words()[6]));
    assert(seq_lt(builtin_korean_words()[6], builtin_korean_words()[7]));
    assert(seq_lt(builtin_korean_words()[7], builtin_korean_words()[8]));
    assert(seq_lt(builtin_korean_words()[8], builtin_korean_words()[9]));
    assert(seq_lt(builtin_korean_words()[9], builtin_korean_words()[10]));
    assert(seq_lt(builtin_korean_words()[10], builtin_korean_words()[11]));
    assert(seq_lt(builtin_korean_words()[11], builtin_korean_words()[12]));
    assert(seq_lt(builtin_korean_words()[12], builtin_korean_words()[13]));
    assert(seq_lt(builtin_korean_words()[13], builtin_korean_words()[14]));
    assert(seq_lt(builtin_korean_words()[14], builtin_korean_words()[15]));
    assert(seq_lt(builtin_korean_words()[15], builtin_korean_words()[16]));
    assert(seq_lt(builtin_korean_words()[16], builtin_korean_words()[17]));
    lemma_sorted_adjacent(builtin_english_words());
    lemma_sorted_adjacent(builtin_korean_words());
    assert(table_ok(missing_table_spec(EN_SYMBOLS as nat), EN_SYMBOLS as int));
    assert(table_ok(missing_table_spec(KO_SYMBOLS as nat), KO_SYMBOLS as int));
    assert(all_english_shaped(builtin_english_words()));
    assert(all_korean_shaped(builtin_korean_words()));
}

} // verus!
