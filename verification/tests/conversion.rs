use haneng::compose::{english_to_hangul, english_to_hangul_with, Composer};
use haneng::decompose::{hangul_to_english, hangul_to_english_with};
use haneng::hangul::{combine_jong, combine_jung, compose_syllable, decompose_syllable, split_jong, split_jung};
use haneng::layout::{jamo_to_key, key_to_jamo, Layout};

#[test]
fn basic_words() {
    assert_eq!(english_to_hangul("gksrmf"), "한글");
    assert_eq!(english_to_hangul("dkssudgktpdy"), "안녕하세요");
    assert_eq!(english_to_hangul("gksrmfdlqfur"), "한글입력");
    assert_eq!(english_to_hangul("quf"), "별");
}

#[test]
fn dokkaebibul_moves_jongseong() {
    assert_eq!(english_to_hangul("ekfrif"), "달걀");
    assert_eq!(english_to_hangul("ekfrrhk"), "닭과");
    assert_eq!(english_to_hangul("tkfkd"), "사랑");
}

#[test]
fn compound_vowels_and_jongseong() {
    assert_eq!(english_to_hangul("rhoscksgdk"), "괜찮아");
    assert_eq!(english_to_hangul("dml"), "의");
    assert_eq!(english_to_hangul("djqt"), "없");
}

#[test]
fn shift_keys() {
    assert_eq!(english_to_hangul("Qkfrks"), "빨간");
    assert_eq!(english_to_hangul("Rhc"), "꽃");
    assert_eq!(english_to_hangul("GKS"), "한");
}

#[test]
fn incomplete_jamo_stay_standalone() {
    assert_eq!(english_to_hangul("r"), "ㄱ");
    assert_eq!(english_to_hangul("rt"), "ㄱㅅ");
    assert_eq!(english_to_hangul("hk"), "ㅘ");
    assert_eq!(english_to_hangul("zzz"), "ㅋㅋㅋ");
}

#[test]
fn committed_and_pending_track_ime_preedit() {
    let mut c = Composer::new();
    for key in "tkfk".chars() {
        c.feed_jamo(key_to_jamo(key).unwrap());
    }
    assert_eq!(c.committed(), "사");
    assert_eq!(c.pending_key_count(), 2);

    let mut c = Composer::new();
    for key in "rhos".chars() {
        c.feed_jamo(key_to_jamo(key).unwrap());
    }
    assert_eq!(c.committed(), "");
    assert_eq!(c.pending_key_count(), 4);
}

#[test]
fn passthrough_breaks_composition() {
    assert_eq!(english_to_hangul("gks rmf"), "한 글");
    assert_eq!(english_to_hangul("gks1rmf!"), "한1글!");
}

#[test]
fn syllables_to_keys() {
    assert_eq!(hangul_to_english("한글"), "gksrmf");
    assert_eq!(hangul_to_english("안녕하세요"), "dkssudgktpdy");
    assert_eq!(hangul_to_english("괜찮아"), "rhoscksgdk");
    assert_eq!(hangul_to_english("닭"), "ekfr");
}

#[test]
fn standalone_jamo_to_keys() {
    assert_eq!(hangul_to_english("ㅗ디ㅣㅐ"), "hello");
    assert_eq!(hangul_to_english("ㅋㅋㅋ"), "zzz");
    assert_eq!(hangul_to_english("ㅘ"), "hk");
    assert_eq!(hangul_to_english("ㄳ"), "rt");
}

#[test]
fn shift_jamo_to_uppercase() {
    assert_eq!(hangul_to_english("빨간"), "Qkfrks");
    assert_eq!(hangul_to_english("꽃"), "Rhc");
}

#[test]
fn non_hangul_passthrough() {
    assert_eq!(hangul_to_english("한글 2026!"), "gksrmf 2026!");
    assert_eq!(hangul_to_english("abc"), "abc");
}

#[test]
fn compose_decompose_roundtrip() {
    for (c, expected) in [('한', (18, 0, 4)), ('글', (0, 18, 8)), ('가', (0, 0, 0))] {
        assert_eq!(decompose_syllable(c), Some(expected));
        let (cho, jung, jong) = expected;
        assert_eq!(compose_syllable(cho, jung, jong), c);
    }
}

#[test]
fn compound_tables() {
    assert_eq!(combine_jung('ㅗ', 'ㅏ'), Some('ㅘ'));
    assert_eq!(split_jung('ㅢ'), Some(('ㅡ', 'ㅣ')));
    assert_eq!(combine_jong('ㄹ', 'ㄱ'), Some('ㄺ'));
    assert_eq!(split_jong('ㅄ'), Some(('ㅂ', 'ㅅ')));
    assert_eq!(combine_jung('ㅏ', 'ㅗ'), None);
    assert_eq!(combine_jong('ㅂ', 'ㄹ'), None);
}

#[test]
fn all_33_jamo_roundtrip() {
    for key in ('a'..='z').chain(['Q', 'W', 'E', 'R', 'T', 'O', 'P']) {
        let jamo = key_to_jamo(key).unwrap();
        let back = jamo_to_key(jamo).unwrap();
        let expected = match key {
            'Q' | 'W' | 'E' | 'R' | 'T' | 'O' | 'P' => key,
            _ => key.to_ascii_lowercase(),
        };
        assert_eq!(back, expected, "key {key} → {jamo} → {back}");
    }
}

#[test]
fn uppercase_without_shift_jamo_falls_back() {
    assert_eq!(key_to_jamo('A'), Some('ㅁ'));
    assert_eq!(key_to_jamo('Y'), Some('ㅛ'));
}

#[test]
fn non_letters_are_none() {
    assert_eq!(key_to_jamo('1'), None);
    assert_eq!(key_to_jamo(' '), None);
    assert_eq!(jamo_to_key('ㄳ'), None);
}

#[test]
fn korean_roundtrip_integrity() {
    let words = [
        "한글", "안녕하세요", "감사합니다", "대한민국", "학교", "컴퓨터", "키보드", "사랑", "없다", "닭", "달걀",
        "괜찮아요", "값", "의사", "왜", "왔다", "빨간", "꽃", "많이", "읽었다", "앉아", "훑어", "아이", "이응",
    ];
    for word in words {
        let keys = hangul_to_english(word);
        assert_eq!(english_to_hangul(&keys), word, "roundtrip failed: {word} → {keys}");
    }
}

#[test]
fn english_roundtrip_integrity() {
    let words = ["hello", "some", "working", "thanks", "computer", "keyboard"];
    for word in words {
        let hangul = english_to_hangul(word);
        assert_eq!(hangul_to_english(&hangul), word, "roundtrip failed: {word} → {hangul}");
    }
}

#[test]
fn sebeolsik_known_key_mappings() {
    assert_eq!(english_to_hangul_with(Layout::Sebeolsik390, "hf"), "나");
    assert_eq!(english_to_hangul_with(Layout::Sebeolsik390, "hf2"), "났");
    assert_eq!(english_to_hangul_with(Layout::Sebeolsik390, "hf2f"), "났ㅏ");
}

#[test]
fn sebeolsik_roundtrip_integrity() {
    let words = [
        "한글", "안녕하세요", "감사합니다", "컴퓨터", "없다", "닭", "달걀", "괜찮아요", "값", "의사", "왜", "왔다",
        "빨간", "꽃", "많이", "읽었다",
    ];
    for layout in [Layout::Sebeolsik390, Layout::SebeolsikFinal] {
        for word in words {
            let keys = hangul_to_english_with(layout, word);
            assert_eq!(
                english_to_hangul_with(layout, &keys),
                word,
                "{layout:?} roundtrip failed: {word} → {keys}"
            );
        }
    }
}
