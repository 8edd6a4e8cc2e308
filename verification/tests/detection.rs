use haneng::auto::AutoCorrector;
use haneng::auto::AutoDecision;
use haneng::detect::{english_score, Detector, Sensitivity, Verdict};

fn detector() -> Detector {
    Detector::new(Sensitivity::Balanced)
}

fn corrector() -> AutoCorrector {
    AutoCorrector::new(Detector::new(Sensitivity::Balanced))
}

#[test]
fn converts_english_typed_in_korean_mode() {
    for (input, expected) in [("ㅗ디ㅣㅐ", "hello"), ("내ㅡㄷ", "some"), ("재가ㅑㅜㅎ", "working")] {
        assert_eq!(detector().analyze(input), Verdict::ToEnglish(expected.to_string()), "input: {input}");
    }
}

#[test]
fn keeps_real_english() {
    for word in ["hello", "world", "sos", "sock", "vodka", "strengths", "go"] {
        assert_eq!(detector().analyze(word), Verdict::Keep, "word: {word}");
    }
}

#[test]
fn keeps_real_korean_and_intentional_jamo() {
    for word in ["한글", "안녕하세요", "책상", "ㅋㅋㅋ", "ㅠㅠ", "ㄱㅅ"] {
        assert_eq!(detector().analyze(word), Verdict::Keep, "word: {word}");
    }
}

#[test]
fn keeps_mixed_and_non_letter_words() {
    for word in ["test한글", "abc123", "2026", "", "   "] {
        assert_eq!(detector().analyze(word), Verdict::Keep, "word: {word:?}");
    }
}

#[test]
fn sensitivity_margins_are_ordered() {
    assert!(Sensitivity::Conservative.to_hangul_margin() > Sensitivity::Balanced.to_hangul_margin());
    assert!(Sensitivity::Balanced.to_hangul_margin() > Sensitivity::Aggressive.to_hangul_margin());
    assert!(Sensitivity::Conservative.to_english_margin() > Sensitivity::Balanced.to_english_margin());
    assert!(Sensitivity::Balanced.to_english_margin() > Sensitivity::Aggressive.to_english_margin());
}

fn score(word: &str) -> f64 {
    english_score(word) as f64 / 1_000_000_000.0
}

#[test]
fn english_score_sanity() {
    assert!(score("hello") > 0.8);
    assert!(score("gksrmf") < 0.1);
    assert!(score("zzz") < 0.5);
    assert!(score("") == 0.0);
}

#[test]
fn corrects_english_typed_in_korean_mode() {
    let d = corrector().on_word_committed(true, "hello", '.').expect("must convert");
    assert_eq!(
        d,
        AutoDecision {
            backspaces: 5,
            replacement: "hello.".into(),
            revert: "ㅗ디ㅣㅐ.".into(),
            to_korean_mode: false,
            screen_word: "ㅗ디ㅣㅐ".into(),
        }
    );
}

#[test]
fn keeps_correct_input_in_both_modes() {
    assert_eq!(corrector().on_word_committed(false, "hello", ' '), None);
    assert_eq!(corrector().on_word_committed(true, "dkssud", ' '), None);
    assert_eq!(corrector().on_word_committed(true, "zzz", ' '), None);
}

const MUST_KEEP: &[&str] = &[
    "hello", "world", "thanks", "keyboard", "question", "strengths", "sos", "sock", "go", "vodka", "the", "and",
    "with", "한글", "안녕하세요", "감사합니다", "대한민국", "책상", "ㅋㅋㅋ", "ㅠㅠ", "ㄱㅅ", "ㅇㅋ", "test한글",
    "abc123", "2026", "v1.0",
];

#[test]
fn zero_false_positives_on_seed_corpus() {
    for sensitivity in [Sensitivity::Conservative, Sensitivity::Balanced, Sensitivity::Aggressive] {
        let d = Detector::new(sensitivity);
        for &word in MUST_KEEP {
            assert_eq!(d.analyze(word), Verdict::Keep, "false positive at {sensitivity:?}: {word}");
        }
    }
}

#[test]
fn corpus_keeps_nondict_english_words() {
    let d = Detector::new(Sensitivity::Balanced);
    for word in [
        "kubernetes", "grep", "vim", "rustacean", "tokio", "webhook", "middleware", "notarization", "bigram",
        "dubeolsik", "qwerty", "asdf",
    ] {
        assert_eq!(d.analyze(word), Verdict::Keep, "비사전 영어 오발동: {word}");
    }
}
