use haneng::auto::{AutoCorrector, AutoDecision};
use haneng::compose::{english_to_hangul, english_to_hangul_with};
use haneng::decompose::{hangul_to_english, hangul_to_english_with};
use haneng::detect::{Detector, Sensitivity, Verdict};
use haneng::layout::Layout;
use haneng::lexicon::{english_word_exists, english_words, korean_word_exists, korean_words, Lexicon};

fn detector() -> Detector {
    Detector::new(Sensitivity::Balanced)
}

fn corrector() -> AutoCorrector {
    AutoCorrector::new(Detector::new(Sensitivity::Balanced))
}

const MUST_CONVERT_TO_HANGUL: &[(&str, &str)] = &[
    ("gksrmf", "한글"),
    ("dkssudgktpdy", "안녕하세요"),
    ("rkatkgkqslek", "감사합니다"),
    ("tkfkd", "사랑"),
    ("tnrh", "수고"),
    ("rhoscksgdk", "괜찮아"),
    ("djqtek", "없다"),
    ("zjavbxj", "컴퓨터"),
];

const MUST_CONVERT_TO_ENGLISH: &[(&str, &str)] = &[
    ("ㅗ디ㅣㅐ", "hello"),
    ("내ㅡㄷ", "some"),
    ("재가ㅑㅜㅎ", "working"),
    ("소무ㅏㄴ", "thanks"),
];

#[test]
fn converts_korean_typed_in_english_mode() {
    for (input, expected) in [
        ("gksrmf", "한글"),
        ("dkssudgktpdy", "안녕하세요"),
        ("tkfkd", "사랑"),
        ("tnrh", "수고"),
        ("rhoscksgdk", "괜찮아"),
    ] {
        assert_eq!(detector().analyze(input), Verdict::ToHangul(expected.to_string()), "input: {input}");
    }
}

#[test]
fn undo_learning_suppresses_reconversion() {
    let mut d = detector();
    assert!(matches!(d.analyze("gksrmf"), Verdict::ToHangul(_)));
    d.record_undo("gksrmf");
    assert_eq!(d.analyze("gksrmf"), Verdict::Keep);
}

#[test]
fn dictionary_evidence_resolves_v1_ambiguities() {
    assert_eq!(detector().analyze("djeldi"), Verdict::ToHangul("어디야".to_string()));
    assert_eq!(detector().analyze("ska"), Verdict::Keep);
}

#[test]
fn corrects_korean_typed_in_english_mode() {
    let d = corrector().on_word_committed(false, "gksrmf", ' ').expect("must convert");
    assert_eq!(
        d,
        AutoDecision {
            backspaces: 7,
            replacement: "한글 ".into(),
            revert: "gksrmf ".into(),
            to_korean_mode: true,
            screen_word: "gksrmf".into(),
        }
    );
}

#[test]
fn undo_learning_prevents_reconversion() {
    let mut c = corrector();
    let d = c.on_word_committed(false, "gksrmf", ' ').unwrap();
    c.detector_mut().record_undo(&d.screen_word);
    assert_eq!(c.on_word_committed(false, "gksrmf", ' '), None);
}

#[test]
fn dictionaries_contain_common_words() {
    for w in ["hello", "the", "keyboard", "working"] {
        assert!(english_word_exists(w), "EN dict missing {w}");
    }
    for w in ["한글", "안녕하세요", "사랑", "괜찮아"] {
        assert!(korean_word_exists(w), "KO dict missing {w}");
    }
    assert!(!english_word_exists("gksrmf"));
    assert!(!korean_word_exists("ㅗ디ㅣㅐ"));
}

#[test]
fn recall_on_seed_corpus() {
    let d = Detector::new(Sensitivity::Balanced);
    for &(input, expected) in MUST_CONVERT_TO_HANGUL {
        assert_eq!(d.analyze(input), Verdict::ToHangul(expected.to_string()), "must convert: {input}");
    }
    for &(input, expected) in MUST_CONVERT_TO_ENGLISH {
        assert_eq!(d.analyze(input), Verdict::ToEnglish(expected.to_string()), "must convert: {input}");
    }
}

#[test]
fn corpus_recall_korean_typed_in_english_mode() {
    let d = Detector::new(Sensitivity::Balanced);
    let words = korean_words();
    let sample: Vec<&String> = words.iter().step_by(37).collect();
    let mut hits = 0usize;
    let mut misses: Vec<&str> = Vec::new();
    for word in &sample {
        let keys = hangul_to_english(word);
        match d.analyze(&keys) {
            Verdict::ToHangul(h) if &h == *word => hits += 1,
            _ => misses.push(word),
        }
    }
    let recall = hits as f64 / sample.len() as f64;
    assert!(recall >= 0.90, "recall {recall:.3} ({hits}/{}), 예: {:?}", sample.len(), &misses[..misses.len().min(15)]);
}

#[test]
fn corpus_recall_english_typed_in_korean_mode() {
    let d = Detector::new(Sensitivity::Balanced);
    let words = english_words();
    let sample: Vec<&String> = words.iter().step_by(29).collect();
    let mut hits = 0usize;
    let mut misses: Vec<&str> = Vec::new();
    for word in &sample {
        let screen = english_to_hangul(word);
        match d.analyze(&screen) {
            Verdict::ToEnglish(e) if &e == *word => hits += 1,
            _ => misses.push(word),
        }
    }
    let recall = hits as f64 / sample.len() as f64;
    assert!(recall >= 0.90, "recall {recall:.3} ({hits}/{}), 예: {:?}", sample.len(), &misses[..misses.len().min(15)]);
}

#[test]
fn sebeolsik_corpus_roundtrip() {
    for layout in [Layout::Sebeolsik390, Layout::SebeolsikFinal] {
        for word in korean_words().iter().step_by(53) {
            let keys = hangul_to_english_with(layout, word);
            assert_eq!(english_to_hangul_with(layout, &keys), *word, "{layout:?} roundtrip failed: {word} → {keys}");
        }
    }
}

#[test]
fn sebeolsik_detection_converts_wrong_mode_korean() {
    for layout in [Layout::Sebeolsik390, Layout::SebeolsikFinal] {
        let d = Detector::with_layout(Sensitivity::Balanced, layout);
        for word in ["한글", "안녕하세요", "감사합니다"] {
            let keys = hangul_to_english_with(layout, word);
            assert_eq!(d.analyze(&keys), Verdict::ToHangul(word.to_string()), "{layout:?}: {word} (keys: {keys})");
        }
        for word in ["hello", "world", "the"] {
            assert_eq!(d.analyze(word), Verdict::Keep, "{layout:?}: {word}");
        }
    }
}

#[test]
fn corpus_zero_false_positives() {
    for sensitivity in [Sensitivity::Conservative, Sensitivity::Balanced, Sensitivity::Aggressive] {
        let d = Detector::new(sensitivity);
        for word in english_words().iter().step_by(13) {
            assert_eq!(d.analyze(word), Verdict::Keep, "영어 단어 오발동 ({sensitivity:?}): {word}");
        }
        for word in korean_words().iter().step_by(13) {
            assert_eq!(d.analyze(word), Verdict::Keep, "한국어 단어 오발동 ({sensitivity:?}): {word}");
        }
    }
}

#[test]
fn every_dictionary_word_is_kept() {
    for sensitivity in [Sensitivity::Conservative, Sensitivity::Balanced, Sensitivity::Aggressive] {
        let d = Detector::new(sensitivity);
        for word in english_words().iter().chain(korean_words().iter()) {
            assert_eq!(d.analyze(word), Verdict::Keep, "{sensitivity:?}: {word}");
        }
        assert_eq!(d.analyze(" World "), Verdict::Keep);
    }
}

#[test]
fn lexicon_words_must_fit_their_list() {
    let tables = || (vec![vec![-3072i16; 27]; 27], vec![vec![-3072i16; 52]; 52]);
    let (e, k) = tables();
    assert!(Lexicon::new(vec!["Hello".into()], vec![], e, k).is_none());
    let (e, k) = tables();
    assert!(Lexicon::new(vec![], vec!["한a".into()], e, k).is_none());
    let (e, k) = tables();
    let l = Lexicon::new(vec!["hello".into()], vec!["한글".into()], e, k).expect("valid lexicon");
    let d = Detector::with_lexicon(Sensitivity::Balanced, Layout::Dubeolsik, l);
    assert_eq!(d.analyze("gksrmf"), Verdict::ToHangul("한글".into()));
    assert_eq!(d.analyze("dkssud"), Verdict::Keep);
}

#[test]
fn empty_lexicon_converts_no_fully_keyed_word() {
    let d = Detector::with_lexicon(Sensitivity::Balanced, Layout::Dubeolsik, Lexicon::empty());
    assert_eq!(d.analyze("gksrmf"), Verdict::Keep);
}
