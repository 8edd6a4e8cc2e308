use haneng::auto::AutoCorrector;
use haneng::compose::{english_to_hangul, Composer};
use haneng::config::{exceptions_from_text, exceptions_to_text, Config};
use haneng::decompose::{hangul_to_english, hangul_to_english_with};
use haneng::detect::{english_score, Detector, Sensitivity, Verdict};
use haneng::layout::{is_word_key, key_to_jamo, Layout};
use haneng::settings::{load_badge_options, save_badge_options, BadgeOptions};

#[test]
fn keys_come_back_lower_case_but_shift_jamo() {
    assert_eq!(hangul_to_english(&english_to_hangul("Hello")), "hello");
    assert_eq!(hangul_to_english(&english_to_hangul("QWERT")), "QWERT");
    assert_eq!(hangul_to_english(&english_to_hangul("dkfr,rk 1")), "dkfr,rk 1");
    assert_eq!(hangul_to_english(&english_to_hangul("ekfrif")), "ekfrif");
}

#[test]
fn composed_text_holds_no_latin_letter() {
    let out = english_to_hangul("abcXYZqwerty");
    assert!(out.chars().all(|c| !c.is_ascii_alphabetic()), "{out}");
}

#[test]
fn dictionary_word_converts_and_english_word_stays() {
    let d = Detector::new(Sensitivity::Balanced);
    assert_eq!(d.analyze("gksrmf"), Verdict::ToHangul("한글".into()));
    assert_eq!(d.analyze("rhoscksgdk"), Verdict::ToHangul("괜찮아".into()));
    assert_eq!(d.analyze("ska"), Verdict::Keep);
    assert_eq!(d.analyze("한글"), Verdict::Keep);
}

#[test]
fn undo_is_learned_by_the_detector() {
    let mut d = Detector::new(Sensitivity::Balanced);
    assert_eq!(d.analyze("ㅗ디ㅣㅐ"), Verdict::ToEnglish("hello".into()));
    d.record_undo("ㅗ디ㅣㅐ");
    assert!(d.is_exception("ㅗ디ㅣㅐ"));
    assert_eq!(d.analyze("ㅗ디ㅣㅐ"), Verdict::Keep);
    assert_eq!(d.analyze("내ㅡㄷ"), Verdict::ToEnglish("some".into()));
}

#[test]
fn undo_through_the_corrector() {
    let mut c = AutoCorrector::new(Detector::new(Sensitivity::Balanced));
    let d = c.on_word_committed(false, "gksrmf", ' ').expect("must convert");
    assert_eq!(d.replacement, "한글 ");
    assert!(d.to_korean_mode);
    c.detector_mut().record_undo(&d.screen_word);
    assert_eq!(c.on_word_committed(false, "gksrmf", ' '), None);
}

#[test]
fn stricter_sensitivity_converts_less() {
    let words = ["ㅗ디ㅣㅐ", "내ㅡㄷ", "ㅋㅋㅋ", "gksrmf", "hello"];
    for w in words {
        let strict = Detector::new(Sensitivity::Conservative).analyze(w);
        let loose = Detector::new(Sensitivity::Aggressive).analyze(w);
        if strict != Verdict::Keep {
            assert_eq!(strict, loose, "{w}");
        }
    }
}

#[test]
fn config_with_everything_round_trips() {
    let config = Config {
        auto: true,
        sensitivity: Sensitivity::Conservative,
        layout: Layout::SebeolsikFinal,
        disabled_apps: vec!["code".into(), "kakaotalk".into(), "slack helper".into()],
        extras: vec![
            ("hover_indicator".into(), "off".into()),
            ("badge_opacity".into(), "55%".into()),
            ("".into(), "x=y".into()),
        ],
    };
    let text = config.serialize();
    assert!(text.starts_with('#'));
    assert_eq!(Config::parse(&text), config);
}

#[test]
fn exceptions_round_trip() {
    let words: Vec<String> = vec!["gksrmf".into(), "ㅗ디ㅣㅐ".into(), "two words".into()];
    let text = exceptions_to_text(&words);
    assert_eq!(text, "gksrmf\nㅗ디ㅣㅐ\ntwo words\n");
    assert_eq!(exceptions_from_text(&text), words);
    assert_eq!(exceptions_to_text(&Vec::new()), "");
    assert_eq!(exceptions_from_text("  a \r\n\n b\n"), vec!["a".to_string(), "b".to_string()]);
}

#[test]
fn set_extra_then_extra_reads_it() {
    let mut c = Config::default();
    c.set_extra("initial_mode", "korean");
    c.set_extra("hover_indicator", "off");
    assert_eq!(c.extra("initial_mode"), Some("korean"));
    c.set_extra("initial_mode", "english");
    assert_eq!(c.extra("initial_mode"), Some("english"));
    assert_eq!(c.extras.len(), 2);
    c.set_extra("initial_mode", "");
    assert_eq!(c.extra("initial_mode"), None);
    assert_eq!(c.extra("hover_indicator"), Some("off"));
}

#[test]
fn badge_options_round_trip() {
    for show_badge in [true, false] {
        for initial_mode in [None, Some(true), Some(false)] {
            let mut c = Config::parse("badge_opacity = 40\ninitial_mode = korean\n");
            let o = BadgeOptions { show_badge, initial_mode };
            save_badge_options(&mut c, o);
            assert_eq!(load_badge_options(&c), o);
            assert_eq!(c.badge_opacity_percent(), 40);
        }
    }
}

#[test]
fn passthrough_character_splits_the_composition() {
    assert_eq!(english_to_hangul("gks rmf"), format!("{} {}", english_to_hangul("gks"), english_to_hangul("rmf")));
    assert_eq!(english_to_hangul("dk1dk"), format!("{}1{}", english_to_hangul("dk"), english_to_hangul("dk")));
}

#[test]
fn feeding_jamo_matches_feeding_keys() {
    for keys in ["gksrmf", "rhoscksgdk", "ekfrif", "QWERT"] {
        let mut c = Composer::new();
        for k in keys.chars() {
            c.feed_jamo(key_to_jamo(k).unwrap());
        }
        assert_eq!(c.finish(), english_to_hangul(keys), "{keys}");
    }
}

#[test]
fn word_keys_by_layout() {
    assert!(is_word_key(Layout::Dubeolsik, 'a'));
    assert!(is_word_key(Layout::Dubeolsik, 'Z'));
    assert!(!is_word_key(Layout::Dubeolsik, '2'));
    assert!(!is_word_key(Layout::Dubeolsik, ' '));
    assert!(is_word_key(Layout::Sebeolsik390, '2'));
}

#[test]
fn values_with_an_inner_hash_round_trip() {
    let config = Config {
        auto: true,
        sensitivity: Sensitivity::Balanced,
        layout: Layout::Dubeolsik,
        disabled_apps: vec!["c#ide".into()],
        extras: vec![("note".into(), "a#b".into())],
    };
    assert_eq!(Config::parse(&config.serialize()), config);
}

#[test]
fn english_score_ignores_letter_case() {
    use_score(&["Hello", "GKSRMF", "ZzZ", "Keyboard"]);
}

fn use_score(words: &[&str]) {
    for w in words {
        assert_eq!(english_score(w), english_score(&w.to_ascii_lowercase()), "{w}");
    }
}

#[test]
fn keys_of_joined_text_in_every_layout() {
    for layout in [Layout::Dubeolsik, Layout::Sebeolsik390, Layout::SebeolsikFinal] {
        let (a, b) = ("한글", "입력!");
        let joined = hangul_to_english_with(layout, &format!("{a}{b}"));
        assert_eq!(joined, hangul_to_english_with(layout, a) + &hangul_to_english_with(layout, b));
        assert_eq!(hangul_to_english_with(layout, "7"), "7");
    }
}

#[test]
fn committed_text_only_grows() {
    let mut c = Composer::new();
    let mut before = String::new();
    for k in "rhoscksgdkekfrif".chars() {
        c.feed_key(k);
        assert!(c.committed().starts_with(&before));
        assert!(c.pending_key_count() <= 5);
        before = c.committed().to_string();
    }
}
