use haneng::cli::{correct_word, parse_args, process, CliMode};
use haneng::datagen::{
    en_symbols, is_english_token, is_korean_token, jamo_index, jamo_symbols, keyboard_entries, positioned_jamo, write_bigram, write_keyboard,
    write_word_array,
};
use haneng::detect::{Detector, Sensitivity, Verdict};
use haneng::ffi::{sensitivity_from_code, verdict_code, HANENG_KEEP, HANENG_TO_ENGLISH};

#[test]
fn arguments_select_mode_and_sensitivity() {
    let args: Vec<String> = ["--to-hangul", "-v", "--aggressive", "gksrmf", "dlqfur"].iter().map(|s| s.to_string()).collect();
    let o = parse_args(&args);
    assert_eq!(o.mode, CliMode::ToHangul);
    assert_eq!(o.sensitivity, Sensitivity::Aggressive);
    assert!(o.verbose);
    assert!(!o.help);
    assert_eq!(o.text_args, vec!["gksrmf".to_string(), "dlqfur".to_string()]);
    let args: Vec<String> = ["x", "--help", "--to-english", "y"].iter().map(|s| s.to_string()).collect();
    let o = parse_args(&args);
    assert!(o.help);
    assert_eq!(o.mode, CliMode::Auto);
    assert_eq!(o.text_args, vec!["x".to_string()]);
}

#[test]
fn line_processing() {
    let d = Detector::new(Sensitivity::Balanced);
    assert_eq!(process(&d, CliMode::ToHangul, "gksrmf dlqfur").0, "한글 입력");
    assert_eq!(process(&d, CliMode::ToEnglish, "한글 입력").0, "gksrmf dlqfur");
    let (out, notes) = process(&d, CliMode::Auto, "(ㅗ디ㅣㅐ)! world  ㅋㅋㅋ");
    assert_eq!(out, "(hello)! world  ㅋㅋㅋ");
    assert_eq!(notes, vec![("ㅗ디ㅣㅐ".to_string(), "hello".to_string())]);
}

#[test]
fn word_correction_keeps_punctuation() {
    let d = Detector::new(Sensitivity::Balanced);
    assert_eq!(correct_word(&d, "...").0, "...");
    assert_eq!(correct_word(&d, "\"내ㅡㄷ\"").0, "\"some\"");
    assert_eq!(correct_word(&d, "hello,").1, None);
}

#[test]
fn ffi_codes() {
    assert_eq!(sensitivity_from_code(0), Sensitivity::Conservative);
    assert_eq!(sensitivity_from_code(1), Sensitivity::Balanced);
    assert_eq!(sensitivity_from_code(2), Sensitivity::Aggressive);
    assert_eq!(sensitivity_from_code(-7), Sensitivity::Balanced);
    assert_eq!(verdict_code(Verdict::Keep), (HANENG_KEEP, None));
    assert_eq!(verdict_code(Verdict::ToEnglish("hi".into())), (HANENG_TO_ENGLISH, Some("hi".to_string())));
}

#[test]
fn symbol_streams() {
    // 한 = ㅎ ㅏ ㄴ, 가 = ㄱ ㅏ.
    assert_eq!(jamo_symbols("한가"), vec![30, 31, 4, 1, 31]);
    assert_eq!(jamo_index('ㄱ'), 1);
    assert_eq!(jamo_index('ㅣ'), 51);
    assert_eq!(en_symbols("abz"), vec![1, 2, 26]);
}

#[test]
fn conjoining_jamo_positions() {
    assert_eq!(positioned_jamo(0x1100), (0, 'ㄱ'));
    assert_eq!(positioned_jamo(0x1175), (1, 'ㅣ'));
    assert_eq!(positioned_jamo(0x11A8), (2, 'ㄱ'));
    assert_eq!(positioned_jamo(0x11C2), (2, 'ㅎ'));
    assert_eq!(positioned_jamo(0x0021), (3, '!'));
}

fn keyboard_text(lines: usize) -> String {
    let mut text = String::from("<hangul-keyboard>\n");
    for key in (0x21u32..0x7F).take(lines) {
        text.push_str(&format!("  <item key=\"0x{key:02x}\" value=\"0x{:x}\"/>\n", 0x1100 + (key % 19)));
    }
    text.push_str("</hangul-keyboard>\n");
    text
}

#[test]
fn keyboard_description() {
    let entries = keyboard_entries(&keyboard_text(94)).expect("94 entries");
    assert_eq!(entries.len(), 94);
    assert_eq!(entries[0], ('!', 0, 'ㅊ'));
    assert_eq!(keyboard_entries(&keyboard_text(93)), None);
    let bad = keyboard_text(94).replace("0x21\"", "0xzz\"");
    assert_eq!(keyboard_entries(&bad), None);
}

#[test]
fn generated_tables() {
    let mut out = String::new();
    write_word_array(&mut out, "EN_WORDS", &vec!["a\"b".to_string(), "the".to_string()]);
    assert_eq!(out, "pub static EN_WORDS: [&str; 2] = [\n    \"a\\\"b\",\n    \"the\",\n];\n");
    let mut out = String::new();
    write_bigram(&mut out, "T", &vec![vec![0, -3072], vec![-5, 12]], 2);
    assert_eq!(out, "pub static T: [[i16; 2]; 2] = [\n    [0, -3072],\n    [-5, 12],\n];\n");
    let mut out = String::new();
    write_keyboard(&mut out, "K", &vec![('\'', 3, '\''), ('h', 0, 'ㄴ')]);
    assert_eq!(
        out,
        "/// (키, 종류: 0=초성 1=중성 2=종성 3=일반, 자모/문자)\npub static K: [(char, u8, char); 2] = [\n    ('\\'', 3, '\\''),\n    ('h', 0, 'ㄴ'),\n];\n"
    );
}

#[test]
fn frequency_list_tokens() {
    assert!(is_english_token("hello"));
    assert!(!is_english_token(""));
    assert!(!is_english_token("Hello"));
    assert!(!is_english_token("don't"));
    assert!(is_korean_token("안녕"));
    assert!(!is_korean_token(""));
    assert!(!is_korean_token("ㅋㅋ"));
    assert!(!is_korean_token("한a"));
}
