use haneng::linux::keymap::classify as linux_classify;
use haneng::macos::indicator::{is_korean_source_id, is_text_role};
use haneng::settings::{extract_tag_name, is_newer};
use haneng::tracker::KeyClass;
use haneng::windows::keymap::classify as windows_classify;

#[test]
fn letters_and_boundaries() {
    assert_eq!(linux_classify(38, false), Some(KeyClass::Letter('a')));
    assert_eq!(linux_classify(24, true), Some(KeyClass::Letter('Q')));
    assert_eq!(linux_classify(65, false), Some(KeyClass::Boundary(' ')));
    assert_eq!(linux_classify(60, false), Some(KeyClass::Boundary('.')));
    assert_eq!(linux_classify(22, false), Some(KeyClass::Backspace));
    assert_eq!(linux_classify(36, false), Some(KeyClass::Clear));
    assert_eq!(linux_classify(113, false), Some(KeyClass::Clear));
}

#[test]
fn modifiers_and_toggles_are_ignored() {
    for kc in [50, 62, 37, 105, 64, 108, 66, 130, 131, 133] {
        assert_eq!(linux_classify(kc, false), None, "keycode={kc}");
    }
}

#[test]
fn space_is_the_only_boundary() {
    assert_eq!(windows_classify(0x20, false), Some(KeyClass::Boundary(' ')));
    assert_eq!(windows_classify(0x31, true), Some(KeyClass::Letter('!')));
    assert_eq!(windows_classify(0xBE, false), Some(KeyClass::Letter('.')));
    assert_eq!(windows_classify(0x41, false), Some(KeyClass::Letter('a')));
    assert_eq!(windows_classify(0x08, false), Some(KeyClass::Backspace));
    assert_eq!(windows_classify(0x0D, false), Some(KeyClass::Clear));
}

#[test]
fn modifiers_and_ime_keys_are_ignored() {
    for vk in [0x10, 0x11, 0x12, 0x14, 0x15, 0x19, 0x5B, 0xA0, 0xA5] {
        assert_eq!(windows_classify(vk, false), None, "vk={vk:#x}");
    }
}

#[test]
fn text_roles() {
    assert!(is_text_role("AXTextField"));
    assert!(is_text_role("AXTextArea"));
    assert!(!is_text_role("AXButton"));
    assert!(!is_text_role("AXStaticText"));
}

#[test]
fn korean_source_ids() {
    assert!(is_korean_source_id("com.apple.inputmethod.Korean.2SetKorean"));
    assert!(is_korean_source_id("org.youknowone.inputmethod.Gureum.han2"));
    assert!(!is_korean_source_id("com.apple.keylayout.ABC"));
    assert!(!is_korean_source_id("com.apple.keylayout.US"));
}

#[test]
fn parses_tag_from_release_json() {
    let json = r#"{"url":"...","tag_name": "v0.1.2","name":"haneng v0.1.2"}"#;
    assert_eq!(extract_tag_name(json).as_deref(), Some("v0.1.2"));
    assert_eq!(extract_tag_name("{}"), None);
}

#[test]
fn semver_comparison() {
    assert!(is_newer("v0.2.0", "0.1.2"));
    assert!(is_newer("v0.1.10", "0.1.2"));
    assert!(!is_newer("v0.1.2", "0.1.2"));
    assert!(!is_newer("v0.1.1", "0.1.2"));
    assert!(!is_newer("garbage", "0.1.2"));
}
