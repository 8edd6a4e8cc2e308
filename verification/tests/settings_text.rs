use haneng::config::Config;
use haneng::detect::Sensitivity;
use haneng::layout::Layout;

#[test]
fn parses_config_and_ignores_junk() {
    let config = Config::parse(
        "# 주석\n\
         auto = off\n\
         sensitivity = aggressive\n\
         disabled_apps = Terminal, slack\n\
         linux_toggle_keycodes = 130,108\n\
         malformed line\n",
    );
    assert!(!config.auto);
    assert_eq!(config.sensitivity, Sensitivity::Aggressive);
    assert_eq!(config.extra("linux_toggle_keycodes"), Some("130,108"));
    assert_eq!(config.extra("missing"), None);
    assert!(config.app_disabled("com.apple.Terminal"));
    assert!(config.app_disabled("Slack Helper"));
    assert!(!config.app_disabled("Safari"));
}

#[test]
fn badge_opacity_defaults_and_clamps() {
    assert_eq!(Config::default().badge_opacity_percent(), 80);
    assert_eq!(Config::parse("badge_opacity = 50").badge_opacity_percent(), 50);
    assert_eq!(Config::parse("badge_opacity = 90%").badge_opacity_percent(), 90);
    assert_eq!(Config::parse("badge_opacity = 5").badge_opacity_percent(), 30);
    assert_eq!(Config::parse("badge_opacity = 200").badge_opacity_percent(), 100);
    assert_eq!(Config::parse("badge_opacity = x").badge_opacity_percent(), 80);
}

#[test]
fn empty_text_gives_defaults() {
    assert_eq!(Config::parse(""), Config::default());
}

#[test]
fn serialize_parse_roundtrip() {
    let config = Config {
        auto: false,
        sensitivity: Sensitivity::Aggressive,
        layout: Layout::Sebeolsik390,
        disabled_apps: vec!["terminal".into(), "slack".into()],
        extras: vec![("linux_toggle_keycodes".into(), "130,108".into())],
    };
    assert_eq!(Config::parse(&config.serialize()), config);
}

#[test]
fn end_of_line_comments_are_not_part_of_values() {
    let config = Config::parse(
        "hover_indicator = on     # off = 배지 끔\n\
         initial_mode = korean    # 모드 조회 불가 환경의 초기 표시 (korean|english)\n\
         linux_toggle_keycodes = 130,108   # (Linux) 한/영 토글 키코드\n\
         sensitivity = aggressive # 적극\n\
         note = a#b\n",
    );
    assert_eq!(config.extra("hover_indicator"), Some("on"));
    assert_eq!(config.extra("initial_mode"), Some("korean"));
    assert_eq!(config.extra("linux_toggle_keycodes"), Some("130,108"));
    assert_eq!(config.sensitivity, Sensitivity::Aggressive);
    assert_eq!(config.extra("note"), Some("a#b"));
}

#[test]
fn disabled_app_fragments_match_in_any_case() {
    let config = Config { disabled_apps: vec!["Terminal".to_string()], ..Config::default() };
    assert!(config.app_disabled("terminal"));
    assert!(config.app_disabled("com.apple.Terminal"));
    assert!(config.app_disabled("TERMINAL.APP"));
    assert!(!config.app_disabled("Safari"));
}
