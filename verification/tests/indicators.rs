use haneng::linux::indicator::{
    apply_key_events, is_text_cursor, mode_for as linux_mode_for, poll_step, toggle_keycodes, x11_opacity, BadgeView,
    Mode as LinuxMode, Point,
};
use haneng::linux::inject::{keysym_for, spare_keycode};
use haneng::linux::render::{badge_pixels, style, Glyph, SIZE};
use haneng::macos::indicator::{caps_lock_in_flags, mode_for as mac_mode_for, resolve_korean, tick_action, BadgeAction, Mode as MacMode};
use haneng::settings::{release_state, UpdateState};
use haneng::windows::indicator::{alpha_from_percent, badge_position, korean_mode, timer_plan, Mode as WinMode};

#[test]
fn toggle_keycodes_setting() {
    assert_eq!(toggle_keycodes(None), vec![130, 108]);
    assert_eq!(toggle_keycodes(Some("")), vec![130, 108]);
    assert_eq!(toggle_keycodes(Some("x, 300")), vec![130, 108]);
    assert_eq!(toggle_keycodes(Some(" 100 ,x,+7")), vec![100, 7]);
}

#[test]
fn opacity_values() {
    assert_eq!(x11_opacity(100), 0xFFFF_FFFF);
    assert_eq!(x11_opacity(80), (80u64 * 0xFFFF_FFFF / 100) as u32);
    assert_eq!(alpha_from_percent(80), 204);
    assert_eq!(alpha_from_percent(100), 255);
}

#[test]
fn text_cursor_names() {
    assert!(is_text_cursor(b"xterm"));
    assert!(is_text_cursor(b"IBeam"));
    assert!(is_text_cursor(b"cursor-text\xff"));
    assert!(!is_text_cursor(b"left_ptr"));
}

fn event(code: u8, key: u8) -> [u8; 32] {
    let mut e = [0u8; 32];
    e[0] = code;
    e[1] = key;
    e
}

#[test]
fn toggle_presses_flip_the_mode() {
    let mut data = Vec::new();
    data.extend_from_slice(&event(2, 130));
    data.extend_from_slice(&event(3, 130));
    data.extend_from_slice(&event(0x82, 108));
    data.extend_from_slice(&event(2, 38));
    assert!(!apply_key_events(false, &data, &[130, 108]));
    data.extend_from_slice(&event(2, 108));
    assert!(apply_key_events(false, &data, &[130, 108]));
    data.extend_from_slice(&[2, 130]);
    assert!(apply_key_events(false, &data, &[130, 108]));
}

#[test]
fn polling_the_x11_badge() {
    let hidden = BadgeView { visible: false, shown: None };
    let (v, a) = poll_step(hidden, true, true, (10, 20), LinuxMode::Korean);
    assert_eq!(v, BadgeView { visible: true, shown: Some(LinuxMode::Korean) });
    assert_eq!(a.place, Some(Point { x: 28, y: 38 }));
    assert!(a.map);
    assert_eq!(a.draw, Some(LinuxMode::Korean));
    let (v2, a2) = poll_step(v, true, true, (11, 20), LinuxMode::Korean);
    assert_eq!(v2, v);
    assert!(!a2.map);
    assert_eq!(a2.draw, None);
    let (v3, a3) = poll_step(v2, true, false, (0, 0), LinuxMode::Korean);
    assert_eq!(v3, hidden);
    assert!(a3.unmap);
    let (v4, a4) = poll_step(v2, false, true, (0, 0), LinuxMode::EnglishLower);
    assert_eq!(v4, v2);
    assert!(!a4.unmap && a4.place.is_none() && !a4.map && a4.draw.is_none());
    assert_eq!(linux_mode_for(false, true), LinuxMode::EnglishUpper);
}

#[test]
fn badge_images() {
    assert_eq!(style(LinuxMode::Korean), ((0xB0, 0x6C, 0x2B), '한'));
    let plain = badge_pixels(LinuxMode::EnglishLower, None);
    assert_eq!(plain.len(), SIZE * SIZE * 4);
    assert_eq!(&plain[0..4], &[0x68, 0x55, 0x4A, 0xFF]);
    let glyph = Glyph { width: 2, height: 2, coverage: vec![255, 0, 128, 0] };
    let img = badge_pixels(LinuxMode::EnglishLower, Some(&glyph));
    // The glyph sits at (11, 11): full white, then background, then half.
    let at = |x: usize, y: usize| (y * SIZE + x) * 4;
    assert_eq!(&img[at(11, 11)..at(11, 11) + 4], &[0xFF, 0xFF, 0xFF, 0xFF]);
    assert_eq!(&img[at(12, 11)..at(12, 11) + 4], &[0x68, 0x55, 0x4A, 0xFF]);
    let half = |b: u16| ((255 * 128 + b * 127) / 255) as u8;
    assert_eq!(&img[at(11, 12)..at(11, 12) + 4], &[half(0x68), half(0x55), half(0x4A), 0xFF]);
    let big = Glyph { width: 30, height: 1, coverage: vec![9; 30] };
    let wide = badge_pixels(LinuxMode::Korean, Some(&big));
    assert_eq!(wide.len(), SIZE * SIZE * 4);
}

#[test]
fn keysyms_and_spare_keycodes() {
    assert_eq!(keysym_for('a'), 0x61);
    assert_eq!(keysym_for('é'), 0xE9);
    assert_eq!(keysym_for('한'), 0x0100_D55C);
    assert_eq!(spare_keycode(8, &[1, 0, 0, 2, 0, 0], 2), Some(10));
    assert_eq!(spare_keycode(8, &[1, 0, 0, 2, 3], 2), None);
    assert_eq!(spare_keycode(8, &[1, 2, 0], 2), Some(9));
}

#[test]
fn macos_badge_state() {
    assert_eq!(mac_mode_for(true, true), MacMode::Korean);
    assert_eq!(mac_mode_for(false, true), MacMode::EnglishUpper);
    assert!(resolve_korean(None, true));
    assert!(!resolve_korean(Some(false), true));
    assert!(caps_lock_in_flags(0x0001_0100));
    assert!(!caps_lock_in_flags(0x0000_0100));
    assert_eq!(tick_action(true, true, true, true), BadgeAction::ShowAtCaret);
    assert_eq!(tick_action(true, true, true, false), BadgeAction::ShowAtMouse);
    assert_eq!(tick_action(false, true, true, true), BadgeAction::Hide);
}

#[test]
fn windows_badge_state() {
    assert_eq!(WinMode::from_u8(2), WinMode::Korean);
    assert_eq!(WinMode::from_u8(9), WinMode::EnglishLower);
    for m in [WinMode::EnglishLower, WinMode::EnglishUpper, WinMode::Korean] {
        assert_eq!(WinMode::from_u8(m.to_u8()), m);
    }
    assert!(korean_mode(true, Some(true), false));
    assert!(!korean_mode(false, Some(true), false));
    assert!(korean_mode(true, None, true));
    // Above the caret when there is room, below it otherwise.
    assert_eq!(badge_position(100, 500, 520, (0, 0, 1920, 1080)), (100, 476));
    assert_eq!(badge_position(100, 10, 30, (0, 0, 1920, 1080)), (100, 32));
    assert_eq!(badge_position(1910, 500, 520, (0, 0, 1920, 1080)), (1898, 476));
    assert_eq!(badge_position(-2000, 500, 520, (-1920, 0, 0, 1080)), (-1920, 476));
    let p = timer_plan(true, 13, false);
    assert!(p.refresh_alpha && !p.poll && p.next_tick == 14);
    let p = timer_plan(true, u32::MAX, true);
    assert!(p.poll && p.next_tick == 0);
    assert!(timer_plan(false, 4, true).hide_only);
}

#[test]
fn release_answers() {
    let newer = release_state(r#"{"tag_name":"v9.0.0"}"#, "0.4.0");
    assert_eq!(newer, UpdateState::Available("v9.0.0".into()));
    assert_eq!(release_state(r#"{"tag_name":"v0.4.0"}"#, "0.4.0"), UpdateState::UpToDate);
    assert!(matches!(release_state("{}", "0.4.0"), UpdateState::Error(_)));
}
