use haneng::layout::Layout;
use haneng::plan::{build_replace_plan, ReplacePlan};
use haneng::tracker::{KeyClass, Target, WordBuffer};

fn feed_str(buf: &mut WordBuffer, s: &str) {
    for c in s.chars() {
        buf.feed(KeyClass::Letter(c));
    }
}

#[test]
fn english_mode_current_word() {
    let plan = build_replace_plan(Layout::Dubeolsik, false, &Target::Current("gksrmf".into(), false));
    assert_eq!(plan, ReplacePlan { backspaces: 6, replacement: "한글".into() });
}

#[test]
fn korean_mode_current_word_counts_preedit() {
    let plan = build_replace_plan(Layout::Dubeolsik, true, &Target::Current("hello".into(), false));
    assert_eq!(plan, ReplacePlan { backspaces: 4, replacement: "hello".into() });
}

#[test]
fn committed_word_deletes_boundary_too() {
    let plan = build_replace_plan(Layout::Dubeolsik, true, &Target::Committed("gksrmf".into(), ' '));
    assert_eq!(plan, ReplacePlan { backspaces: 3, replacement: "gksrmf ".into() });
}

#[test]
fn reinjected_text_is_fully_committed() {
    let plan = build_replace_plan(Layout::Dubeolsik, true, &Target::Current("gksrmf".into(), true));
    assert_eq!(plan, ReplacePlan { backspaces: 2, replacement: "gksrmf".into() });
}

#[test]
fn tracks_current_then_committed() {
    let mut buf = WordBuffer::new();
    feed_str(&mut buf, "gksrmf");
    assert!(matches!(buf.target(), Some(Target::Current(w, false)) if w == "gksrmf"));
    buf.feed(KeyClass::Boundary(' '));
    assert!(matches!(buf.target(), Some(Target::Committed(w, ' ')) if w == "gksrmf"));
}

#[test]
fn backspace_pops_then_falls_back_then_invalidates() {
    let mut buf = WordBuffer::new();
    feed_str(&mut buf, "ab");
    buf.feed(KeyClass::Boundary(' '));
    feed_str(&mut buf, "cd");
    buf.feed(KeyClass::Backspace);
    assert!(matches!(buf.target(), Some(Target::Current(w, _)) if w == "c"));
    buf.feed(KeyClass::Backspace);
    assert!(matches!(buf.target(), Some(Target::Committed(w, ' ')) if w == "ab"));
    buf.feed(KeyClass::Backspace);
    assert!(buf.target().is_none());
}

#[test]
fn converted_state_resets_on_typing() {
    let mut buf = WordBuffer::new();
    feed_str(&mut buf, "gks");
    buf.mark_converted();
    assert!(matches!(buf.target(), Some(Target::Current(_, true))));
    buf.feed(KeyClass::Letter('d'));
    assert!(matches!(buf.target(), Some(Target::Current(w, false)) if w == "d"));
}

#[test]
fn clear_keys_drop_everything() {
    let mut buf = WordBuffer::new();
    feed_str(&mut buf, "abc");
    buf.feed(KeyClass::Boundary(' '));
    feed_str(&mut buf, "def");
    buf.feed(KeyClass::Clear);
    assert!(buf.target().is_none());
}
