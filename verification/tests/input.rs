use webcat::geometry::{CellSize, HalfPx};
use webcat::input::action::Action;
use webcat::input::hints::{assign, hint_labels};
use webcat::input::{InputMapper, Mode};
use webcat::terminal::keyboard::{Key, KeyEvent, Mods};
use webcat::terminal::mouse::{MouseButton, MouseEvent, MouseKind};

fn px(v: HalfPx) -> f64 {
    v.halves as f64 / 2.0
}

fn mapper() -> InputMapper {
    InputMapper::new(CellSize { w: 8, h: 16 })
}

fn ev(key: Key, text: Option<&str>) -> KeyEvent {
    KeyEvent { key, mods: Mods::none(), text: text.map(|s| s.to_string()) }
}

#[test]
fn single_letters_for_small_counts() {
    assert_eq!(hint_labels(3), vec!["a", "s", "d"]);
}

#[test]
fn two_letters_when_exhausted() {
    let labels = hint_labels(30);
    assert_eq!(labels.len(), 30);
    assert_eq!(labels[26].len(), 2);
}

#[test]
fn every_element_has_a_label_of_its_own() {
    for n in [0usize, 1, 26, 27, 676, 677, 2000] {
        let labels = hint_labels(n);
        assert_eq!(labels.len(), n);
        for (i, a) in labels.iter().enumerate() {
            assert!(labels[..i].iter().all(|b| !a.starts_with(b.as_str()) && !b.starts_with(a.as_str())));
        }
    }
    assert_eq!(hint_labels(27)[..3], ["aa", "as", "ad"]);
    assert_eq!(hint_labels(27)[26], "sa");
    assert_eq!(hint_labels(676)[675], "mm");
    assert_eq!(hint_labels(677)[..3], ["aaa", "aas", "aad"]);
    assert_eq!(hint_labels(677)[676], "saa");
    assert_eq!(hint_labels(17576)[17575], "mmm");
    assert_eq!(hint_labels(17577)[17576], "saaa");
}

#[test]
fn assign_pairs_labels_with_elements() {
    assert_eq!(
        assign(&[10u8, 20]),
        vec![("a".to_string(), 10u8), ("s".to_string(), 20)]
    );
    assert_eq!(assign(&[0u8; 700]).len(), 700);
}

#[test]
fn colon_enters_url_mode() {
    let mut m = mapper();
    let a = m.on_key(ev(Key::Char(':'), Some(":")));
    assert!(matches!(a, Action::EnterUrlMode));
    assert!(matches!(m.mode, Mode::UrlInput));
}

#[test]
fn korean_text_in_url_mode_is_captured() {
    let mut m = mapper();
    m.on_key(ev(Key::Char(':'), Some(":")));
    let a = m.on_key(ev(Key::Char('가'), Some("안녕")));
    match a {
        Action::UrlInputChar(s) => assert_eq!(s, "안녕"),
        other => panic!("expected UrlInputChar, got {other:?}"),
    }
}

#[test]
fn i_enters_insert_mode_and_korean_inserts_text() {
    let mut m = mapper();
    assert!(matches!(m.on_key(ev(Key::Char('i'), Some("i"))), Action::EnterInsertMode));
    assert!(matches!(m.mode, Mode::Insert));
    let a = m.on_key(ev(Key::Char('하'), Some("하세요")));
    match a {
        Action::InsertText(s) => assert_eq!(s, "하세요"),
        other => panic!("expected InsertText, got {other:?}"),
    }
}

#[test]
fn normal_mode_does_not_leak_text_to_page() {
    let mut m = mapper();
    // A printable letter that is not a command must be swallowed in Normal mode.
    assert!(matches!(m.on_key(ev(Key::Char('z'), Some("z"))), Action::Nothing));
}

#[test]
fn esc_in_normal_mode_is_sent_to_page() {
    let mut m = mapper();
    assert!(matches!(m.on_key(ev(Key::Esc, None)), Action::Key(Key::Esc, _)));
    assert!(matches!(m.mode, Mode::Normal));
}

#[test]
fn esc_exits_insert_mode() {
    let mut m = mapper();
    m.on_key(ev(Key::Char('i'), Some("i")));
    assert!(matches!(m.on_key(ev(Key::Esc, None)), Action::ExitInsertMode));
    assert!(matches!(m.mode, Mode::Normal));
}

#[test]
fn left_click_maps_to_pixel_center() {
    let mut m = mapper();
    let a = m.on_mouse(MouseEvent { kind: MouseKind::Down(MouseButton::Left), col: 2, row: 1 });
    match a {
        Action::ClickPixel { x, y, .. } => assert_eq!((px(x), px(y)), (20.0, 24.0)),
        other => panic!("expected ClickPixel, got {other:?}"),
    }
}

#[test]
fn wheel_scrolls() {
    let mut m = mapper();
    let a = m.on_mouse(MouseEvent { kind: MouseKind::WheelDown, col: 0, row: 0 });
    assert!(matches!(a, Action::ScrollPixel { dy, .. } if px(dy) == 16.0));
}

#[test]
fn q_quits_in_normal_mode() {
    let mut m = mapper();
    assert!(matches!(m.on_key(ev(Key::Char('q'), Some("q"))), Action::Quit));
}

#[test]
fn backspace_goes_back_in_normal_mode() {
    let mut m = mapper();
    assert!(matches!(m.on_key(ev(Key::Backspace, None)), Action::GoBack));
    assert!(matches!(m.mode, Mode::Normal));
}

#[test]
fn keyboard_scrolls_by_three_lines() {
    let mut m = mapper();
    match m.on_key(ev(Key::Char('j'), Some("j"))) {
        Action::ScrollPixel { x, y, dy } => assert_eq!((px(x), px(y), px(dy)), (0.0, 0.0, 48.0)),
        other => panic!("expected ScrollPixel, got {other:?}"),
    }
    assert!(matches!(m.on_key(ev(Key::Char('k'), None)), Action::ScrollPixel { dy, .. } if px(dy) == -48.0));
}

#[test]
fn hint_mode_takes_letters_only() {
    let mut m = mapper();
    assert!(matches!(m.on_key(ev(Key::Char('f'), None)), Action::EnterHintMode));
    assert!(matches!(m.on_key(ev(Key::Char('S'), Some("S"))), Action::HintKey('s')));
    assert!(matches!(m.on_key(ev(Key::Char('1'), Some("1"))), Action::Nothing));
    assert!(matches!(m.on_key(ev(Key::Char('가'), Some("가"))), Action::Nothing));
    assert!(matches!(m.on_key(ev(Key::Enter, None)), Action::Nothing));
    assert_eq!(m.mode, Mode::Hint);
    assert!(matches!(m.on_key(ev(Key::Esc, None)), Action::UrlCancel));
    assert_eq!(m.mode, Mode::Normal);
}

#[test]
fn address_keys() {
    let mut m = mapper();
    m.on_key(ev(Key::Char(':'), None));
    assert!(matches!(m.on_key(ev(Key::Backspace, None)), Action::UrlBackspace));
    assert!(matches!(m.on_key(ev(Key::Up, None)), Action::Nothing));
    assert!(matches!(m.on_key(ev(Key::Enter, None)), Action::UrlSubmit));
    assert_eq!(m.mode, Mode::Normal);
    m.on_key(ev(Key::Char(':'), None));
    assert!(matches!(m.on_key(ev(Key::Esc, None)), Action::UrlCancel));
}

#[test]
fn insert_mode_sends_editing_keys_as_keys() {
    let mut m = mapper();
    m.on_key(ev(Key::Char('i'), None));
    for k in [Key::Enter, Key::Backspace, Key::Tab, Key::Delete, Key::Up, Key::Down, Key::Left, Key::Right] {
        assert!(matches!(m.on_key(ev(k, Some("x"))), Action::Key(got, _) if got == k));
    }
    assert!(matches!(m.on_key(ev(Key::Home, None)), Action::Nothing));
}

#[test]
fn other_mouse_events() {
    let mut m = mapper();
    let at = |kind| MouseEvent { kind, col: 0, row: 0 };
    assert!(matches!(
        m.on_mouse(at(MouseKind::Down(MouseButton::Right))),
        Action::ClickPixel { button: MouseButton::Right, .. }
    ));
    assert!(matches!(m.on_mouse(at(MouseKind::WheelUp)), Action::ScrollPixel { dy, .. } if px(dy) == -16.0));
    assert!(matches!(m.on_mouse(at(MouseKind::Move)), Action::MoveMouse { .. }));
    assert!(matches!(m.on_mouse(at(MouseKind::Up(MouseButton::Left))), Action::Nothing));
}
