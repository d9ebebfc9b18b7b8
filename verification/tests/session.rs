use webcat::browser::Clickable;
use webcat::geometry::{CellSize, GridSize, HalfPx, Viewport};
use webcat::input::Mode;
use webcat::renderer::Rgba;
use webcat::session::{retry_after, Effect, Pacer, Session, SizeWatch, MAX_IN_FLIGHT};
use webcat::terminal::input::RawInput;
use webcat::terminal::keyboard::{Key, KeyEvent, Mods};
use webcat::terminal::mouse::{MouseButton, MouseEvent, MouseKind};

fn session() -> Session {
    Session::new(
        GridSize { cols: 80, rows: 24 },
        CellSize { w: 8, h: 16 },
        "about:blank".into(),
        false,
        false,
        1,
        0,
    )
}

fn key(c: char) -> RawInput {
    RawInput::Key(KeyEvent { key: Key::Char(c), mods: Mods::none(), text: Some(c.to_string()) })
}

fn named(key: Key) -> RawInput {
    RawInput::Key(KeyEvent { key, mods: Mods::none(), text: None })
}

fn mouse(kind: MouseKind, col: u16, row: u16) -> RawInput {
    RawInput::Mouse(MouseEvent { kind, col, row })
}

fn frame(s: &mut Session, now: u64) -> bool {
    let f = Rgba { pixels: vec![9; 2 * 2 * 4], width: 2, height: 2 };
    match s.on_decoded_frame(Some((2, 2)), Some(f), now) {
        Some(p) => {
            assert!(p.show.is_some());
            s.frame_sent(now);
            true
        }
        None => false,
    }
}

fn clickables(n: usize) -> Vec<Clickable> {
    (0..n).map(|i| Clickable { index: i, col: i as u16, row: 1 }).collect()
}

#[test]
fn silent_terminal_gets_every_frame() {
    let mut s = session();
    for i in 0..50 {
        assert!(frame(&mut s, i));
    }
    assert_eq!(s.pacer.in_flight, 50);
}

#[test]
fn acknowledging_terminal_sets_the_pace() {
    let mut s = session();
    assert!(frame(&mut s, 1));
    s.on_input(RawInput::GfxAck);
    assert!(frame(&mut s, 2));
    assert!(frame(&mut s, 3));
    assert_eq!(s.pacer.in_flight, MAX_IN_FLIGHT);
    assert!(!frame(&mut s, 4), "two frames wait");
    assert_eq!(s.frame_count, 3, "a dropped frame is not counted");
    s.on_input(RawInput::GfxAck);
    assert!(frame(&mut s, 5));
    assert!(!frame(&mut s, 754));
    assert!(frame(&mut s, 755), "a stall does not freeze the screen");
    assert_eq!(s.pacer.in_flight, 1);
}

#[test]
fn pacer_ignores_a_clock_that_goes_back() {
    let p = Pacer { in_flight: 2, acked: true, last_transmit_ms: 1000 };
    assert!(!p.admits(0));
    assert!(!p.admits(1749));
    assert!(p.admits(1750));
}

#[test]
fn new_size_lays_out_anew() {
    let mut w = SizeWatch { last_dims: None, last_resync_ms: 0 };
    assert!(!w.see(Some((100, 100)), 1000));
    assert!(!w.see(Some((116, 100)), 1000));
    assert!(w.see(Some((133, 100)), 1000));
    assert!(!w.see(Some((133, 60)), 1400), "too soon");
    assert!(!w.see(None, 2000));
    assert!(w.see(Some((133, 100)), 2000));
    assert_eq!(w, SizeWatch { last_dims: Some((133, 100)), last_resync_ms: 2000 });
}

#[test]
fn frames_show_and_refresh() {
    let mut s = session();
    for i in 1..=60u64 {
        let p = s.on_frame(b"no picture", i).unwrap();
        assert!(p.show.is_none() && p.resync.is_none());
        assert_eq!(p.refresh_url, i % 30 == 0);
    }
    s.on_url(None);
    assert_eq!(s.current_url, "about:blank");
    s.on_url(Some("https://x".into()));
    assert_eq!(s.current_url, "https://x");
    assert!(String::from_utf8(s.status()).unwrap().contains("https://x"));
}

#[test]
fn changed_capture_is_resynced() {
    let mut s = session();
    let vp = Viewport { width_px: 640, height_px: 368 };
    assert!(s.on_decoded_frame(Some((640, 368)), None, 1000).unwrap().resync.is_none());
    assert_eq!(s.on_decoded_frame(Some((320, 184)), None, 1001).unwrap().resync, Some(vp));
}

#[test]
fn typed_address_is_opened() {
    let mut s = session();
    for c in ":example.con".chars() {
        assert!(s.on_input(key(c)).is_empty());
    }
    s.on_input(named(Key::Backspace));
    s.on_input(key('m'));
    assert_eq!(s.url_buffer, "example.com");
    assert!(String::from_utf8(s.status()).unwrap().ends_with(": example.com"));
    let e = s.on_input(named(Key::Enter));
    assert!(matches!(&e[..], [Effect::LookupPath(p)] if p == "example.com"));
    let e = s.on_path(None);
    assert!(matches!(&e[..], [Effect::Navigate(u)] if u == "https://example.com"));
    assert_eq!((s.current_url.as_str(), s.url_buffer.as_str()), ("https://example.com", ""));
    assert_eq!(s.mapper.mode, Mode::Normal);
}

#[test]
fn submitted_file_is_opened() {
    let mut s = session();
    s.on_input(key(':'));
    s.on_input(key('x'));
    s.on_input(named(Key::Enter));
    let e = s.on_path(Some("/a b".into()));
    assert!(matches!(&e[..], [Effect::Navigate(u)] if u == "file:///a%20b"));
}

#[test]
fn one_letter_label_clicks_its_element() {
    let mut s = session();
    frame(&mut s, 0);
    let e = s.on_input(key('f'));
    assert!(matches!(&e[..], [Effect::CollectClickables]));
    let e = s.on_clickables(clickables(3));
    assert!(matches!(&e[..], [Effect::Show(_), Effect::Write(_), Effect::Flush]));
    assert_eq!(s.drawn_hints.len(), 3);
    let e = s.on_input(key('S'));
    assert!(matches!(
        &e[..],
        [Effect::ClickHint(1), Effect::RefreshUrl, Effect::Show(_), Effect::Write(_), Effect::Flush]
    ));
    assert_eq!(s.mapper.mode, Mode::Normal);
    assert!(s.drawn_hints.is_empty() && s.hints.is_empty() && s.hint_buffer.is_empty());
}

#[test]
fn every_label_clicks_its_element() {
    for n in [1usize, 26, 27, 100, 677] {
        for (i, label) in webcat::input::hints::hint_labels(n).iter().enumerate() {
            if (100..600).contains(&i) {
                continue;
            }
            let mut s = session();
            s.on_input(key('f'));
            s.on_clickables(clickables(n));
            let mut clicked = None;
            for c in label.chars() {
                for e in s.on_input(key(c)) {
                    if let Effect::ClickHint(k) = e {
                        clicked = Some(k);
                    }
                }
            }
            assert_eq!(clicked, Some(i));
            assert_eq!(s.mapper.mode, Mode::Normal);
        }
    }
}

#[test]
fn labels_are_narrowed_down() {
    let mut s = session();
    s.on_input(key('f'));
    s.on_clickables(clickables(30));
    assert!(s.on_input(key('1')).is_empty());
    let e = s.on_input(key('s'));
    assert!(matches!(&e[..], [Effect::Write(_), Effect::Write(_), Effect::Flush]));
    let left: Vec<&str> = s.drawn_hints.iter().map(|l| l.0.as_str()).collect();
    assert_eq!(left, vec!["sa", "ss", "sd", "sf"]);
    assert!(s.on_input(key('z')).is_empty(), "a stray letter does nothing");
    assert_eq!(s.hint_buffer, "s");
    let e = s.on_input(key('d'));
    assert!(matches!(e[0], Effect::ClickHint(28)));
}

#[test]
fn cancelled_hints_are_erased() {
    let mut s = session();
    frame(&mut s, 0);
    s.on_input(key('f'));
    s.on_clickables(clickables(2));
    let e = s.on_input(named(Key::Esc));
    match &e[..] {
        [Effect::Show(t), Effect::Write(w)] => {
            assert_eq!(t.pixels, vec![9; 16], "the clean frame");
            assert_eq!(w, b"\x1b[2;1H \x1b[2;2H ");
        }
        other => panic!("unexpected {other:?}"),
    }
    assert!(s.on_input(named(Key::Esc)).len() == 1, "Esc goes to the page now");
}

#[test]
fn nothing_to_click_ends_hint_mode() {
    let mut s = session();
    s.on_input(key('f'));
    let e = s.on_clickables(vec![]);
    assert!(matches!(&e[..], [Effect::Write(w), Effect::Flush] if String::from_utf8_lossy(w).contains("(no clickable elements)")));
    assert_eq!(s.mapper.mode, Mode::Normal);
}

#[test]
fn moves_are_told_once() {
    let mut s = session();
    for col in 0..5 {
        assert!(s.on_input(mouse(MouseKind::Move, col, 0)).is_empty());
    }
    let e = s.end_batch(true);
    assert!(matches!(
        &e[..],
        [Effect::MoveMouse { x: HalfPx { halves: 72 }, y: HalfPx { halves: 16 } }, Effect::Write(_), Effect::Flush]
    ));
    assert!(s.page_loading);
    assert_eq!(s.end_batch(false).len(), 2, "nothing is told twice");
    s.on_input(mouse(MouseKind::Move, 1, 1));
    let e = s.on_input(mouse(MouseKind::Down(MouseButton::Left), 2, 1));
    assert!(matches!(
        &e[..],
        [Effect::Click { x: HalfPx { halves: 40 }, y: HalfPx { halves: 48 }, button: MouseButton::Left }]
    ));
    assert_eq!(s.end_batch(false).len(), 2, "a click needs no hover");
}

#[test]
fn keyboard_scroll_follows_the_pointer() {
    let mut s = session();
    let e = s.on_input(key('j'));
    assert!(matches!(
        &e[..],
        [Effect::Scroll { x: HalfPx { halves: 640 }, y: HalfPx { halves: 368 }, dy: HalfPx { halves: 96 } }]
    ));
    s.on_input(mouse(MouseKind::Move, 0, 0));
    let e = s.on_input(key('k'));
    assert!(matches!(
        &e[..],
        [Effect::Scroll { x: HalfPx { halves: 8 }, y: HalfPx { halves: 16 }, dy: HalfPx { halves: -96 } }]
    ));
}

#[test]
fn keys_and_text_reach_the_page() {
    let mut s = session();
    assert!(matches!(&s.on_input(named(Key::Up))[..], [Effect::PressKey(Key::Up, _)]));
    s.on_input(key('i'));
    assert!(matches!(&s.on_input(key('가'))[..], [Effect::InsertText(t)] if t == "가"));
    assert!(matches!(&s.on_input(named(Key::Enter))[..], [Effect::PressKey(Key::Enter, _)]));
    s.on_input(named(Key::Esc));
    assert!(matches!(&s.on_input(key('r'))[..], [Effect::Reload]));
    assert!(matches!(&s.on_input(key('H'))[..], [Effect::GoBack]));
    assert!(!s.quit);
    s.on_input(key('q'));
    assert!(s.quit);
}

#[test]
fn only_real_resizes_count() {
    let mut s = session();
    assert!(matches!(&s.on_input(RawInput::Resize)[..], [Effect::QuerySize]));
    assert!(s.on_resize(80, 24).is_empty());
    let e = s.on_resize(100, 30);
    let vp = Viewport { width_px: 800, height_px: 464 };
    assert!(matches!(&e[..], [Effect::Write(w), Effect::Flush, Effect::Resync(v)] if w == b"\x1b[2J" && *v == vp));
    assert_eq!(s.ui.grid, GridSize { cols: 100, rows: 30 });
    assert_eq!(s.on_startup(80, 24), Viewport { width_px: 640, height_px: 368 });
    assert_eq!(s.ui.grid, GridSize { cols: 80, rows: 24 });
}

#[test]
fn loading_line_moves() {
    let mut s = session();
    s.on_loading(true);
    s.loading_phase = u16::MAX;
    let a = s.on_tick();
    assert_eq!(s.loading_phase, 0);
    let b = s.on_tick();
    assert_ne!(a, b);
    s.on_reconnected(false);
    assert!(!s.page_loading);
}

#[test]
fn lost_browser_is_given_up() {
    assert_eq!((retry_after(1).wait_ms, retry_after(1).again), (500, true));
    assert_eq!((retry_after(2).wait_ms, retry_after(2).again), (1000, true));
    assert_eq!((retry_after(3).wait_ms, retry_after(3).again), (1500, false));
}

#[test]
fn status_line_follows_the_size() {
    let mut s = session();
    assert!(s.status().starts_with(b"\x1b[24;1H"));
    s.on_startup(100, 40);
    assert!(s.status().starts_with(b"\x1b[40;1H"));
    assert!(s.on_resize(100, 40).is_empty());
    assert!(s.status().starts_with(b"\x1b[40;1H"));
    s.on_resize(90, 30);
    assert!(s.status().starts_with(b"\x1b[30;1H"));
}
