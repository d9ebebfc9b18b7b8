use webcat::geometry::CellSize;
use webcat::terminal::capability::{
    cell_size_from_reply, check_graphics, graphics_from_reply, parse_cell_size_report, ReadEvent,
    ReadNext, ReplyReader, CELL_SIZE_END, CELL_SIZE_QUERY, GRAPHICS_END, GRAPHICS_QUERY,
};
use webcat::terminal::input::{classify, drain_tokens, RawInput, ReplyState, Router};
use webcat::terminal::keyboard::{parse_kitty_key, Key, KeyEvent, Mods};
use webcat::terminal::mouse::{parse_sgr_mouse, MouseButton, MouseKind};
use webcat::terminal::raw::{restore_escapes, setup_escapes, RestoreGuard};

#[test]
fn parses_cell_size_report() {
    let cs = parse_cell_size_report("\x1b[6;16;8t").unwrap();
    assert_eq!(cs.w, 8);
    assert_eq!(cs.h, 16);
}

#[test]
fn rejects_wrong_report() {
    assert!(parse_cell_size_report("\x1b[4;16;8t").is_none()); // wrong leading code
    assert!(parse_cell_size_report("garbage").is_none());
}

#[test]
fn report_edge_cases() {
    assert!(parse_cell_size_report("\x1b[6;16t").is_none());
    assert!(parse_cell_size_report("\x1b[6;16;65536t").is_none());
    assert!(parse_cell_size_report("\x1b[6;-1;8t").is_none());
    assert_eq!(parse_cell_size_report("\x1b[6;16;8;9t"), Some(CellSize { w: 8, h: 16 }));
    assert_eq!(parse_cell_size_report("\x1b[6;+16;8t"), Some(CellSize { w: 8, h: 16 }));
}

#[test]
fn missing_cell_size_falls_back() {
    assert_eq!(cell_size_from_reply(""), CellSize { w: 8, h: 16 });
    assert_eq!(cell_size_from_reply("\x1b[6;20;10t"), CellSize { w: 10, h: 20 });
}

#[test]
fn graphics_need_opener_and_ok() {
    assert!(graphics_from_reply("\x1b_Gi=31;OK\x1b\\"));
    assert!(!graphics_from_reply("\x1b_Gi=31;EINVAL\x1b\\"));
    assert!(!graphics_from_reply(";OK"));
    assert!(!graphics_from_reply(""));
}

#[test]
fn reply_is_read_up_to_its_terminator() {
    let mut r = ReplyReader::new(CELL_SIZE_END);
    assert_eq!(r.on_read(ReadEvent::Empty), ReadNext::Pause);
    for b in b"\x1b[6;16;8" {
        assert_eq!(r.on_read(ReadEvent::Byte(*b)), ReadNext::Again);
    }
    assert_eq!(r.on_read(ReadEvent::Byte(b't')), ReadNext::Stop);
    assert_eq!(r.reply(), "\x1b[6;16;8t");
    let mut f = ReplyReader::new(GRAPHICS_END);
    assert_eq!(f.on_read(ReadEvent::Byte(0xff)), ReadNext::Again);
    assert_eq!(f.on_read(ReadEvent::Failed), ReadNext::Stop);
    assert_eq!(f.reply(), "\u{fffd}");
    assert_eq!(CELL_SIZE_QUERY, "\x1b[16t");
    assert!(GRAPHICS_QUERY.starts_with("\x1b_G"));
}

#[test]
fn classifies_kitty_key() {
    match classify("\x1b[97u").unwrap() {
        RawInput::Key(ev) => assert!(matches!(ev.key, Key::Char('a'))),
        _ => panic!("expected key"),
    }
}

#[test]
fn classifies_sgr_mouse() {
    assert!(matches!(classify("\x1b[<0;5;9M"), Some(RawInput::Mouse(_))));
}

#[test]
fn classifies_legacy_control_keys() {
    assert!(matches!(classify("\r"), Some(RawInput::Key(KeyEvent { key: Key::Enter, .. }))));
    assert!(matches!(classify("\x7f"), Some(RawInput::Key(KeyEvent { key: Key::Backspace, .. }))));
    assert!(matches!(classify("\t"), Some(RawInput::Key(KeyEvent { key: Key::Tab, .. }))));
}

#[test]
fn classifies_plain_utf8_text() {
    match classify("가").unwrap() {
        RawInput::Key(ev) => assert_eq!(ev.text.as_deref(), Some("가")),
        _ => panic!("expected key with text"),
    }
}

#[test]
fn classify_edge_cases() {
    assert!(classify("").is_none());
    assert!(classify("\x1b").is_none());
    assert!(classify("\x1b[A").is_none());
    assert!(classify("\x1b[<0;5M").is_none());
    assert!(classify("\x1b[xu").is_none());
    assert!(matches!(classify("\n"), Some(RawInput::Key(KeyEvent { key: Key::Enter, text: None, .. }))));
    assert!(matches!(classify("\x08"), Some(RawInput::Key(KeyEvent { key: Key::Backspace, .. }))));
    match classify("ab").unwrap() {
        RawInput::Key(ev) => {
            assert_eq!(ev.key, Key::Char('a'));
            assert_eq!(ev.text.as_deref(), Some("ab"));
        }
        _ => panic!("expected key with text"),
    }
}

#[test]
fn drain_extracts_complete_sequences() {
    let mut buf = b"\x1b[<0;5;9M\x1b[105u".to_vec();
    let toks = drain_tokens(&mut buf);
    assert_eq!(toks, vec!["\x1b[<0;5;9M".to_string(), "\x1b[105u".to_string()]);
    assert!(buf.is_empty());
}

#[test]
fn drain_keeps_sequence_split_across_reads() {
    // First read ends mid-SGR-mouse sequence (no final byte yet).
    let mut buf = b"\x1b[<0;20;1".to_vec();
    let toks = drain_tokens(&mut buf);
    assert!(toks.is_empty(), "incomplete CSI must not be emitted");
    assert_eq!(buf, b"\x1b[<0;20;1", "incomplete CSI is kept buffered");
    // Second read brings the rest; now the full sequence is emitted.
    buf.extend_from_slice(b"2M");
    let toks = drain_tokens(&mut buf);
    assert_eq!(toks, vec!["\x1b[<0;20;12M".to_string()]);
    assert!(buf.is_empty());
    // And it classifies as a mouse Down (not lost, not a stray key).
    assert!(matches!(classify(&toks[0]), Some(RawInput::Mouse(_))));
}

#[test]
fn drain_keeps_partial_utf8_across_reads() {
    // '가' is 3 bytes (EA B0 80); split after the first byte.
    let full = "가".as_bytes();
    let mut buf = full[..1].to_vec();
    let toks = drain_tokens(&mut buf);
    assert!(toks.is_empty(), "partial UTF-8 must not be emitted");
    buf.extend_from_slice(&full[1..]);
    let toks = drain_tokens(&mut buf);
    assert_eq!(toks, vec!["가".to_string()]);
    assert!(buf.is_empty());
}

#[test]
fn drain_handles_text_then_escape() {
    let mut buf = b"ab\x1b[97u".to_vec();
    let toks = drain_tokens(&mut buf);
    assert_eq!(toks, vec!["ab".to_string(), "\x1b[97u".to_string()]);
}

#[test]
fn drain_edge_cases() {
    let mut buf = b"\x1b".to_vec();
    assert!(drain_tokens(&mut buf).is_empty());
    assert_eq!(buf, b"\x1b");
    buf.push(b'x');
    assert_eq!(drain_tokens(&mut buf), vec!["\x1bx".to_string()]);

    // Invalid bytes are skipped, the text around them is kept.
    let mut buf = b"ab\xff\xffcd\x1b[A".to_vec();
    assert_eq!(
        drain_tokens(&mut buf),
        vec!["ab".to_string(), "cd".to_string(), "\x1b[A".to_string()]
    );
    assert!(buf.is_empty());

    // So they are at the end of the buffer.
    let mut buf = b"\xff\x61".to_vec();
    assert_eq!(drain_tokens(&mut buf), vec!["a".to_string()]);
    assert!(buf.is_empty());
    let mut buf = b"ab\xff".to_vec();
    assert_eq!(drain_tokens(&mut buf), vec!["ab".to_string()]);
    assert!(buf.is_empty());

    // A cut character that an escape follows is no longer waited for.
    let mut buf = b"ab\xea\xb0\x1b[A".to_vec();
    assert_eq!(drain_tokens(&mut buf), vec!["ab".to_string(), "\x1b[A".to_string()]);
    assert!(buf.is_empty());

    // Bytes of an escape that are no text are replaced.
    let mut buf = b"\x1b\xff\x1b[\xffA".to_vec();
    assert_eq!(
        drain_tokens(&mut buf),
        vec!["\x1b\u{fffd}".to_string(), "\x1b[\u{fffd}A".to_string()]
    );
}

#[test]
fn split_reads_lose_nothing() {
    let all = "x\x1b[<0;20;12M가나\x1b[97;5u".as_bytes();
    let mut whole = all.to_vec();
    let want: String = drain_tokens(&mut whole).concat();
    for cut in 0..=all.len() {
        let mut buf = all[..cut].to_vec();
        let mut got: String = drain_tokens(&mut buf).concat();
        let kept = buf.clone();
        assert!(drain_tokens(&mut buf).is_empty(), "the tail is incomplete");
        assert_eq!(buf, kept);
        buf.extend_from_slice(&all[cut..]);
        got.push_str(&drain_tokens(&mut buf).concat());
        assert_eq!(got, want, "cut at {cut}");
        assert_eq!(buf, whole);
    }
}

#[test]
fn graphics_reply_is_one_acknowledgement() {
    let mut buf = b"a\x1b_Gi=1,p=1;OK\x1b\\b".to_vec();
    let mut router = Router::new();
    let mut acks = 0;
    let mut typed = String::new();
    for t in drain_tokens(&mut buf) {
        match router.route(&t) {
            Some(RawInput::GfxAck) => acks += 1,
            Some(RawInput::Key(ev)) => typed.push_str(&ev.text.unwrap()),
            _ => {}
        }
    }
    assert_eq!(acks, 1);
    assert_eq!(typed, "ab");
    assert_eq!(router.state, ReplyState::Outside);
}

#[test]
fn graphics_reply_may_be_split() {
    let mut router = Router::new();
    assert!(router.route("\x1b_").is_none());
    assert!(router.route("Gi=1").is_none());
    assert!(router.route(";OK").is_none());
    assert!(matches!(router.route("\x1b\\"), Some(RawInput::GfxAck)));
    // A key that is no part of a reply ends it.
    assert!(router.route("\x1b_").is_none());
    assert!(matches!(router.route("x"), Some(RawInput::Key(_))));
    assert!(router.route("\x1b_").is_none());
    assert!(router.route("Gi=1").is_none());
    assert!(matches!(router.route("\x1b[97u"), Some(RawInput::Key(_))));
    assert!(router.route("\x1b\\").is_none());
}

#[test]
fn plain_ascii_letter() {
    let ev = parse_kitty_key("\x1b[97u").unwrap(); // 'a'
    assert!(matches!(ev.key, Key::Char('a')));
    assert!(!ev.mods.ctrl && !ev.mods.alt);
}

#[test]
fn ctrl_modifier() {
    // 'c' with ctrl: modifiers = 1 + 4 = 5
    let ev = parse_kitty_key("\x1b[99;5u").unwrap();
    assert!(matches!(ev.key, Key::Char('c')));
    assert!(ev.mods.ctrl);
    assert!(!ev.mods.shift);
}

#[test]
fn release_event_is_parsed() {
    // 'a', no mods (1), event-type 3 (release)
    let ev = parse_kitty_key("\x1b[97;1:3u").unwrap();
    assert!(matches!(ev.key, Key::Char('a')));
}

#[test]
fn enter_and_backspace_special_codes() {
    assert!(matches!(parse_kitty_key("\x1b[13u").unwrap().key, Key::Enter));
    assert!(matches!(parse_kitty_key("\x1b[127u").unwrap().key, Key::Backspace));
    assert!(matches!(parse_kitty_key("\x1b[27u").unwrap().key, Key::Esc));
}

#[test]
fn text_field_is_captured() {
    // key code 97, text codepoint 97 ('a') after second ';'
    let ev = parse_kitty_key("\x1b[97;1;97u").unwrap();
    assert_eq!(ev.text.as_deref(), Some("a"));
}

#[test]
fn rejects_incomplete() {
    assert!(parse_kitty_key("\x1b[97").is_none());
    assert!(parse_kitty_key("not an escape").is_none());
}

#[test]
fn kitty_key_edge_cases() {
    assert_eq!(parse_kitty_key("\x1b[9u").unwrap().key, Key::Tab);
    assert!(parse_kitty_key("\x1b[u").is_none());
    assert!(parse_kitty_key("\x1b[4294967296u").is_none());
    assert!(parse_kitty_key("\x1b[1114112u").is_none()); // no character
    assert!(parse_kitty_key("\x1b[55296u").is_none()); // a surrogate
    assert!(parse_kitty_key("\x1b[97;u").is_none());
    assert!(parse_kitty_key("\x1b[-97u").is_none());
    assert_eq!(parse_kitty_key("\x1b[+97u").unwrap().key, Key::Char('a'));
    // Pieces of the text field that are no characters add nothing.
    assert_eq!(parse_kitty_key("\x1b[97;1;x:44032:55296:45208u").unwrap().text.as_deref(), Some("가나"));
    assert_eq!(parse_kitty_key("\x1b[97;1;u").unwrap().text, None);
    let m = parse_kitty_key("\x1b[97;16u").unwrap().mods;
    assert_eq!(m, Mods { shift: true, ctrl: true, alt: true, meta: true });
    assert_eq!(Mods::from_encoded(0), Mods::none());
    assert_eq!(Mods::from_encoded(3), Mods { alt: true, ..Mods::default() });
}

#[test]
fn left_press_and_release() {
    let d = parse_sgr_mouse("\x1b[<0;5;9M").unwrap();
    assert!(matches!(d.kind, MouseKind::Down(MouseButton::Left)));
    assert_eq!((d.col, d.row), (4, 8)); // converted to 0-based
    let u = parse_sgr_mouse("\x1b[<0;5;9m").unwrap();
    assert!(matches!(u.kind, MouseKind::Up(MouseButton::Left)));
}

#[test]
fn wheel_up_and_down() {
    assert!(matches!(parse_sgr_mouse("\x1b[<64;1;1M").unwrap().kind, MouseKind::WheelUp));
    assert!(matches!(parse_sgr_mouse("\x1b[<65;1;1M").unwrap().kind, MouseKind::WheelDown));
}

#[test]
fn horizontal_wheel_is_ignored() {
    assert!(parse_sgr_mouse("\x1b[<66;1;1M").is_none());
    assert!(parse_sgr_mouse("\x1b[<67;1;1M").is_none());
}

#[test]
fn motion_is_move() {
    // 32 (motion) + 0 (left held) = 32
    assert!(matches!(parse_sgr_mouse("\x1b[<32;2;2M").unwrap().kind, MouseKind::Move));
}

#[test]
fn rejects_garbage() {
    assert!(parse_sgr_mouse("\x1b[<0;5M").is_none());
    assert!(parse_sgr_mouse("nope").is_none());
}

#[test]
fn mouse_edge_cases() {
    assert!(parse_sgr_mouse("\x1b[<0;0;1M").is_none());
    assert!(parse_sgr_mouse("\x1b[<0;1;0M").is_none());
    assert!(parse_sgr_mouse("\x1b[<0;1;1;1M").is_none());
    assert!(parse_sgr_mouse("\x1b[<0;65536;1M").is_none());
    assert!(parse_sgr_mouse("\x1b[<M").is_none());
    let e = parse_sgr_mouse("\x1b[<2;65535;1m").unwrap();
    assert_eq!(e.kind, MouseKind::Up(MouseButton::Right));
    assert_eq!((e.col, e.row), (65534, 0));
    assert_eq!(parse_sgr_mouse("\x1b[<1;1;1M").unwrap().kind, MouseKind::Down(MouseButton::Middle));
}

#[test]
fn restore_is_idempotent_on_flag() {
    let mut g = RestoreGuard::for_test();
    assert!(g.active);
    assert!(g.restore().is_some());
    assert!(!g.active);
    assert!(g.restore().is_none()); // second call is a no-op, must not panic
    assert!(!g.active);
}

#[test]
fn restore_undoes_setup() {
    assert_eq!(setup_escapes(), "\x1b[?1049h\x1b[?25l\x1b[>1u\x1b[?1003h\x1b[?1006h");
    assert_eq!(restore_escapes(), "\x1b[?1006l\x1b[?1003l\x1b[<u\x1b[?25h\x1b[?1049l");
    let (mut g, escapes) = RestoreGuard::entered();
    assert_eq!(escapes, setup_escapes());
    assert_eq!(g.restore(), Some(restore_escapes()));
}

#[test]
fn every_modifier_set_is_read_back() {
    for n in 0u32..16 {
        let ev = parse_kitty_key(&format!("\x1b[97;{}u", n + 1)).unwrap();
        assert_eq!(ev.key, Key::Char('a'));
        assert_eq!(ev.mods.shift, n & 1 != 0);
        assert_eq!(ev.mods.alt, n & 2 != 0);
        assert_eq!(ev.mods.ctrl, n & 4 != 0);
        assert_eq!(ev.mods.meta, n & 8 != 0);
        assert!(ev.text.is_none());
    }
}

#[test]
fn only_the_beginning_of_a_character_waits() {
    // Every row of up to three bytes without an escape, against the decoder's own word
    // on whether more bytes could complete it.
    let mut rows: Vec<Vec<u8>> = Vec::new();
    for a in 0x20u8..=0xff {
        rows.push(vec![a]);
        for b in [0x41u8, 0x7f, 0x80, 0x8f, 0x90, 0x9f, 0xa0, 0xbf, 0xc2, 0xf0, 0xff] {
            rows.push(vec![a, b]);
            for c in [0x41u8, 0x80, 0xbf, 0xc2, 0xe1, 0xf4, 0xf5] {
                rows.push(vec![a, b, c]);
            }
        }
    }
    for row in rows {
        let mut rest: &[u8] = &row;
        let mut want = String::new();
        let kept: &[u8] = loop {
            match std::str::from_utf8(rest) {
                Ok(s) => {
                    want.push_str(s);
                    break &[];
                }
                Err(e) => {
                    want.push_str(std::str::from_utf8(&rest[..e.valid_up_to()]).unwrap());
                    rest = &rest[e.valid_up_to()..];
                    match e.error_len() {
                        Some(n) => rest = &rest[n..],
                        None => break rest,
                    }
                }
            }
        };
        let mut buf = row.clone();
        assert_eq!(drain_tokens(&mut buf).concat(), want, "{row:x?}");
        assert_eq!(buf, kept, "{row:x?}");
    }
}

#[test]
fn escapes_come_out_whole_wherever_they_are_cut() {
    let all = b"\x1b[<0;20;12M\x1b[97;5u\x1bO\x1b[<35;1;1M";
    let mut whole = all.to_vec();
    let want = drain_tokens(&mut whole);
    assert_eq!(want.len(), 4);
    for cut in 0..=all.len() {
        let mut buf = all[..cut].to_vec();
        let mut got = drain_tokens(&mut buf);
        buf.extend_from_slice(&all[cut..]);
        got.extend(drain_tokens(&mut buf));
        assert_eq!(got, want, "cut at {cut}");
    }
}

#[test]
fn terminal_without_graphics_is_refused() {
    assert!(check_graphics(true).is_ok());
    assert_eq!(
        check_graphics(false).unwrap_err().message(),
        "terminal is not Kitty-graphics capable: Kitty graphics protocol not detected"
    );
}
