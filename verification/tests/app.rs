use webcat::app::{
    conflict_answer, conflict_killed, conflict_prompt, conflict_start, encode_file_path,
    expand_home, file_url_if_path, hint_boxes, jpeg_dims, normalize_url, scroll_target, typed_path,
    urlencode, window_for, write_status, Conflict, TypedPath,
};
use webcat::geometry::{CellSize, GridSize, HalfPx, Viewport};
use webcat::input::Mode;
use webcat::renderer::HintBox;
use webcat::ui::Ui;

fn at(x: f64, y: f64) -> (HalfPx, HalfPx) {
    (HalfPx { halves: (x * 2.0) as i64 }, HalfPx { halves: (y * 2.0) as i64 })
}

fn place(x: f64, y: f64, last: Option<(f64, f64)>, vp: Viewport) -> (f64, f64) {
    let (hx, hy) = at(x, y);
    let (rx, ry) = scroll_target(hx, hy, last.map(|(a, b)| at(a, b)), vp);
    (rx.halves as f64 / 2.0, ry.halves as f64 / 2.0)
}

#[test]
fn keyboard_scroll_uses_last_mouse_position() {
    let vp = Viewport { width_px: 800, height_px: 600 };
    assert_eq!(place(0.0, 0.0, Some((120.0, 240.0)), vp), (120.0, 240.0));
}

#[test]
fn keyboard_scroll_falls_back_to_viewport_center() {
    let vp = Viewport { width_px: 801, height_px: 601 };
    assert_eq!(place(0.0, 0.0, None, vp), (400.5, 300.5));
}

#[test]
fn mouse_wheel_keeps_actual_position() {
    let vp = Viewport { width_px: 800, height_px: 600 };
    assert_eq!(place(10.0, 20.0, Some((120.0, 240.0)), vp), (10.0, 20.0));
    assert_eq!(place(0.0, 20.0, Some((120.0, 240.0)), vp), (0.0, 20.0));
}

#[test]
fn normalize_url_uses_existing_file_paths() {
    let url = normalize_url(" /tmp/hello world.html", Some("/tmp/hello world.html"));
    assert!(url.starts_with("file:///"), "{url}");
    assert!(url.ends_with("/hello%20world.html"), "{url}");
}

#[test]
fn normalize_url_keeps_web_and_search_inputs() {
    assert_eq!(
        normalize_url("https://example.com/a b", None),
        "https://example.com/a b"
    );
    assert_eq!(normalize_url("example.com", None), "https://example.com");
    assert_eq!(
        normalize_url("rust async book", None),
        "https://www.google.com/search?q=rust+async+book"
    );
}

#[test]
fn normalize_url_edge_cases() {
    assert_eq!(normalize_url("  about:blank\n", None), "about:blank");
    assert_eq!(normalize_url("", None), "https://www.google.com/search?q=");
    assert_eq!(normalize_url("\u{3000}a.b\u{a0}", None), "https://a.b");
    assert_eq!(normalize_url("a.b c", None), "https://www.google.com/search?q=a.b+c");
    assert_eq!(normalize_url("https://x/y", Some("/home/u/https:")), "https://x/y");
    assert_eq!(normalize_url("a.b", Some("/home/u/a.b")), "file:///home/u/a.b");
    for s in ["x y", "a.b", "about:x", "가", " http://q "] {
        let once = normalize_url(s, None);
        assert_eq!(normalize_url(&once, Some("/etc")), once, "an address stays");
    }
    assert_eq!(typed_path("  ~/a b \t"), "~/a b");
}

#[test]
fn files_need_a_name_and_a_path() {
    assert_eq!(file_url_if_path("", Some("/x")), None);
    assert_eq!(file_url_if_path("x", None), None);
    assert_eq!(file_url_if_path("x", Some("/a b/가")).as_deref(), Some("file:///a%20b/%EA%B0%80"));
}

#[test]
fn encoding_keeps_what_may_stay() {
    assert_eq!(urlencode("aZ09-_.~ /+%가"), "aZ09-_.~+%2F%2B%25%EA%B0%80");
    assert_eq!(encode_file_path("aZ09-_.~ /+%"), "aZ09-_.~%20/%2B%25");
}

#[test]
fn home_is_told_apart() {
    assert!(matches!(expand_home("~"), TypedPath::Home));
    assert!(matches!(expand_home("~/"), TypedPath::UnderHome(r) if r.is_empty()));
    assert!(matches!(expand_home("~/a/b"), TypedPath::UnderHome(r) if r == "a/b"));
    assert!(matches!(expand_home("~user"), TypedPath::Plain(p) if p == "~user"));
    assert!(matches!(expand_home("/x"), TypedPath::Plain(p) if p == "/x"));
}

#[test]
fn picture_headers() {
    let mut png = b"\x89PNG\r\n\x1a\n\0\0\0\rIHDR".to_vec();
    png.extend_from_slice(&[0, 0, 4, 1, 1, 2, 3, 4]);
    assert_eq!(jpeg_dims(&png), Some((0x401, 0x01020304)));
    assert_eq!(jpeg_dims(&png[..23]), None);
    // Start of image, a comment of four bytes, a stray byte, then the size.
    let jpeg = [
        0xff, 0xd8, 0xff, 0xfe, 0, 4, 1, 2, 0x00, 0xff, 0xc2, 0, 17, 8, 0x01, 0x02, 0x03, 0x04, 3, 0,
    ];
    assert_eq!(jpeg_dims(&jpeg), Some((0x304, 0x102)));
    assert_eq!(jpeg_dims(&jpeg[..18]), None);
    // A Huffman table is no size.
    let dht = [0xff, 0xd8, 0xff, 0xc4, 0xff, 0xff, 0, 0, 0, 0, 0, 0, 0, 0];
    assert_eq!(jpeg_dims(&dht), None);
    assert_eq!(jpeg_dims(&[0xff, 0xd8]), None);
    assert_eq!(jpeg_dims(b""), None);
    assert_eq!(jpeg_dims(b"GIF89a__________________"), None);
    let img = image::RgbImage::from_pixel(37, 11, image::Rgb([1, 2, 3]));
    for f in [image::ImageFormat::Jpeg, image::ImageFormat::Png] {
        let mut buf = std::io::Cursor::new(Vec::new());
        img.write_to(&mut buf, f).unwrap();
        assert_eq!(jpeg_dims(&buf.into_inner()), Some((37, 11)));
    }
}

#[test]
fn boxes_span_their_labels() {
    let b = hint_boxes(&[("a".into(), 3, 4), ("as".into(), 0, 65535)], CellSize { w: 8, h: 16 });
    assert_eq!(
        b,
        vec![
            HintBox { x: 24, y: 64, w: 8, h: 16 },
            HintBox { x: 0, y: 65535 * 16, w: 16, h: 16 },
        ]
    );
}

#[test]
fn status_shows_mode_and_control() {
    let ui = Ui::new(GridSize { cols: 80, rows: 24 });
    let show = |mode, control| String::from_utf8(write_status(&ui, mode, "u", "typed", control, false, 0)).unwrap();
    assert_eq!(show(Mode::Normal, false), "\x1b[24;1H\x1b[2K\x1b[7m  u\x1b[0m");
    assert!(show(Mode::Insert, false).contains("  -- INSERT --  u"));
    assert!(show(Mode::Hint, true).contains("  u  MCP control active"));
    assert!(show(Mode::UrlInput, false).ends_with("\x1b[24;1H\x1b[2K: typed"));
}

#[test]
fn window_has_a_margin() {
    assert_eq!(window_for(Viewport { width_px: 800, height_px: 464 }), (1400, 1064));
}

#[test]
fn conflict_answers() {
    assert_eq!(conflict_start(None, true), Conflict::Proceed);
    assert_eq!(conflict_start(Some(5), false), Conflict::Proceed);
    assert_eq!(conflict_start(Some(5), true), Conflict::Ask);
    assert_eq!(conflict_answer(None), Conflict::Quit);
    for s in ["k\n", " KILL \r\n"] {
        assert_eq!(conflict_answer(Some(s)), Conflict::Kill);
    }
    for s in ["a", "Anon", "anonymous\n"] {
        assert_eq!(conflict_answer(Some(s)), Conflict::Anonymous);
    }
    for s in ["q", "Quit\n"] {
        assert_eq!(conflict_answer(Some(s)), Conflict::Quit);
    }
    for s in ["", "\n", "kk", "k a"] {
        assert_eq!(conflict_answer(Some(s)), Conflict::AskAgain);
    }
    assert!(conflict_prompt(77).starts_with("\nwebcat: a previous browser (pid 77) is still running"));
    assert!(conflict_prompt(77).ends_with("[q] quit\nchoice [k/a/q]: "));
    assert_eq!(conflict_killed(77, true), "killed 77; reusing your profile.");
    assert_eq!(conflict_killed(-3, false), "could not kill -3; opening anonymously instead.");
}
