use webcat::geometry::GridSize;
use webcat::ui::{loading_bg, Ui};

fn ui() -> Ui {
    Ui::new(GridSize { cols: 80, rows: 24 })
}

#[test]
fn status_bar_targets_bottom_row() {
    let out = String::from_utf8(ui().status_bar("https://example.com", false)).unwrap();
    assert!(out.contains("\x1b[24;1H")); // rows=24 -> bottom row
    assert!(out.contains("example.com"));
}

#[test]
fn status_bar_truncates_long_url() {
    let long = "https://example.com/".to_string() + &"a".repeat(200);
    let out = String::from_utf8(ui().status_bar(&long, false)).unwrap();
    // The visible payload must not exceed the 80-col width (plus escapes).
    let visible: String = out.chars().filter(|c| !c.is_control() && *c != '[').collect();
    assert!(visible.len() <= 80 + 11);
}

#[test]
fn url_prompt_shows_buffer() {
    let out = String::from_utf8(ui().url_prompt("git")).unwrap();
    assert!(out.contains(": git"));
}

#[test]
fn loading_status_bar_paints_gradient_background() {
    let out = String::from_utf8(ui().status_bar_frame("https://example.com", true, 3)).unwrap();
    assert!(out.contains("\x1b[24;1H"));
    assert!(out.contains("\x1b[48;2;"));
    for ch in "example.com".chars() {
        assert!(out.contains(ch));
    }
}

#[test]
fn hint_overlay_places_labels() {
    let out = String::from_utf8(ui().hint_overlay(&[("a".into(), 5, 9)])).unwrap();
    assert!(out.contains("\x1b[10;6H")); // row+1, col+1
    assert!(out.contains('a'));
}

#[test]
fn lines_are_exact() {
    let mut u = Ui::new(GridSize { cols: 5, rows: 3 });
    assert_eq!(u.bottom_row(), 3);
    assert_eq!(u.status_bar("abcdef", false), b"\x1b[3;1H\x1b[2K\x1b[7m  abc\x1b[0m");
    assert_eq!(u.url_prompt("abcdef"), b"\x1b[3;1H\x1b[2K: abc");
    assert_eq!(u.hint_overlay(&[("as".into(), 65535, 0)]), b"\x1b[1;65536H\x1b[1;30mas\x1b[0m");
    assert_eq!(u.clear_hints(&[("as".into(), 1, 0), ("d".into(), 0, 7)]), b"\x1b[1;2H  \x1b[8;1H ");
    u.resize(GridSize { cols: 2, rows: 9 });
    assert_eq!(
        String::from_utf8(u.status_bar_frame("x", true, 0)).unwrap(),
        "\x1b[9;1H\x1b[2K\x1b[38;2;255;255;255m\x1b[48;2;72;200;227m⟳\x1b[38;2;255;255;255m\x1b[48;2;61;175;205m \x1b[0m"
    );
    assert_eq!(u.animated_status_bar("", 0), u.animated_status_bar("  ", 0));
}

#[test]
fn wave_is_that_of_single_precision() {
    let reference = |col: u16, width: u16, phase: u16| -> [u8; 3] {
        let width = width.max(1);
        let pos = ((col as u32 + width as u32 - (phase % width) as u32) % width as u32) as u16;
        let band = width.max(12) / 3;
        let dist = pos.min(width - pos) as f32;
        let t = (1.0 - (dist / band as f32)).clamp(0.0, 1.0);
        [(28.0 + 44.0 * t) as u8, (102.0 + 98.0 * t) as u8, (142.0 + 85.0 * t) as u8]
    };
    for width in 0..700u16 {
        for col in 0..width.max(1) {
            assert_eq!(loading_bg(col, width, 0), reference(col, width, 0), "{col} {width}");
        }
    }
    for width in [1u16, 33, 80, 132, 1000, 20000, 32767, 65535] {
        for phase in [0u16, 1, 7, 12345, 65535] {
            for col in 0..width {
                assert_eq!(loading_bg(col, width, phase), reference(col, width, phase));
            }
        }
    }
}
