use base64::Engine;
use webcat::browser::profile::{
    chrome_candidates, detect_conflict, discover_chrome, pid_alive, resolve_profile,
    singleton_files, singleton_lock_pid, Candidate, KillStep, ProfileChoice, ProfileKiller,
};
use webcat::browser::{
    click_events, click_selector_js, console_args_to_text, console_json_to_text, decode_frame,
    decode_post_data_entry, decode_screenshot, device_scale, encode_mods, exception_text,
    failed_entry, force_device_scale_arg, is_request_timeout, key_def, key_dispatch, key_to_cdp,
    launch_args, line_number, load_signal, navigation_after, page_info, page_info_from,
    post_data_text, real_user_agent, request_body, request_entry, response_entry,
    selector_not_found, ClickEvent, ConsoleArg, KeyEventKind, LoadEvent, LoadingWatchdog,
    Navigation, COLLECT_CLICKABLES_JS, PAGE_SHIM_JS,
};
use webcat::error::Error;
use webcat::geometry::Viewport;
use webcat::terminal::keyboard::{Key, Mods};
use webcat::terminal::mouse::MouseButton;
use webcat::zoom::Zoom;

fn scale_arg(scale: f64) -> String {
    let z = device_scale(Zoom { bits: scale.to_bits() });
    force_device_scale_arg(&f64::from_bits(z.bits).to_string())
}

#[test]
fn force_device_scale_arg_clamps_to_supported_range() {
    assert_eq!(scale_arg(2.0), "--force-device-scale-factor=2");
    assert_eq!(scale_arg(0.1), "--force-device-scale-factor=0.5");
    assert_eq!(scale_arg(10.0), "--force-device-scale-factor=4");
}

#[test]
fn zoom_clamps_as_doubles_do() {
    for v in [
        0.0, -0.0, 0.5, 0.49999999999999994, 4.0, 4.000000000000001, -1.0, 1e-310, -1e-310,
        f64::INFINITY, f64::NEG_INFINITY, f64::MAX, f64::MIN_POSITIVE, 1.25,
    ] {
        let z = Zoom { bits: v.to_bits() };
        assert_eq!(device_scale(z).bits, v.clamp(0.5, 4.0).to_bits(), "{v}");
        assert_eq!(z.positive(), v > 0.0, "{v}");
    }
    let nan = Zoom { bits: f64::NAN.to_bits() };
    assert!(!nan.positive());
    assert_eq!(device_scale(nan), nan);
}

#[test]
fn tab_key_does_not_emit_text_character() {
    assert_eq!(key_to_cdp(Key::Tab), key_def("Tab", 9, "Tab", None));
}

#[test]
fn keys_as_the_browser_knows_them() {
    assert_eq!(key_to_cdp(Key::Enter), key_def("Enter", 13, "Enter", Some("\r")));
    assert_eq!(key_to_cdp(Key::Esc), key_def("Escape", 27, "Escape", None));
    assert_eq!(key_to_cdp(Key::Left), key_def("ArrowLeft", 37, "ArrowLeft", None));
    assert_eq!(key_to_cdp(Key::F(12)), key_def("F12", 123, "F12", None));
    assert_eq!(key_to_cdp(Key::Char('a')), key_def("a", 65, "KeyA", Some("a")));
    assert_eq!(key_to_cdp(Key::Char('7')), key_def("7", 55, "Digit7", Some("7")));
    assert_eq!(key_to_cdp(Key::Char('가')), key_def("가", 0xac00, "", Some("가")));
    let d = key_dispatch(Key::Tab, Mods { shift: true, ..Mods::none() }, true);
    assert_eq!((d.kind, d.modifiers), (KeyEventKind::RawKeyDown, 8));
    assert_eq!(key_dispatch(Key::Tab, Mods::none(), false).kind, KeyEventKind::KeyUp);
    assert_eq!(key_dispatch(Key::Enter, Mods::none(), true).kind, KeyEventKind::KeyDown);
    assert_eq!(key_dispatch(Key::Char('가'), Mods::none(), true).kind, KeyEventKind::KeyDown);
    assert_eq!(encode_mods(Mods { shift: true, ctrl: true, alt: true, meta: true }), 15);
    assert_eq!(encode_mods(Mods { ctrl: true, ..Mods::none() }), 2);
    assert_eq!(encode_mods(Mods { alt: true, ..Mods::none() }), 1);
    assert_eq!(encode_mods(Mods { meta: true, ..Mods::none() }), 4);
}

#[test]
fn flattens_string_and_number_args() {
    let args = vec![r#"{"value": "hello"}"#.to_string(), r#"{"value": 42}"#.to_string()];
    assert_eq!(console_json_to_text(&args), "hello 42");
}

#[test]
fn falls_back_to_description_when_no_value() {
    let args = vec![r#"{"description": "Object"}"#.to_string()];
    assert_eq!(console_json_to_text(&args), "Object");
}

#[test]
fn console_args_by_what_they_hold() {
    let arg = |value: Option<&str>, text: Option<&str>, description: Option<&str>, kind: Option<&str>| ConsoleArg {
        value: value.map(String::from),
        text: text.map(String::from),
        description: description.map(String::from),
        kind: kind.map(String::from),
    };
    let args = [
        arg(Some("\"s\""), Some("s"), Some("d"), Some("string")),
        arg(Some("null"), None, Some("d"), None),
        arg(None, None, Some("d"), Some("object")),
        arg(None, None, None, Some("undefined")),
        arg(None, None, None, None),
    ];
    assert_eq!(console_args_to_text(&args), "s null d undefined ?");
    assert_eq!(console_args_to_text(&[]), "");
    let json = [
        r#"{"type":"object","value":{"b":[1,true],"a":null}}"#.to_string(),
        r#"{"type":"undefined"}"#.to_string(),
        r#"{"description":7}"#.to_string(),
        "no json".to_string(),
    ];
    assert_eq!(console_json_to_text(&json), r#"{"a":null,"b":[1,true]} undefined ? ?"#);
}

#[test]
fn request_body_decodes_cdp_post_data_entries() {
    let encoded = base64::engine::general_purpose::STANDARD
        .encode(br#"{"operationName":"VerifyPermissions"}"#);
    let entries = Some(vec![Some(encoded)]);
    assert_eq!(
        request_body(&entries).as_deref(),
        Some(r#"{"operationName":"VerifyPermissions"}"#)
    );
}

#[test]
fn request_body_edge_cases() {
    assert_eq!(request_body(&None), None);
    assert_eq!(request_body(&Some(vec![])), None);
    assert_eq!(request_body(&Some(vec![None, Some(String::new())])), None);
    let parts = vec![Some("YQ==".to_string()), None, Some("not base64!".to_string()), Some("/w==".to_string())];
    assert_eq!(request_body(&Some(parts)).as_deref(), Some("anot base64!/w=="));
    assert_eq!(decode_post_data_entry("6rCA"), "가");
    assert_eq!(post_data_text("raw", None), "raw");
    assert_eq!(post_data_text("raw", Some(vec![0xff])), "raw");
    assert_eq!(post_data_text("raw", Some(b"ok".to_vec())), "ok");
}

#[test]
fn detects_chromiumoxide_request_timeout() {
    assert!(is_request_timeout("Request timed out."));
    assert!(!is_request_timeout("navigation failed"));
    assert_eq!(navigation_after(None), Navigation::Watch);
    assert_eq!(navigation_after(Some("Request timed out.")), Navigation::Watch);
    assert_eq!(navigation_after(Some("navigation failed")), Navigation::Failed);
}

#[test]
fn explicit_chrome_must_exist() {
    let p = Candidate { path: "/definitely/not/here/chrome", exists: false };
    assert!(discover_chrome(Some(p), vec![]).is_err());
}

#[test]
fn chrome_is_the_first_that_exists() {
    let c = |path: &'static str, exists: bool| Candidate { path, exists };
    assert_eq!(discover_chrome(None, vec![c("a", false), c("b", true), c("c", true)]).unwrap(), "b");
    assert!(matches!(discover_chrome(None, vec![c("a", false)]), Err(Error::ChromeNotFound)));
    assert_eq!(discover_chrome(Some(c("x", true)), vec![c("a", true)]).unwrap(), "x");
    assert_eq!(chrome_candidates(false)[0], "/usr/bin/google-chrome");
    assert_eq!(chrome_candidates(true).len(), 2);
}

#[test]
fn no_lock_is_not_a_conflict() {
    assert_eq!(detect_conflict(None, true), None);
    assert!(matches!(resolve_profile(None, true, 7), ProfileChoice::Usual));
}

#[test]
fn stale_lock_is_not_a_conflict() {
    assert_eq!(detect_conflict(Some("somehost-999999"), false), None);
    assert!(matches!(resolve_profile(Some("somehost-999999"), false, 7), ProfileChoice::UsualUnlocked));
}

#[test]
fn live_lock_is_a_conflict() {
    let me: i32 = 31415;
    assert_eq!(detect_conflict(Some(&format!("somehost-{me}")), true), Some(me));
    match resolve_profile(Some("my-host-12"), true, 7) {
        ProfileChoice::Private(name) => assert_eq!(name, "webcat-profile-7"),
        other => panic!("expected a private profile, got {other:?}"),
    }
}

#[test]
fn lock_targets() {
    assert_eq!(singleton_lock_pid(Some("my-host-12")), Some(12));
    assert_eq!(singleton_lock_pid(Some("12")), Some(12));
    assert_eq!(singleton_lock_pid(Some("host-")), None);
    assert_eq!(singleton_lock_pid(Some("host-x")), None);
    assert_eq!(singleton_lock_pid(Some("host-2147483647")), Some(i32::MAX));
    assert_eq!(singleton_lock_pid(Some("host-2147483648")), None);
    assert!(!pid_alive(0, true) && !pid_alive(-1, true) && !pid_alive(5, false) && pid_alive(5, true));
    assert_eq!(singleton_files(), vec!["SingletonLock", "SingletonCookie", "SingletonSocket"]);
}

#[test]
fn process_is_asked_then_forced() {
    let mut k = ProfileKiller::new();
    assert_eq!(k.next(true), KillStep::Ask { wait_ms: 100 });
    for _ in 0..19 {
        assert_eq!(k.next(true), KillStep::Wait { wait_ms: 100 });
    }
    assert_eq!(k.next(true), KillStep::Force { wait_ms: 200 });
    let mut gone = k;
    assert_eq!(gone.next(false), KillStep::Finished { gone: true });
    assert_eq!(k.next(true), KillStep::Finished { gone: false });
    assert_eq!(ProfileKiller::new().next(false), KillStep::Finished { gone: true });
}

#[test]
fn user_agent_is_not_headless() {
    assert_eq!(
        real_user_agent("Mozilla/5.0 HeadlessChrome/149.0 Safari HeadlessChrome"),
        "Mozilla/5.0 Chrome/149.0 Safari Chrome"
    );
    assert_eq!(real_user_agent("HeadlessHeadlessChrome"), "HeadlessChrome");
    assert_eq!(real_user_agent(""), "");
    assert_eq!(launch_args("x".into())[2], "x");
    assert_eq!(launch_args("x".into()).len(), 4);
}

#[test]
fn frames_and_screenshots_are_decoded() {
    assert_eq!(decode_frame("AQID"), vec![1, 2, 3]);
    assert!(decode_frame("*").is_empty());
    assert_eq!(decode_screenshot("AQID"), Some(vec![1, 2, 3]));
    assert_eq!(decode_screenshot("AQI"), None);
}

#[test]
fn entries_for_the_buffer() {
    let r = request_entry("GET".into(), "u".into(), "7".into(), Some("b".into()));
    assert_eq!((r.kind.as_str(), r.method.as_deref(), r.request_body.as_deref()), ("request", Some("GET"), Some("b")));
    let r = response_entry("u".into(), 404, "text/html".into(), "7".into());
    assert_eq!((r.kind.as_str(), r.status, r.mime.as_deref()), ("response", Some(404), Some("text/html")));
    let r = failed_entry("7".into());
    assert_eq!((r.kind.as_str(), r.url.as_str(), r.request_id.as_str()), ("failed", "", "7"));
    assert_eq!(exception_text(Some("d".into()), "s".into()), "d");
    assert_eq!(exception_text(None, "s".into()), "s");
    for n in [0i64, 7, -1, i64::MAX, i64::MIN, 1 << 32, -(1 << 32) - 5] {
        assert_eq!(line_number(Some(n)), Some(n as u32));
    }
    assert_eq!(line_number(None), None);
}

#[test]
fn page_info_is_read_from_the_answer() {
    let p = page_info(Some("u".into()), Some(r#"{"title":"T","loading":true}"#), Some(Viewport { width_px: 3, height_px: 4 }));
    assert_eq!((p.url.as_str(), p.title.as_str(), p.loading), ("u", "T", true));
    assert_eq!(p.viewport.unwrap().height_px, 4);
    let p = page_info(None, None, None);
    assert_eq!((p.url.as_str(), p.title.as_str(), p.loading), ("", "", false));
    assert!(p.viewport.is_none());
    assert!(!page_info(None, Some(r#"{"loading":"true"}"#), None).loading);
    assert_eq!(page_info_from(None, Some("t".into()), Some(false), None).title, "t");
}

#[test]
fn selectors_are_quoted() {
    let js = click_selector_js("a[title=\"x\\y\"]");
    assert!(js.contains(r#"document.querySelector("a[title=\"x\\y\"]");"#), "{js}");
    let js = click_selector_js("\u{8}\t\n\u{c}\r\u{0}\u{1f}\u{7f}/é가");
    assert!(js.contains("(\"\\b\\t\\n\\f\\r\\u0000\\u001f\u{7f}/é가\");"), "{js}");
    assert_eq!(selector_not_found("#a"), "selector not found: #a");
    assert!(PAGE_SHIM_JS.contains("window.open = function"));
    assert!(COLLECT_CLICKABLES_JS.contains("getBoundingClientRect"));
}

#[test]
fn watchdog_waits_for_another_page() {
    let mut w = LoadingWatchdog::new(Some("a".into()));
    assert!(!w.look(Some("complete"), Some("a")));
    assert!(!w.look(Some("loading"), Some("b")));
    assert!(!w.look(None, None));
    assert!(w.look(Some("complete"), Some("b")));
    let mut w = LoadingWatchdog::new(None);
    assert!(w.look(Some("complete"), Some("a")));
    let mut w = LoadingWatchdog::new(Some("a".into()));
    for _ in 0..10 {
        assert!(!w.look(Some("complete"), Some("a")));
    }
    assert!(w.look(Some("complete"), Some("a")));
    let mut w = LoadingWatchdog::new(Some("".into()));
    assert!(!w.look_at(Some(r#"{"readyState":"complete"}"#)));
    assert!(w.look_at(Some(r#"{"readyState":"complete","href":"b"}"#)));
    let mut w = LoadingWatchdog::new(None);
    for _ in 0..79 {
        assert!(!w.look_at(None));
    }
    assert!(w.look_at(None), "the last look ends it");
}

#[test]
fn loading_signals() {
    assert_eq!(load_signal(LoadEvent::Started, 4).navigation, None);
    assert!(load_signal(LoadEvent::Started, 4).loading);
    assert!(!load_signal(LoadEvent::Stopped, 4).loading);
    assert_eq!(load_signal(LoadEvent::Loaded, 4).navigation, Some(5));
    assert!(!load_signal(LoadEvent::Loaded, 4).loading);
}

#[test]
fn clicks_press_and_release() {
    for (b, bit) in [(MouseButton::Left, 1), (MouseButton::Right, 2), (MouseButton::Middle, 4)] {
        assert_eq!(
            click_events(b),
            vec![
                ClickEvent::Moved,
                ClickEvent::Pressed { button: b, held: bit },
                ClickEvent::Released { button: b, held: 0 },
            ]
        );
    }
}
