use webcat::mcp::server::{
    control_guard, parse_key, parse_mods, screenshot_content, to_err, ClickParam, ConsoleQuery,
    EvalParam, KeyParam, McpError, NavigateParam, NetworkQuery, ScrollParam, ShotParam, ToolCall,
    ToolPlan, TypeParam, WebcatMcp,
};
use webcat::observability::ObservabilityStore;
use webcat::terminal::keyboard::{Key, Mods};

fn refused(e: McpError) -> String {
    match e {
        McpError::InvalidRequest(s) => s,
        McpError::Internal(s) => panic!("internal: {s}"),
    }
}

#[test]
fn control_disabled_rejects_navigate() {
    assert!(control_guard(false).is_err());
    assert!(control_guard(true).is_ok());
}

fn control_calls() -> Vec<ToolCall<f64>> {
    vec![
        ToolCall::Navigate(NavigateParam { url: "u".into() }),
        ToolCall::Click(ClickParam { x: None, y: None, selector: None }),
        ToolCall::TypeText(TypeParam { text: "t".into() }),
        ToolCall::PressKey(KeyParam { key: "nonsense".into(), mods: None }),
        ToolCall::Scroll(ScrollParam { dy: 1.5, x: None, y: None }),
        ToolCall::EvalJs(EvalParam { script: "1".into() }),
    ]
}

#[test]
fn control_needs_permission() {
    let mcp = WebcatMcp::new(false);
    for call in control_calls() {
        assert_eq!(
            refused(mcp.plan(call, 10.0).unwrap_err()),
            "control tools are disabled; start webcat with --mcp-allow-control"
        );
    }
    assert!(matches!(mcp.plan(ToolCall::<f64>::GetPageInfo, 10.0), Ok(ToolPlan::Info)));
    let q = ConsoleQuery { since_seq: None, level: None, limit: None };
    assert!(matches!(
        mcp.plan(ToolCall::<f64>::GetConsoleLogs(q), 10.0),
        Ok(ToolPlan::Console { since_seq: 0, level: None, limit: 200 })
    ));
}

#[test]
fn allowed_calls_are_carried_out() {
    let mcp = WebcatMcp::new(true);
    let mut plans = control_calls().into_iter().map(|c| mcp.plan(c, 10.0));
    assert!(matches!(plans.next(), Some(Ok(ToolPlan::Navigate(u))) if u == "u"));
    assert_eq!(refused(plans.next().unwrap().unwrap_err()), "provide selector or x,y");
    assert!(matches!(plans.next(), Some(Ok(ToolPlan::Insert(t))) if t == "t"));
    assert_eq!(refused(plans.next().unwrap().unwrap_err()), "unsupported key: nonsense");
    assert!(matches!(
        plans.next(),
        Some(Ok(ToolPlan::Scroll { x, y, dy })) if (x, y, dy) == (10.0, 10.0, 1.5)
    ));
    assert!(matches!(plans.next(), Some(Ok(ToolPlan::Eval(s))) if s == "1"));
    let click = |x, y, selector: Option<&str>| {
        mcp.plan(ToolCall::Click(ClickParam { x, y, selector: selector.map(String::from) }), 10.0)
    };
    assert!(matches!(click(Some(1.0), Some(2.0), None), Ok(ToolPlan::ClickAt { x, y }) if (x, y) == (1.0, 2.0)));
    assert!(matches!(click(Some(1.0), Some(2.0), Some("#a")), Ok(ToolPlan::ClickSelector(s)) if s == "#a"));
    assert!(click(Some(1.0), None, None).is_err());
    let press = |key: &str, mods: Option<Vec<String>>| {
        mcp.plan(ToolCall::<f64>::PressKey(KeyParam { key: key.into(), mods }), 10.0)
    };
    assert!(matches!(
        press("Tab", Some(vec!["Shift".into(), "ctrl".into()])),
        Ok(ToolPlan::Press { key: Key::Tab, mods: Mods { shift: true, ctrl: true, alt: false, meta: false } })
    ));
    assert_eq!(refused(press("Tab", Some(vec!["Hyper".into()])).unwrap_err()), "unsupported modifier: Hyper");
    assert_eq!(refused(press("x y", Some(vec!["Hyper".into()])).unwrap_err()), "unsupported key: x y");
}

#[test]
fn screenshots_have_a_kind() {
    let mcp = WebcatMcp::new(false);
    let shot = |format: Option<&str>, quality| {
        mcp.plan(ToolCall::<f64>::CaptureScreenshot(ShotParam { format: format.map(String::from), quality }), 10.0)
    };
    assert!(matches!(shot(None, None), Ok(ToolPlan::Screenshot { jpeg: false, quality: 80 })));
    assert!(matches!(shot(Some("jpeg"), Some(3)), Ok(ToolPlan::Screenshot { jpeg: true, quality: 3 })));
    assert!(matches!(shot(Some("JPEG"), None), Ok(ToolPlan::Screenshot { jpeg: false, .. })));
    assert_eq!(screenshot_content(&[1, 2, 3, 255], true), ("AQID/w==".to_string(), "image/jpeg".to_string()));
    assert_eq!(screenshot_content(&[], false), (String::new(), "image/png".to_string()));
}

#[test]
fn keys_by_name() {
    for (name, key) in [
        ("Enter", Key::Enter), ("Backspace", Key::Backspace), ("Tab", Key::Tab), ("Escape", Key::Esc),
        ("Esc", Key::Esc), ("ArrowUp", Key::Up), ("Up", Key::Up), ("ArrowDown", Key::Down), ("Down", Key::Down),
        ("ArrowLeft", Key::Left), ("Left", Key::Left), ("ArrowRight", Key::Right), ("Right", Key::Right),
        ("Home", Key::Home), ("End", Key::End), ("PageUp", Key::PageUp), ("PageDown", Key::PageDown),
        ("Delete", Key::Delete), ("x", Key::Char('x')), ("가", Key::Char('가')),
    ] {
        assert_eq!(parse_key(name), Ok(key));
    }
    assert_eq!(parse_key(""), Err("unsupported key: ".to_string()));
    assert_eq!(parse_key("enter"), Err("unsupported key: enter".to_string()));
}

#[test]
fn modifiers_by_name() {
    assert_eq!(parse_mods(None), Ok(Mods::none()));
    assert_eq!(parse_mods(Some(&[])), Ok(Mods::none()));
    let v: Vec<String> = ["Cmd", "Alt", "Alt"].iter().map(|s| s.to_string()).collect();
    assert_eq!(parse_mods(Some(&v)), Ok(Mods { meta: true, alt: true, ..Mods::none() }));
    let v: Vec<String> = ["control", "SHIFT", "x"].iter().map(|s| s.to_string()).collect();
    assert_eq!(parse_mods(Some(&v)), Err("unsupported modifier: SHIFT".to_string()));
}

#[test]
fn logs_are_answered_from_the_store() {
    let mcp = WebcatMcp::new(false);
    let mut store = ObservabilityStore::new(500);
    for i in 0..300 {
        store.push_console("log".into(), format!("{i}"), None, None, 0);
    }
    let q = |since_seq, limit| ConsoleQuery { since_seq, level: Some("log".into()), limit };
    assert_eq!(mcp.get_console_logs(&store, q(None, None)).entries.len(), 200);
    let page = mcp.get_console_logs(&store, q(Some(298), Some(1)));
    assert_eq!(page.entries[0].text, "298");
    assert_eq!((page.entries.len(), page.latest_seq), (1, 300));
    let n = mcp.get_network_logs(&store, NetworkQuery { since_seq: None, status: None, limit: None });
    assert!(n.entries.is_empty());
    assert!(matches!(to_err("x".into()), McpError::Internal(s) if s == "x"));
}
