use webcat::cli::{AgentKind, Cli, InstallArgs, UninstallArgs};
use webcat::config::{Config, Defaults, FileConfig, FileMcpConfig};
use webcat::error::Error;
use webcat::mcp::install::{
    claude_add_args, install_plan, install_report, mcp_url, print_snippet, resolve_and_persist_port,
    status_report, uninstall_plan, uninstall_report, write_config_mcp, Agent,
};
use webcat::zoom::Zoom;

fn z(v: f64) -> Zoom {
    Zoom { bits: v.to_bits() }
}

fn agent() -> Agent {
    let name = format!("{:?}", AgentKind::Claude);
    Agent { command: name.to_lowercase(), name: format!("{name} Code") }
}

fn base_cli() -> Cli<String> {
    Cli {
        command: None,
        url: None,
        profile_dir: None,
        chrome: None,
        quality: Some(70),
        zoom: Some(z(1.0)),
        mcp_on: false,
        mcp_off: false,
        mcp_port: None,
        mcp_allow_control_on: false,
        mcp_allow_control_off: false,
    }
}

fn scaled_defaults(scale: f64) -> Defaults<String> {
    Defaults { profile_dir: "profile".into(), log_path: "log".into(), display_scale: z(scale) }
}

fn resolve(cli: Cli<String>, file: Option<FileConfig>) -> Result<Config<String>, Error> {
    Config::resolve(cli, file, scaled_defaults(1.0))
}

fn file_with_mcp() -> FileConfig {
    FileConfig {
        quality: None,
        zoom: None,
        mcp: Some(FileMcpConfig {
            enabled: Some(true),
            port: Some(4470),
            allow_control: Some(true),
        }),
    }
}

#[test]
fn defaults_url_to_about_blank() {
    let cfg = resolve(base_cli(), None).unwrap();
    assert_eq!(cfg.start_url, "about:blank");
    assert_eq!(cfg.profile_dir, "profile");
    assert_eq!(cfg.log_path, "log");
}

#[test]
fn explicit_paths_win() {
    let mut cli = base_cli();
    cli.url = Some("https://example.com".into());
    cli.profile_dir = Some("/tmp/p".into());
    let cfg = resolve(cli, None).unwrap();
    assert_eq!(cfg.start_url, "https://example.com");
    assert_eq!(cfg.profile_dir, "/tmp/p");
}

#[test]
fn clamps_quality() {
    let mut cli = base_cli();
    cli.quality = Some(200);
    let cfg = resolve(cli, None).unwrap();
    assert_eq!(cfg.quality, 100);
}

#[test]
fn quality_is_at_least_one() {
    let mut cli = base_cli();
    cli.quality = Some(0);
    assert_eq!(resolve(cli.clone(), None).unwrap().quality, 1);
    cli.quality = None;
    assert_eq!(resolve(cli, None).unwrap().quality, 92);
}

#[test]
fn zoom_defaults_and_clamps() {
    let mut cli = base_cli();
    // Unset → the auto-detected display scale, clamped to a sane range.
    cli.zoom = None;
    for scale in [0.25, 1.0, 2.0, 9.0] {
        let auto = Config::resolve(cli.clone(), None, scaled_defaults(scale)).unwrap().zoom;
        let auto = f64::from_bits(auto.bits);
        assert!((1.0..=3.0).contains(&auto), "auto zoom {auto} out of range");
    }
    // Explicit values win and are clamped to 0.5–4.0.
    cli.zoom = Some(z(10.0));
    assert_eq!(resolve(cli.clone(), None).unwrap().zoom, z(4.0));
    cli.zoom = Some(z(0.1));
    assert_eq!(resolve(cli, None).unwrap().zoom, z(0.5));
}

#[test]
fn zoom_that_is_none_is_passed_over() {
    let mut cli = base_cli();
    let mut file = FileConfig::default();
    for bad in [0.0, -2.0, f64::NAN] {
        cli.zoom = Some(z(bad));
        file.zoom = Some(z(1.5));
        assert_eq!(resolve(cli.clone(), Some(file)).unwrap().zoom, z(1.5));
        file.zoom = Some(z(bad));
        let cfg = Config::resolve(cli.clone(), Some(file), scaled_defaults(2.0)).unwrap();
        assert_eq!(cfg.zoom, z(2.0));
    }
}

#[test]
fn file_enables_mcp_when_cli_silent() {
    let mut cli = base_cli();
    cli.quality = None;
    let cfg = resolve(cli, Some(file_with_mcp())).unwrap();
    assert!(cfg.mcp.enabled);
    assert_eq!(cfg.mcp.port, Some(4470));
    assert!(cfg.mcp.allow_control);
}

#[test]
fn cli_flag_overrides_file_for_mcp_enabled() {
    let mut cli = base_cli();
    cli.mcp_on = true;
    let mut file = file_with_mcp();
    file.mcp.as_mut().unwrap().enabled = Some(false);
    let cfg = resolve(cli, Some(file)).unwrap();
    assert!(cfg.mcp.enabled);
}

#[test]
fn cli_no_mcp_overrides_file_enabled_true() {
    let mut cli = base_cli();
    cli.mcp_off = true;
    let cfg = resolve(cli, Some(file_with_mcp())).unwrap();
    assert!(!cfg.mcp.enabled);
}

#[test]
fn defaults_mcp_off_when_no_file() {
    let mut cli = base_cli();
    cli.quality = None;
    let cfg = resolve(cli, None).unwrap();
    assert!(!cfg.mcp.enabled);
    assert!(!cfg.mcp.allow_control);
    assert_eq!(cfg.mcp.port, None);
}

#[test]
fn file_quality_used_when_cli_default() {
    let mut cli = base_cli();
    cli.quality = None;
    let mut file = file_with_mcp();
    file.quality = Some(50);
    let cfg = resolve(cli, Some(file)).unwrap();
    assert_eq!(cfg.quality, 50);
}

#[test]
fn explicit_cli_default_quality_still_overrides_file() {
    let mut cli = base_cli();
    cli.quality = Some(92);
    let mut file = file_with_mcp();
    file.quality = Some(50);
    let cfg = resolve(cli, Some(file)).unwrap();
    assert_eq!(cfg.quality, 92);
}

#[test]
fn opposite_flags_cancel_out() {
    let mut cli = base_cli();
    assert_eq!((cli.mcp(), cli.mcp_allow_control()), (None, None));
    cli.mcp_on = true;
    cli.mcp_allow_control_off = true;
    assert_eq!((cli.mcp(), cli.mcp_allow_control()), (Some(true), Some(false)));
    cli.mcp_off = true;
    assert_eq!(cli.mcp(), None);
}

#[test]
fn url_format() {
    assert_eq!(mcp_url(4470), "http://127.0.0.1:4470/mcp");
}

#[test]
fn claude_args_shape() {
    let a = claude_add_args(4470);
    assert_eq!(
        a,
        vec![
            "mcp",
            "add",
            "--transport",
            "http",
            "webcat",
            "http://127.0.0.1:4470/mcp",
        ]
    );
}

#[test]
fn snippet_mentions_url_and_claude() {
    let agent = agent();
    let s = print_snippet(5000, &agent);
    assert!(s.contains("http://127.0.0.1:5000/mcp"));
    assert!(s.contains(&format!("{} mcp add", agent.command)));
    assert!(s.contains(&format!("\n\n{}:\n", agent.name)));
}

#[test]
fn port_is_given_then_configured_then_default() {
    let file = Some(file_with_mcp());
    assert_eq!(resolve_and_persist_port(Some(1), false, file).0, 1);
    let mut other = file_with_mcp();
    other.mcp.as_mut().unwrap().port = Some(9);
    assert_eq!(resolve_and_persist_port(None, false, Some(other)).0, 9);
    assert_eq!(resolve_and_persist_port(None, false, None).0, 4470);
    let mut keep = FileConfig { quality: Some(5), zoom: Some(z(2.0)), mcp: None };
    let written = write_config_mcp(Some(keep), 8, true);
    keep.mcp = Some(FileMcpConfig { enabled: Some(true), port: Some(8), allow_control: Some(true) });
    assert_eq!(written, keep);
}

#[test]
fn printing_changes_nothing() {
    let args = InstallArgs { agent: AgentKind::Print, port: Some(5000), allow_control: true };
    let plan = install_plan(args, Some(file_with_mcp()));
    assert_eq!(plan.port, 5000);
    assert!(plan.write.is_none() && plan.register.is_none());
    assert_eq!(
        install_report(args, 5000, false, &agent()),
        print_snippet(5000, &agent()) + "\nNote: webcat must be running (with mcp enabled) for the agent to connect.\n"
    );
}

#[test]
fn installing_registers_and_writes() {
    let args = InstallArgs { agent: AgentKind::Claude, port: None, allow_control: false };
    let plan = install_plan(args, None);
    assert_eq!(plan.register, Some(claude_add_args(4470)));
    let file = plan.write.unwrap();
    assert_eq!(file.mcp.unwrap().allow_control, Some(false));
    assert_eq!(install_plan(args, Some(file)).write, Some(file), "installing again changes nothing");
    let done = install_report(args, 4470, true, &agent());
    assert!(done.starts_with(&format!(
        "Registered webcat MCP server with {} at http://127.0.0.1:4470/mcp\n",
        agent().name
    )));
    assert!(done.ends_with("(mcp.enabled=true, port=4470, allow_control=false).\n"));
    assert!(install_report(args, 4470, false, &agent()).starts_with(&format!("Could not run `{} mcp add` automatically.", agent().command)));
}

#[test]
fn status_and_uninstall() {
    assert_eq!(status_report(None), "No MCP config found in ~/.webcat/config.yaml.\n");
    assert_eq!(
        status_report(Some(file_with_mcp())),
        "MCP config (~/.webcat/config.yaml):\n  enabled: true\n  allow_control: true\n  url: http://127.0.0.1:4470/mcp\n"
    );
    let claude = UninstallArgs { agent: AgentKind::Claude };
    let print = UninstallArgs { agent: AgentKind::Print };
    assert_eq!(uninstall_plan(claude).unwrap(), vec!["mcp", "remove", "webcat"]);
    assert!(uninstall_plan(print).is_none());
    assert_eq!(uninstall_report(claude, true, &agent()), format!("Removed webcat MCP server from {}.\n", agent().name));
    assert!(uninstall_report(claude, false, &agent()).starts_with("Could not run"));
    assert_eq!(uninstall_report(print, true, &agent()), "Nothing to remove for --agent print.\n");
}

#[test]
fn error_messages() {
    let m = |e: Error| e.message();
    assert_eq!(m(Error::UnsupportedTerminal("x".into())), "terminal is not Kitty-graphics capable: x");
    assert_eq!(m(Error::ChromeNotFound), "chrome binary not found; set $WEBCAT_CHROME or install Google Chrome");
    assert_eq!(m(Error::ProfileLocked("/p".into())), "profile is locked by another webcat/chrome instance: /p");
    assert_eq!(m(Error::BrowserDisconnected), "browser disconnected");
    assert_eq!(m(Error::Io("gone".into())), "io error: gone");
    assert_eq!(m(Error::Other("why".into())), "why");
}
