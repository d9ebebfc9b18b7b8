//! Registering the server with an agent.

use crate::cli::{AgentKind, InstallArgs, UninstallArgs};
use crate::config;
use crate::config::{FileConfig, FileMcpConfig};
use crate::text;
use vstd::prelude::*;

verus! {

/// The port where none is given or configured.
pub const DEFAULT_PORT: u16 = 4470;

/// An agent that keeps a list of servers, by the command that edits the list and
/// by the name that people know it by.
#[derive(Debug, Clone)]
pub struct Agent {
    pub command: String,
    pub name: String,
}

/// The server's address.
pub open spec fn url_text(port: u16) -> Seq<char> {
    "http://127.0.0.1:"@ + text::dec(port as nat) + "/mcp"@
}

/// The server's address.
pub fn mcp_url(port: u16) -> (r: String)
    ensures
        r@ == url_text(port),
{
    let mut out: String = "http://127.0.0.1:".to_string();
    text::push_dec(&mut out, port as u64);
    out.push_str("/mcp");
    out
}

/// Servers on different ports have different addresses.
pub proof fn law_urls_distinct(a: u16, b: u16)
    requires
        url_text(a) == url_text(b),
    ensures
        a == b,
{
    let p = "http://127.0.0.1:"@;
    let e = "/mcp"@;
    let x = url_text(a);
    assert(x.subrange(p.len() as int, x.len() - e.len()) =~= text::dec(a as nat));
    assert(url_text(b).subrange(p.len() as int, x.len() - e.len()) =~= text::dec(b as nat));
    text::law_dec_injective(a as nat, b as nat);
}

/// The arguments with which the agent's command registers the server.
pub open spec fn add_arguments(port: u16) -> Seq<Seq<char>> {
    seq!["mcp"@, "add"@, "--transport"@, "http"@, "webcat"@, url_text(port)]
}

/// The arguments with which the agent's command registers the server.
pub fn claude_add_args(port: u16) -> (r: Vec<String>)
    ensures
        text::views(r@) == add_arguments(port),
{
    let mut out: Vec<String> = Vec::new();
    out.push("mcp".to_string());
    out.push("add".to_string());
    out.push("--transport".to_string());
    out.push("http".to_string());
    out.push("webcat".to_string());
    out.push(mcp_url(port));
    assert(text::views(out@) =~= add_arguments(port));
    out
}

/// The arguments with which the agent's command takes the server out again.
pub fn claude_remove_args() -> (r: Vec<String>)
    ensures
        text::views(r@) == seq!["mcp"@, "remove"@, "webcat"@],
{
    let mut out: Vec<String> = Vec::new();
    out.push("mcp".to_string());
    out.push("remove".to_string());
    out.push("webcat".to_string());
    assert(text::views(out@) =~= seq!["mcp"@, "remove"@, "webcat"@]);
    out
}

/// How to register the server by hand.
pub open spec fn snippet_text(port: u16, agent: Agent) -> Seq<char> {
    "webcat MCP server\n  URL: "@ + url_text(port)
        + "\n  transport: streamable-http\n\n"@ + agent.name@ + ":\n  "@ + agent.command@
        + " mcp add --transport http webcat "@ + url_text(port) + "\n"@
}

/// How to register the server by hand.
pub fn print_snippet(port: u16, agent: &Agent) -> (r: String)
    ensures
        r@ == snippet_text(port, *agent),
{
    let url: String = mcp_url(port);
    let mut out: String = "webcat MCP server\n  URL: ".to_string();
    out.push_str(url.as_str());
    out.push_str("\n  transport: streamable-http\n\n");
    out.push_str(agent.name.as_str());
    out.push_str(":\n  ");
    out.push_str(agent.command.as_str());
    out.push_str(" mcp add --transport http webcat ");
    out.push_str(url.as_str());
    out.push_str("\n");
    assert(out@ =~= snippet_text(port, *agent));
    out
}

/// The port that a file configures.
pub open spec fn file_port(file: Option<FileConfig>) -> Option<u16> {
    match file {
        Some(f) => match f.mcp {
            Some(m) => m.port,
            None => None,
        },
        None => None,
    }
}

/// The port: as given, else as configured, else the default one.
pub open spec fn port_of(given: Option<u16>, file: Option<FileConfig>) -> u16 {
    config::or_default(config::either(given, file_port(file)), DEFAULT_PORT)
}

/// The file with the server enabled on a port; nothing else in it changes.
pub open spec fn enabled_file(file: Option<FileConfig>, port: u16, control: bool) -> FileConfig {
    FileConfig {
        mcp: Some(
            FileMcpConfig { enabled: Some(true), port: Some(port), allow_control: Some(control) },
        ),
        ..config::or_default(file, config::empty_file())
    }
}

/// The file with the server enabled on a port.
pub fn write_config_mcp(file: Option<FileConfig>, port: u16, allow_control: bool) -> (r: FileConfig)
    ensures
        r == enabled_file(file, port, allow_control),
{
    let mut cfg: FileConfig = match file {
        Some(f) => f,
        None => FileConfig::default(),
    };
    cfg.mcp = Some(
        FileMcpConfig { enabled: Some(true), port: Some(port), allow_control: Some(allow_control) },
    );
    cfg
}

/// The port to register, and the file that then keeps it.
pub fn resolve_and_persist_port(
    cli_port: Option<u16>,
    allow_control: bool,
    file: Option<FileConfig>,
) -> (r: (u16, FileConfig))
    ensures
        r.0 == port_of(cli_port, file),
        r.1 == enabled_file(file, r.0, allow_control),
{
    let existing: Option<u16> = match file {
        Some(f) => match f.mcp {
            Some(m) => m.port,
            None => None,
        },
        None => None,
    };
    let port: u16 = match (cli_port, existing) {
        (Some(p), _) => p,
        (None, Some(p)) => p,
        (None, None) => DEFAULT_PORT,
    };
    (port, write_config_mcp(file, port, allow_control))
}

/// What installing is to do: the port, the file to write, if any, and the
/// arguments for the agent's command, if it is to be run.
#[derive(Debug)]
pub struct InstallPlan {
    pub port: u16,
    pub write: Option<FileConfig>,
    pub register: Option<Vec<String>>,
}

/// What installing is to do. For an agent that only wants to be shown how to
/// register, nothing is written and nothing is run.
pub fn install_plan(args: InstallArgs, file: Option<FileConfig>) -> (r: InstallPlan)
    ensures
        r.port == port_of(args.port, file),
        args.agent == AgentKind::Print ==> r.write is None && r.register is None,
        args.agent == AgentKind::Claude ==> {
            &&& r.write == Some(enabled_file(file, r.port, args.allow_control))
            &&& r.register is Some
            &&& text::views(r.register->0@) == add_arguments(r.port)
        },
{
    let (port, cfg) = resolve_and_persist_port(args.port, args.allow_control, file);
    match args.agent {
        AgentKind::Print => InstallPlan { port, write: None, register: None },
        AgentKind::Claude => InstallPlan {
            port,
            write: Some(cfg),
            register: Some(claude_add_args(port)),
        },
    }
}

/// Installing twice is installing once: the port and the file stay.
pub proof fn law_install_is_stable(given: Option<u16>, control: bool, file: Option<FileConfig>)
    ensures
        ({
            let port = port_of(given, file);
            let once = enabled_file(file, port, control);
            &&& port_of(None, Some(once)) == port
            &&& port_of(given, Some(once)) == port
            &&& enabled_file(Some(once), port, control) == once
        }),
{
}

/// `b` as a word.
pub open spec fn bool_text(b: bool) -> Seq<char> {
    if b {
        "true"@
    } else {
        "false"@
    }
}

/// `b` as a word.
fn bool_word(b: bool) -> (r: &'static str)
    ensures
        r@ == bool_text(b),
{
    if b {
        "true"
    } else {
        "false"
    }
}

/// What is said in the end: the server must run, and what was written.
pub open spec fn closing_text(args: InstallArgs, port: u16) -> Seq<char> {
    "\nNote: webcat must be running (with mcp enabled) for the agent to connect.\n"@ + (
    match args.agent {
        AgentKind::Print => Seq::empty(),
        AgentKind::Claude => "Config written to ~/.webcat/config.yaml (mcp.enabled=true, port="@
            + text::dec(port as nat) + ", allow_control="@ + bool_text(args.allow_control) + ").\n"@,
    })
}

/// What is said after installing, given whether the agent's command succeeded.
pub open spec fn install_text(
    args: InstallArgs,
    port: u16,
    registered: bool,
    agent: Agent,
) -> Seq<char> {
    (match args.agent {
        AgentKind::Print => snippet_text(port, agent),
        AgentKind::Claude => if registered {
            "Registered webcat MCP server with "@ + agent.name@ + " at "@ + url_text(port) + "\n"@
        } else {
            "Could not run `"@ + agent.command@
                + " mcp add` automatically. Add it manually:\n\n"@ + snippet_text(port, agent)
                + "\n"@
        },
    }) + closing_text(args, port)
}

/// What is said after installing, given whether the agent's command succeeded.
pub fn install_report(args: InstallArgs, port: u16, registered: bool, agent: &Agent) -> (r: String)
    ensures
        r@ == install_text(args, port, registered, *agent),
{
    let mut out: String = match args.agent {
        AgentKind::Print => print_snippet(port, agent),
        AgentKind::Claude => {
            if registered {
                let mut s: String = "Registered webcat MCP server with ".to_string();
                s.push_str(agent.name.as_str());
                s.push_str(" at ");
                s.push_str(mcp_url(port).as_str());
                s.push_str("\n");
                s
            } else {
                let mut s: String = "Could not run `".to_string();
                s.push_str(agent.command.as_str());
                s.push_str(" mcp add` automatically. Add it manually:\n\n");
                s.push_str(print_snippet(port, agent).as_str());
                s.push_str("\n");
                s
            }
        },
    };
    let ghost first = out@;
    out.push_str("\nNote: webcat must be running (with mcp enabled) for the agent to connect.\n");
    match args.agent {
        AgentKind::Print => {},
        AgentKind::Claude => {
            out.push_str("Config written to ~/.webcat/config.yaml (mcp.enabled=true, port=");
            text::push_dec(&mut out, port as u64);
            out.push_str(", allow_control=");
            out.push_str(bool_word(args.allow_control));
            out.push_str(").\n");
        },
    }
    assert(out@ =~= first + closing_text(args, port));
    out
}

/// What is said of the configuration.
pub open spec fn status_text(file: Option<FileConfig>) -> Seq<char> {
    match config::or_default(file, config::empty_file()).mcp {
        Some(m) => "MCP config (~/.webcat/config.yaml):\n  enabled: "@ + bool_text(
            config::or_default(m.enabled, false),
        ) + "\n  allow_control: "@ + bool_text(config::or_default(m.allow_control, false))
            + "\n  url: "@ + url_text(config::or_default(m.port, DEFAULT_PORT)) + "\n"@,
        None => "No MCP config found in ~/.webcat/config.yaml.\n"@,
    }
}

/// What is said of the configuration.
pub fn status_report(file: Option<FileConfig>) -> (r: String)
    ensures
        r@ == status_text(file),
{
    let mcp: Option<FileMcpConfig> = match file {
        Some(f) => f.mcp,
        None => None,
    };
    match mcp {
        Some(m) => {
            let enabled: bool = match m.enabled {
                Some(b) => b,
                None => false,
            };
            let control: bool = match m.allow_control {
                Some(b) => b,
                None => false,
            };
            let port: u16 = match m.port {
                Some(p) => p,
                None => DEFAULT_PORT,
            };
            let mut out: String = "MCP config (~/.webcat/config.yaml):\n  enabled: ".to_string();
            out.push_str(bool_word(enabled));
            out.push_str("\n  allow_control: ");
            out.push_str(bool_word(control));
            out.push_str("\n  url: ");
            out.push_str(mcp_url(port).as_str());
            out.push_str("\n");
            assert(out@ =~= status_text(file));
            out
        },
        None => "No MCP config found in ~/.webcat/config.yaml.\n".to_string(),
    }
}

/// The arguments for the agent's command to uninstall, if it is to be run.
pub fn uninstall_plan(args: UninstallArgs) -> (r: Option<Vec<String>>)
    ensures
        match args.agent {
            AgentKind::Claude => r is Some && text::views(r->0@) == seq![
                "mcp"@,
                "remove"@,
                "webcat"@,
            ],
            AgentKind::Print => r is None,
        },
{
    match args.agent {
        AgentKind::Claude => Some(claude_remove_args()),
        AgentKind::Print => None,
    }
}

/// What is said after uninstalling, given whether the agent's command succeeded.
pub fn uninstall_report(args: UninstallArgs, removed: bool, agent: &Agent) -> (r: String)
    ensures
        r@ == (match args.agent {
            AgentKind::Claude => if removed {
                "Removed webcat MCP server from "@ + agent.name@ + ".\n"@
            } else {
                "Could not run `"@ + agent.command@ + " mcp remove webcat`. Remove it manually.\n"@
            },
            AgentKind::Print => "Nothing to remove for --agent print.\n"@,
        }),
{
    match args.agent {
        AgentKind::Claude => {
            if removed {
                let mut s: String = "Removed webcat MCP server from ".to_string();
                s.push_str(agent.name.as_str());
                s.push_str(".\n");
                s
            } else {
                let mut s: String = "Could not run `".to_string();
                s.push_str(agent.command.as_str());
                s.push_str(" mcp remove webcat`. Remove it manually.\n");
                s
            }
        },
        AgentKind::Print => "Nothing to remove for --agent print.\n".to_string(),
    }
}

} // verus!
