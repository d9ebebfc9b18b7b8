//! What an agent's calls come to, and how the server is registered.

use crate::browser;
use crate::cli::{AgentKind, InstallArgs, UninstallArgs};
use crate::config::{FileConfig, FileMcpConfig};
use crate::encoding;
use crate::mcp::install;
use crate::mcp::install::{Agent, InstallPlan};
use crate::mcp::server;
use crate::mcp::server::{
    ClickParam, ConsoleQuery, EvalParam, KeyParam, McpError, NavigateParam, NetworkQuery, Plan,
    Refusal, ScrollParam, ShotParam, ToolCall, TypeParam,
};
use crate::terminal::keyboard::{Key, Mods};
use crate::text;
use vstd::prelude::*;

verus! {

/// An allowed scroll is carried out at the very place that was given, by the
/// distance that was given; a coordinate is the default one only where none was
/// given.
pub proof fn law_scroll_at_its_place<C>(x: Option<C>, y: Option<C>, dy: C, ten: C)
    ensures
        ({
            let r = server::answered(true, ToolCall::Scroll(ScrollParam { dy, x, y }), ten);
            &&& r is Ok
            &&& r->Ok_0 is Scroll
            &&& r->Ok_0->Scroll_dy == dy
            &&& x matches Some(px) ==> r->Ok_0->Scroll_x == px
            &&& y matches Some(py) ==> r->Ok_0->Scroll_y == py
            &&& x is None ==> r->Ok_0->Scroll_x == ten
            &&& y is None ==> r->Ok_0->Scroll_y == ten
        }),
{
}

/// An allowed click goes to the selected element, where one is selected; else to
/// the very point that was given, and half a point is none.
pub proof fn law_click_at_its_place<C>(
    x: Option<C>,
    y: Option<C>,
    selector: Option<String>,
    ten: C,
)
    ensures
        ({
            let r = server::answered(true, ToolCall::Click(ClickParam { x, y, selector }), ten);
            &&& selector matches Some(s) ==> r == Ok::<Plan<C>, Refusal>(Plan::ClickSelector(s@))
            &&& selector is None && x is Some && y is Some ==> r == Ok::<Plan<C>, Refusal>(
                Plan::ClickAt { x: x->0, y: y->0 },
            )
            &&& selector is None && (x is None || y is None) ==> r == Err::<Plan<C>, Refusal>(
                Refusal::InvalidRequest("provide selector or x,y"@),
            )
        }),
{
}

/// What an allowed call says goes through word for word: the address to open, the
/// text to type, the script to run.
pub proof fn law_words_go_through<C>(url: String, typed: String, script: String, ten: C)
    ensures
        server::answered(true, ToolCall::Navigate(NavigateParam { url }), ten) == Ok::<
            Plan<C>,
            Refusal,
        >(Plan::Navigate(url@)),
        server::answered(true, ToolCall::TypeText(TypeParam { text: typed }), ten) == Ok::<
            Plan<C>,
            Refusal,
        >(Plan::Insert(typed@)),
        server::answered(true, ToolCall::EvalJs(EvalParam { script }), ten) == Ok::<
            Plan<C>,
            Refusal,
        >(Plan::Eval(script@)),
{
}

/// An allowed press is one of the key and the modifiers that were named; a key
/// without a name is refused, and then a modifier without one.
pub proof fn law_press_by_name<C>(key: String, mods: Option<Vec<String>>, ten: C)
    ensures
        ({
            let r = server::answered(true, ToolCall::PressKey(KeyParam { key, mods }), ten);
            let named = server::mods_named(
                match mods {
                    Some(v) => text::views(v@),
                    None => Seq::empty(),
                },
            );
            match server::key_named(key@) {
                None => r == Err::<Plan<C>, Refusal>(
                    Refusal::InvalidRequest("unsupported key: "@ + key@),
                ),
                Some(k) => match named {
                    Ok(m) => r == Ok::<Plan<C>, Refusal>(Plan::Press { key: k, mods: m }),
                    Err(name) => r == Err::<Plan<C>, Refusal>(
                        Refusal::InvalidRequest("unsupported modifier: "@ + name),
                    ),
                },
            }
        }),
{
}

/// Logs are read from the sequence number, with the filter and up to the limit
/// that were given; else from the beginning, and two hundred of them. They can be
/// read whether control is allowed or not.
pub proof fn law_log_queries<C>(
    allow: bool,
    since: Option<u64>,
    level: Option<String>,
    status: Option<i64>,
    limit: Option<usize>,
    ten: C,
)
    ensures
        ({
            let from = if since is Some {
                since->0
            } else {
                0
            };
            let most = if limit is Some {
                limit->0
            } else {
                200
            };
            &&& server::answered(
                allow,
                ToolCall::GetConsoleLogs(ConsoleQuery { since_seq: since, level, limit }),
                ten,
            ) == Ok::<Plan<C>, Refusal>(
                Plan::Console {
                    since_seq: from,
                    level: match level {
                        Some(l) => Some(l@),
                        None => None,
                    },
                    limit: most,
                },
            )
            &&& server::answered(
                allow,
                ToolCall::GetNetworkLogs(NetworkQuery { since_seq: since, status, limit }),
                ten,
            ) == Ok::<Plan<C>, Refusal>(Plan::Network { since_seq: from, status, limit: most })
        }),
{
}

/// A screenshot is a PNG unless JPEG was asked for, and of quality eighty where
/// none was given; like the page's description, it can always be had.
pub proof fn law_screenshots<C>(allow: bool, format: Option<String>, quality: Option<u8>, ten: C)
    ensures
        ({
            let r = server::answered(
                allow,
                ToolCall::CaptureScreenshot(ShotParam { format, quality }),
                ten,
            );
            &&& r is Ok
            &&& r->Ok_0 is Screenshot
            &&& r->Ok_0->jpeg <==> (format is Some && format->0@ == "jpeg"@)
            &&& r->Ok_0->quality == (if quality is Some {
                quality->0
            } else {
                80
            })
        }),
        server::answered(allow, ToolCall::<C>::GetPageInfo, ten) == Ok::<Plan<C>, Refusal>(
            Plan::Info,
        ),
        server::mime_text(true) == "image/jpeg"@,
        server::mime_text(false) == "image/png"@,
{
}

/// Without permission nothing can navigate, click, type, press, scroll or run a
/// script, and the answer says how to permit it.
pub proof fn law_nothing_moves_without_permission<C>(call: ToolCall<C>, ten: C)
    requires
        call is Navigate || call is Click || call is TypeText || call is PressKey || call is Scroll
            || call is EvalJs,
    ensures
        server::answered(false, call, ten) == Err::<Plan<C>, Refusal>(
            Refusal::InvalidRequest(
                "control tools are disabled; start webcat with --mcp-allow-control"@,
            ),
        ),
{
}

/// What the browser could not do is told as it was.
pub proof fn law_failure_is_told(message: String, r: McpError)
    requires
        call_ensures(server::to_err, (message,), r),
    ensures
        r matches McpError::Internal(m) && m@ == message@,
{
}

/// The picture in an answer is the one that was taken.
pub proof fn law_picture_is_answered(bytes: &[u8], jpeg: bool, r: (String, String))
    requires
        bytes@.len() <= encoding::MAX_INPUT,
        call_ensures(server::screenshot_content, (bytes, jpeg), r),
    ensures
        encoding::base64_decoded(r.0@) == Some(bytes@),
        jpeg ==> r.1@ == "image/jpeg"@,
        !jpeg ==> r.1@ == "image/png"@,
{
}

/// A key has the name under which it is sent; five have a short name besides, and
/// nothing else is a key's name. A character's name is the character.
pub proof fn law_key_names(s: Seq<char>)
    ensures
        s.len() == 1 ==> server::key_named(s) == Some(Key::Char(s[0])),
        s == "Esc"@ ==> server::key_named(s) == Some(Key::Esc),
        s == "Up"@ ==> server::key_named(s) == Some(Key::Up),
        s == "Down"@ ==> server::key_named(s) == Some(Key::Down),
        s == "Left"@ ==> server::key_named(s) == Some(Key::Left),
        s == "Right"@ ==> server::key_named(s) == Some(Key::Right),
        s.len() == 0 ==> server::key_named(s) is None,
        server::key_named(s) matches Some(k) ==> {
            ||| s == browser::key_desc(k).key
            ||| s == "Esc"@ && k is Esc
            ||| s == "Up"@ && k is Up
            ||| s == "Down"@ && k is Down
            ||| s == "Left"@ && k is Left
            ||| s == "Right"@ && k is Right
        },
        server::key_named(s) matches Some(k) ==> !(k is F),
{
    crate::laws::browser::lemma_names_differ();
}

/// `s` names the Alt key.
pub open spec fn names_alt(s: Seq<char>) -> bool {
    s == "Alt"@ || s == "alt"@
}

/// `s` names the Ctrl key.
pub open spec fn names_ctrl(s: Seq<char>) -> bool {
    s == "Ctrl"@ || s == "Control"@ || s == "ctrl"@ || s == "control"@
}

/// `s` names the Meta key.
pub open spec fn names_meta(s: Seq<char>) -> bool {
    s == "Meta"@ || s == "Cmd"@ || s == "meta"@ || s == "cmd"@
}

/// `s` names the Shift key.
pub open spec fn names_shift(s: Seq<char>) -> bool {
    s == "Shift"@ || s == "shift"@
}

/// `s` names a modifier.
pub open spec fn names_modifier(s: Seq<char>) -> bool {
    names_alt(s) || names_ctrl(s) || names_meta(s) || names_shift(s)
}

proof fn lemma_modifier_names_differ(s: Seq<char>)
    ensures
        names_alt(s) ==> !names_ctrl(s) && !names_meta(s) && !names_shift(s),
        names_ctrl(s) ==> !names_meta(s) && !names_shift(s),
        names_meta(s) ==> !names_shift(s),
{
    reveal_strlit("Alt");
    reveal_strlit("alt");
    reveal_strlit("Ctrl");
    reveal_strlit("Control");
    reveal_strlit("ctrl");
    reveal_strlit("control");
    reveal_strlit("Meta");
    reveal_strlit("Cmd");
    reveal_strlit("meta");
    reveal_strlit("cmd");
    reveal_strlit("Shift");
    reveal_strlit("shift");
    assert("Alt"@[0] == 'A' && "alt"@[0] == 'a');
    assert("Ctrl"@[1] == 't' && "ctrl"@[1] == 't');
    assert("Control"@[0] == 'C' && "control"@[0] == 'c' && "Ctrl"@[0] == 'C' && "ctrl"@[0] == 'c');
    assert("Control"@[1] == 'o' && "control"@[1] == 'o');
    assert("Cmd"@[0] == 'C' && "cmd"@[0] == 'c' && "Cmd"@[1] == 'm' && "cmd"@[1] == 'm');
    assert("Meta"@[0] == 'M' && "meta"@[0] == 'm');
    assert("Shift"@[0] == 'S' && "shift"@[0] == 's');
}

/// Where every name is known, a modifier is held exactly where one of the names
/// names it.
pub proof fn law_modifiers_by_name(names: Seq<Seq<char>>)
    requires
        forall|i: int| 0 <= i < names.len() ==> names_modifier(#[trigger] names[i]),
    ensures
        ({
            let r = server::mods_named(names);
            &&& r is Ok
            &&& r->Ok_0.alt <==> exists|i: int| 0 <= i < names.len() && names_alt(#[trigger] names[i])
            &&& r->Ok_0.ctrl <==> exists|i: int|
                0 <= i < names.len() && names_ctrl(#[trigger] names[i])
            &&& r->Ok_0.meta <==> exists|i: int|
                0 <= i < names.len() && names_meta(#[trigger] names[i])
            &&& r->Ok_0.shift <==> exists|i: int|
                0 <= i < names.len() && names_shift(#[trigger] names[i])
        }),
    decreases names.len(),
{
    if names.len() > 0 {
        let before = names.drop_last();
        let last = names.last();
        assert(names_modifier(names[names.len() - 1]));
        lemma_modifier_names_differ(last);
        assert forall|i: int| 0 <= i < before.len() implies names_modifier(#[trigger] before[i]) by {
            assert(names_modifier(names[i]));
        }
        law_modifiers_by_name(before);
        assert forall|i: int| 0 <= i < before.len() implies #[trigger] before[i] == names[i] by {}
        let b = server::mods_named(before)->Ok_0;
        let n = server::mods_named(names)->Ok_0;
        if b.alt {
            let i = choose|i: int| 0 <= i < before.len() && names_alt(#[trigger] before[i]);
            assert(names_alt(names[i]));
        }
        if b.ctrl {
            let i = choose|i: int| 0 <= i < before.len() && names_ctrl(#[trigger] before[i]);
            assert(names_ctrl(names[i]));
        }
        if b.meta {
            let i = choose|i: int| 0 <= i < before.len() && names_meta(#[trigger] before[i]);
            assert(names_meta(names[i]));
        }
        if b.shift {
            let i = choose|i: int| 0 <= i < before.len() && names_shift(#[trigger] before[i]);
            assert(names_shift(names[i]));
        }
        assert(last == names[names.len() - 1]);
        assert forall|i: int| 0 <= i < names.len() implies i == names.len() - 1 || (#[trigger] names[i]
            == before[i]) by {}
    }
}

/// The first name that names no modifier is the one that is refused.
pub proof fn law_unknown_modifier(names: Seq<Seq<char>>, i: int)
    requires
        0 <= i < names.len(),
        !names_modifier(names[i]),
        forall|k: int| 0 <= k < i ==> names_modifier(#[trigger] names[k]),
    ensures
        server::mods_named(names) == Err::<Mods, Seq<char>>(names[i]),
    decreases names.len(),
{
    let before = names.drop_last();
    if i == names.len() - 1 {
        assert forall|k: int| 0 <= k < before.len() implies names_modifier(#[trigger] before[k]) by {
            assert(names_modifier(names[k]));
        }
        law_modifiers_by_name(before);
    } else {
        assert forall|k: int| 0 <= k < i implies names_modifier(#[trigger] before[k]) by {
            assert(names_modifier(names[k]));
        }
        law_unknown_modifier(before, i);
    }
}

/// The server is on the local machine, at the port.
pub proof fn law_server_address(port: u16)
    ensures
        install::url_text(port) == "http://127.0.0.1:"@ + text::dec(port as nat) + "/mcp"@,
{
}

/// The port is the one that was given, else the one in the file, else 4470.
pub proof fn law_port(given: Option<u16>, file: Option<FileConfig>, in_file: Option<u16>)
    requires
        in_file == (match file {
            Some(f) => match f.mcp {
                Some(m) => m.port,
                None => None,
            },
            None => None,
        }),
    ensures
        given matches Some(p) ==> install::port_of(given, file) == p,
        given is None && in_file is Some ==> install::port_of(given, file) == in_file->0,
        given is None && in_file is None ==> install::port_of(given, file) == 4470,
{
}

/// Installing enables the server in the file, on its port and with the control
/// that was asked for, and changes nothing else in it.
pub proof fn law_file_is_kept(file: FileConfig, port: u16, control: bool)
    ensures
        ({
            let r = install::enabled_file(Some(file), port, control);
            &&& r.mcp == Some(
                FileMcpConfig {
                    enabled: Some(true),
                    port: Some(port),
                    allow_control: Some(control),
                },
            )
            &&& r == FileConfig { mcp: r.mcp, ..file }
        }),
        install::enabled_file(None, port, control) == (FileConfig {
            quality: None,
            zoom: None,
            mcp: install::enabled_file(Some(file), port, control).mcp,
        }),
{
}

/// An agent that wants to be shown how to register has nothing written and
/// nothing run; for any other the file is written, and its command run with the
/// server's address.
pub proof fn law_install_plan(args: InstallArgs, file: Option<FileConfig>, r: InstallPlan)
    requires
        call_ensures(install::install_plan, (args, file), r),
    ensures
        r.port == install::port_of(args.port, file),
        args.agent is Print <==> r.write is None,
        args.agent is Print <==> r.register is None,
        r.write matches Some(f) ==> f == install::enabled_file(file, r.port, args.allow_control),
        r.register matches Some(v) ==> text::views(v@) == seq![
            "mcp"@,
            "add"@,
            "--transport"@,
            "http"@,
            "webcat"@,
            install::url_text(r.port),
        ],
{
}

/// Uninstalling takes out what installing put in, and runs nothing for an agent
/// that was only shown how to.
pub proof fn law_uninstall_plan(args: UninstallArgs, r: Option<Vec<String>>)
    requires
        call_ensures(install::uninstall_plan, (args,), r),
    ensures
        args.agent is Print <==> r is None,
        r matches Some(v) ==> text::views(v@) == seq!["mcp"@, "remove"@, "webcat"@],
{
}

/// The snippet shows the address twice: by itself, and in the command that
/// registers it.
pub proof fn law_snippet(port: u16, agent: Agent)
    ensures
        install::snippet_text(port, agent) == "webcat MCP server\n  URL: "@ + install::url_text(port)
            + "\n  transport: streamable-http\n\n"@ + agent.name@ + ":\n  "@ + agent.command@
            + " mcp add --transport http webcat "@ + install::url_text(port) + "\n"@,
{
}

/// The report says what was done: registered, shown, or left to do by hand with
/// the snippet; and that the configuration was written only where it was.
pub proof fn law_install_report(args: InstallArgs, port: u16, registered: bool, agent: Agent)
    ensures
        ({
            let r = install::install_text(args, port, registered, agent);
            let note = "\nNote: webcat must be running (with mcp enabled) for the agent to connect.\n"@;
            let written = "Config written to ~/.webcat/config.yaml (mcp.enabled=true, port="@
                + text::dec(port as nat) + ", allow_control="@ + (if args.allow_control {
                "true"@
            } else {
                "false"@
            }) + ").\n"@;
            &&& args.agent is Print ==> r == install::snippet_text(port, agent) + note
            &&& args.agent is Claude && registered ==> r == "Registered webcat MCP server with "@
                + agent.name@ + " at "@ + install::url_text(port) + "\n"@ + note + written
            &&& args.agent is Claude && !registered ==> r == "Could not run `"@ + agent.command@
                + " mcp add` automatically. Add it manually:\n\n"@ + install::snippet_text(
                port,
                agent,
            ) + "\n"@ + note + written
        }),
{
    let r = install::install_text(args, port, registered, agent);
    let note = "\nNote: webcat must be running (with mcp enabled) for the agent to connect.\n"@;
    let written = "Config written to ~/.webcat/config.yaml (mcp.enabled=true, port="@ + text::dec(
        port as nat,
    ) + ", allow_control="@ + (if args.allow_control {
        "true"@
    } else {
        "false"@
    }) + ").\n"@;
    let a = "Registered webcat MCP server with "@ + agent.name@ + " at "@ + install::url_text(port)
        + "\n"@;
    let b = "Could not run `"@ + agent.command@ + " mcp add` automatically. Add it manually:\n\n"@
        + install::snippet_text(port, agent) + "\n"@;
    let c = install::snippet_text(port, agent);
    assert(c + (note + Seq::<char>::empty()) =~= c + note);
    assert(a + (note + written) =~= a + note + written);
    assert(b + (note + written) =~= b + note + written);
}

/// The status says whether the server is enabled and may control the browser,
/// neither unless the file says so, and where it is.
pub proof fn law_status_report(file: Option<FileConfig>)
    ensures
        ({
            let r = install::status_text(file);
            let none = "No MCP config found in ~/.webcat/config.yaml.\n"@;
            &&& file is None ==> r == none
            &&& file matches Some(f) ==> f.mcp is None ==> r == none
            &&& file matches Some(f) ==> f.mcp matches Some(m) ==> r
                == "MCP config (~/.webcat/config.yaml):\n  enabled: "@ + (if m.enabled == Some(
                true,
            ) {
                "true"@
            } else {
                "false"@
            }) + "\n  allow_control: "@ + (if m.allow_control == Some(true) {
                "true"@
            } else {
                "false"@
            }) + "\n  url: "@ + install::url_text(
                if m.port is Some {
                    m.port->0
                } else {
                    4470
                },
            ) + "\n"@
        }),
{
}

/// Taking the server out is told as it went.
pub proof fn law_uninstall_report(args: UninstallArgs, removed: bool, agent: &Agent, r: String)
    requires
        call_ensures(install::uninstall_report, (args, removed, agent), r),
    ensures
        args.agent is Claude && removed ==> r@ == "Removed webcat MCP server from "@ + agent.name@
            + ".\n"@,
        args.agent is Claude && !removed ==> r@ == "Could not run `"@ + agent.command@
            + " mcp remove webcat`. Remove it manually.\n"@,
        args.agent is Print ==> r@ == "Nothing to remove for --agent print.\n"@,
{
}

} // verus!
