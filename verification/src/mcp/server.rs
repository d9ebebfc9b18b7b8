//! The tools that an agent calls.

use crate::encoding;
use crate::observability;
use crate::observability::{ConsolePage, NetworkPage, ObservabilityStore};
use crate::terminal::keyboard;
use crate::terminal::keyboard::{Key, Mods};
use crate::text;
use vstd::prelude::*;

verus! {

/// Why a tool did not do what it was asked to.
#[derive(Debug)]
pub enum McpError {
    /// The request cannot be met.
    InvalidRequest(String),
    /// The browser could not do it.
    Internal(String),
}

/// What an error holds.
pub enum Refusal {
    InvalidRequest(Seq<char>),
    Internal(Seq<char>),
}

impl View for McpError {
    type V = Refusal;

    open spec fn view(&self) -> Refusal {
        match *self {
            McpError::InvalidRequest(s) => Refusal::InvalidRequest(s@),
            McpError::Internal(s) => Refusal::Internal(s@),
        }
    }
}

/// The answer to a control tool where control is not allowed.
pub open spec fn control_refusal() -> Refusal {
    Refusal::InvalidRequest(
        "control tools are disabled; start webcat with --mcp-allow-control"@,
    )
}

/// Lets a control tool pass only where control is allowed.
pub fn control_guard(allow: bool) -> (r: Result<(), McpError>)
    ensures
        r is Ok <==> allow,
        r matches Err(e) ==> e@ == control_refusal(),
{
    if allow {
        Ok(())
    } else {
        Err(
            McpError::InvalidRequest(
                "control tools are disabled; start webcat with --mcp-allow-control".to_string(),
            ),
        )
    }
}

/// The error of a tool that the browser could not carry out.
pub fn to_err(message: String) -> (r: McpError)
    ensures
        r@ == Refusal::Internal(message@),
{
    McpError::Internal(message)
}

/// A question for console messages.
#[derive(Debug)]
pub struct ConsoleQuery {
    pub since_seq: Option<u64>,
    pub level: Option<String>,
    pub limit: Option<usize>,
}

/// A question for network events.
#[derive(Debug)]
pub struct NetworkQuery {
    pub since_seq: Option<u64>,
    pub status: Option<i64>,
    pub limit: Option<usize>,
}

/// Where to navigate.
#[derive(Debug)]
pub struct NavigateParam {
    pub url: String,
}

/// Where to click. `C` is the type of a coordinate.
#[derive(Debug)]
pub struct ClickParam<C> {
    pub x: Option<C>,
    pub y: Option<C>,
    pub selector: Option<String>,
}

/// What to type.
#[derive(Debug)]
pub struct TypeParam {
    pub text: String,
}

/// Which key to press.
#[derive(Debug)]
pub struct KeyParam {
    pub key: String,
    pub mods: Option<Vec<String>>,
}

/// How far to scroll, and where. `C` is the type of a coordinate.
#[derive(Debug)]
pub struct ScrollParam<C> {
    pub dy: C,
    pub x: Option<C>,
    pub y: Option<C>,
}

/// What to evaluate.
#[derive(Debug)]
pub struct EvalParam {
    pub script: String,
}

/// What kind of screenshot to take.
#[derive(Debug)]
pub struct ShotParam {
    pub format: Option<String>,
    pub quality: Option<u8>,
}

/// The entries of an answer where no limit is given.
pub const DEFAULT_LIMIT: usize = 200;

/// The quality of a screenshot where none is given.
pub const DEFAULT_QUALITY: u8 = 80;

/// The key that a name stands for; a name of one character is that character.
pub open spec fn key_named(s: Seq<char>) -> Option<Key> {
    if s == "Enter"@ {
        Some(Key::Enter)
    } else if s == "Backspace"@ {
        Some(Key::Backspace)
    } else if s == "Tab"@ {
        Some(Key::Tab)
    } else if s == "Escape"@ || s == "Esc"@ {
        Some(Key::Esc)
    } else if s == "ArrowUp"@ || s == "Up"@ {
        Some(Key::Up)
    } else if s == "ArrowDown"@ || s == "Down"@ {
        Some(Key::Down)
    } else if s == "ArrowLeft"@ || s == "Left"@ {
        Some(Key::Left)
    } else if s == "ArrowRight"@ || s == "Right"@ {
        Some(Key::Right)
    } else if s == "Home"@ {
        Some(Key::Home)
    } else if s == "End"@ {
        Some(Key::End)
    } else if s == "PageUp"@ {
        Some(Key::PageUp)
    } else if s == "PageDown"@ {
        Some(Key::PageDown)
    } else if s == "Delete"@ {
        Some(Key::Delete)
    } else if s.len() == 1 {
        Some(Key::Char(s[0]))
    } else {
        None
    }
}

/// The key that a name stands for.
pub fn parse_key(s: &str) -> (r: Result<Key, String>)
    ensures
        match r {
            Ok(k) => key_named(s@) == Some(k),
            Err(e) => key_named(s@) is None && e@ == "unsupported key: "@ + s@,
        },
{
    let c: Vec<char> = text::chars_of(s);
    let w: &[char] = c.as_slice();
    if text::spells(w, "Enter") {
        Ok(Key::Enter)
    } else if text::spells(w, "Backspace") {
        Ok(Key::Backspace)
    } else if text::spells(w, "Tab") {
        Ok(Key::Tab)
    } else if text::spells(w, "Escape") || text::spells(w, "Esc") {
        Ok(Key::Esc)
    } else if text::spells(w, "ArrowUp") || text::spells(w, "Up") {
        Ok(Key::Up)
    } else if text::spells(w, "ArrowDown") || text::spells(w, "Down") {
        Ok(Key::Down)
    } else if text::spells(w, "ArrowLeft") || text::spells(w, "Left") {
        Ok(Key::Left)
    } else if text::spells(w, "ArrowRight") || text::spells(w, "Right") {
        Ok(Key::Right)
    } else if text::spells(w, "Home") {
        Ok(Key::Home)
    } else if text::spells(w, "End") {
        Ok(Key::End)
    } else if text::spells(w, "PageUp") {
        Ok(Key::PageUp)
    } else if text::spells(w, "PageDown") {
        Ok(Key::PageDown)
    } else if text::spells(w, "Delete") {
        Ok(Key::Delete)
    } else if w.len() == 1 {
        Ok(Key::Char(w[0]))
    } else {
        Err(text::concat("unsupported key: ", s))
    }
}

/// The modifiers with the one that a name stands for.
pub open spec fn mod_added(m: Mods, s: Seq<char>) -> Option<Mods> {
    if s == "Alt"@ || s == "alt"@ {
        Some(Mods { alt: true, ..m })
    } else if s == "Ctrl"@ || s == "Control"@ || s == "ctrl"@ || s == "control"@ {
        Some(Mods { ctrl: true, ..m })
    } else if s == "Meta"@ || s == "Cmd"@ || s == "meta"@ || s == "cmd"@ {
        Some(Mods { meta: true, ..m })
    } else if s == "Shift"@ || s == "shift"@ {
        Some(Mods { shift: true, ..m })
    } else {
        None
    }
}

/// The modifiers that the names stand for, or the first name that stands for
/// none.
pub open spec fn mods_named(names: Seq<Seq<char>>) -> Result<Mods, Seq<char>>
    decreases names.len(),
{
    if names.len() == 0 {
        Ok(keyboard::no_mods())
    } else {
        match mods_named(names.drop_last()) {
            Ok(m) => match mod_added(m, names.last()) {
                Some(m) => Ok(m),
                None => Err(names.last()),
            },
            Err(e) => Err(e),
        }
    }
}

/// A wrong name stays wrong, whatever names follow it.
proof fn lemma_mods_error(names: Seq<Seq<char>>, i: int)
    requires
        0 <= i <= names.len(),
        mods_named(names.take(i)) is Err,
    ensures
        mods_named(names) == mods_named(names.take(i)),
    decreases names.len() - i,
{
    if i < names.len() {
        assert(names.take(i + 1).drop_last() =~= names.take(i));
        lemma_mods_error(names, i + 1);
    } else {
        assert(names.take(i) =~= names);
    }
}

/// What an optional row of strings holds.
pub open spec fn names_view(v: Option<&[String]>) -> Seq<Seq<char>> {
    match v {
        Some(v) => text::views(v@),
        None => Seq::empty(),
    }
}

/// The modifiers that the names stand for.
pub fn parse_mods(mods: Option<&[String]>) -> (r: Result<Mods, String>)
    ensures
        match r {
            Ok(m) => mods_named(names_view(mods)) == Ok::<Mods, Seq<char>>(m),
            Err(e) => {
                &&& mods_named(names_view(mods)) is Err
                &&& e@ == "unsupported modifier: "@ + mods_named(names_view(mods))->Err_0
            },
        },
{
    let mut out: Mods = Mods::none();
    let list: &[String] = match mods {
        Some(v) => v,
        None => return Ok(out),
    };
    let ghost names = text::views(list@);
    let mut i: usize = 0;
    assert(names.take(0) =~= Seq::<Seq<char>>::empty());
    while i < list.len()
        invariant
            i <= list@.len(),
            names == text::views(list@),
            names == names_view(mods),
            mods_named(names.take(i as int)) == Ok::<Mods, Seq<char>>(out),
        decreases list@.len() - i,
    {
        let name: &str = list[i].as_str();
        proof {
            assert(names[i as int] == name@);
            assert(names.take(i + 1).drop_last() =~= names.take(i as int));
        }
        let c: Vec<char> = text::chars_of(name);
        let w: &[char] = c.as_slice();
        if text::spells(w, "Alt") || text::spells(w, "alt") {
            out.alt = true;
        } else if text::spells(w, "Ctrl") || text::spells(w, "Control") || text::spells(w, "ctrl")
            || text::spells(w, "control") {
            out.ctrl = true;
        } else if text::spells(w, "Meta") || text::spells(w, "Cmd") || text::spells(w, "meta")
            || text::spells(w, "cmd") {
            out.meta = true;
        } else if text::spells(w, "Shift") || text::spells(w, "shift") {
            out.shift = true;
        } else {
            proof {
                lemma_mods_error(names, i + 1);
            }
            return Err(text::concat("unsupported modifier: ", name));
        }
        i += 1;
    }
    assert(names.take(list@.len() as int) =~= names);
    Ok(out)
}

/// A call of a tool. `C` is the type of a coordinate.
#[derive(Debug)]
pub enum ToolCall<C> {
    GetConsoleLogs(ConsoleQuery),
    GetNetworkLogs(NetworkQuery),
    GetPageInfo,
    CaptureScreenshot(ShotParam),
    Navigate(NavigateParam),
    Click(ClickParam<C>),
    TypeText(TypeParam),
    PressKey(KeyParam),
    Scroll(ScrollParam<C>),
    EvalJs(EvalParam),
}

/// What a call comes to. `C` is the type of a coordinate.
#[derive(Debug)]
pub enum ToolPlan<C> {
    Console { since_seq: u64, level: Option<String>, limit: usize },
    Network { since_seq: u64, status: Option<i64>, limit: usize },
    Info,
    Screenshot { jpeg: bool, quality: u8 },
    Navigate(String),
    ClickSelector(String),
    ClickAt { x: C, y: C },
    Insert(String),
    Press { key: Key, mods: Mods },
    Scroll { x: C, y: C, dy: C },
    Eval(String),
}

/// What the plan of a call holds.
pub enum Plan<C> {
    Console { since_seq: u64, level: Option<Seq<char>>, limit: usize },
    Network { since_seq: u64, status: Option<i64>, limit: usize },
    Info,
    Screenshot { jpeg: bool, quality: u8 },
    Navigate(Seq<char>),
    ClickSelector(Seq<char>),
    ClickAt { x: C, y: C },
    Insert(Seq<char>),
    Press { key: Key, mods: Mods },
    Scroll { x: C, y: C, dy: C },
    Eval(Seq<char>),
}

impl<C> View for ToolPlan<C> {
    type V = Plan<C>;

    open spec fn view(&self) -> Plan<C> {
        match *self {
            ToolPlan::Console { since_seq, level, limit } => Plan::Console {
                since_seq,
                level: text::opt_view(level),
                limit,
            },
            ToolPlan::Network { since_seq, status, limit } => Plan::Network {
                since_seq,
                status,
                limit,
            },
            ToolPlan::Info => Plan::Info,
            ToolPlan::Screenshot { jpeg, quality } => Plan::Screenshot { jpeg, quality },
            ToolPlan::Navigate(url) => Plan::Navigate(url@),
            ToolPlan::ClickSelector(s) => Plan::ClickSelector(s@),
            ToolPlan::ClickAt { x, y } => Plan::ClickAt { x, y },
            ToolPlan::Insert(t) => Plan::Insert(t@),
            ToolPlan::Press { key, mods } => Plan::Press { key, mods },
            ToolPlan::Scroll { x, y, dy } => Plan::Scroll { x, y, dy },
            ToolPlan::Eval(s) => Plan::Eval(s@),
        }
    }
}

/// The call can change the page, and so needs control to be allowed.
pub open spec fn is_control<C>(call: ToolCall<C>) -> bool {
    match call {
        ToolCall::GetConsoleLogs(_) => false,
        ToolCall::GetNetworkLogs(_) => false,
        ToolCall::GetPageInfo => false,
        ToolCall::CaptureScreenshot(_) => false,
        _ => true,
    }
}

/// What is clicked: the selected element, else the point, if it is given whole.
pub open spec fn click_plan<C>(p: ClickParam<C>) -> Result<Plan<C>, Refusal> {
    match (p.selector, p.x, p.y) {
        (Some(s), _, _) => Ok(Plan::ClickSelector(s@)),
        (None, Some(x), Some(y)) => Ok(Plan::ClickAt { x, y }),
        _ => Err(Refusal::InvalidRequest("provide selector or x,y"@)),
    }
}

/// What is pressed: a wrong key is told before a wrong modifier.
pub open spec fn press_plan<C>(p: KeyParam) -> Result<Plan<C>, Refusal> {
    let names = match p.mods {
        Some(v) => text::views(v@),
        None => Seq::empty(),
    };
    match (key_named(p.key@), mods_named(names)) {
        (Some(key), Ok(mods)) => Ok(Plan::Press { key, mods }),
        (None, _) => Err(Refusal::InvalidRequest("unsupported key: "@ + p.key@)),
        (_, Err(name)) => Err(Refusal::InvalidRequest("unsupported modifier: "@ + name)),
    }
}

/// What a call comes to where it may pass. `ten` is the coordinate at which a
/// page is scrolled where no place is given.
pub open spec fn plan_of<C>(call: ToolCall<C>, ten: C) -> Result<Plan<C>, Refusal> {
    match call {
        ToolCall::GetConsoleLogs(q) => Ok(
            Plan::Console {
                since_seq: crate::config::or_default(q.since_seq, 0),
                level: text::opt_view(q.level),
                limit: crate::config::or_default(q.limit, DEFAULT_LIMIT),
            },
        ),
        ToolCall::GetNetworkLogs(q) => Ok(
            Plan::Network {
                since_seq: crate::config::or_default(q.since_seq, 0),
                status: q.status,
                limit: crate::config::or_default(q.limit, DEFAULT_LIMIT),
            },
        ),
        ToolCall::GetPageInfo => Ok(Plan::Info),
        ToolCall::CaptureScreenshot(p) => Ok(
            Plan::Screenshot {
                jpeg: text::opt_view(p.format) == Some("jpeg"@),
                quality: crate::config::or_default(p.quality, DEFAULT_QUALITY),
            },
        ),
        ToolCall::Navigate(p) => Ok(Plan::Navigate(p.url@)),
        ToolCall::Click(p) => click_plan(p),
        ToolCall::TypeText(p) => Ok(Plan::Insert(p.text@)),
        ToolCall::PressKey(p) => press_plan(p),
        ToolCall::Scroll(p) => Ok(
            Plan::Scroll {
                x: crate::config::or_default(p.x, ten),
                y: crate::config::or_default(p.y, ten),
                dy: p.dy,
            },
        ),
        ToolCall::EvalJs(p) => Ok(Plan::Eval(p.script@)),
    }
}

/// What a call comes to: control tools are refused where control is not allowed.
pub open spec fn answered<C>(allow: bool, call: ToolCall<C>, ten: C) -> Result<Plan<C>, Refusal> {
    if is_control(call) && !allow {
        Err(control_refusal())
    } else {
        plan_of(call, ten)
    }
}

/// What the plan of a call, or its refusal, holds.
pub open spec fn plan_view<C>(r: Result<ToolPlan<C>, McpError>) -> Result<Plan<C>, Refusal> {
    match r {
        Ok(p) => Ok(p@),
        Err(e) => Err(e@),
    }
}

/// The server's tools.
#[derive(Debug, Clone, Copy, PartialEq, Eq, Structural)]
pub struct WebcatMcp {
    pub allow_control: bool,
}

impl WebcatMcp {
    /// The tools, with or without control.
    pub fn new(allow_control: bool) -> (r: Self)
        ensures
            r.allow_control == allow_control,
    {
        WebcatMcp { allow_control }
    }

    /// What a call comes to, or why it is refused.
    pub fn plan<C>(&self, call: ToolCall<C>, ten: C) -> (r: Result<ToolPlan<C>, McpError>)
        where C: Copy
        ensures
            plan_view(r) == answered(self.allow_control, call, ten),
    {
        let allow: bool = self.allow_control;
        match call {
            ToolCall::GetConsoleLogs(q) => Ok(
                ToolPlan::Console {
                    since_seq: match q.since_seq {
                        Some(s) => s,
                        None => 0,
                    },
                    level: q.level,
                    limit: match q.limit {
                        Some(n) => n,
                        None => DEFAULT_LIMIT,
                    },
                },
            ),
            ToolCall::GetNetworkLogs(q) => Ok(
                ToolPlan::Network {
                    since_seq: match q.since_seq {
                        Some(s) => s,
                        None => 0,
                    },
                    status: q.status,
                    limit: match q.limit {
                        Some(n) => n,
                        None => DEFAULT_LIMIT,
                    },
                },
            ),
            ToolCall::GetPageInfo => Ok(ToolPlan::Info),
            ToolCall::CaptureScreenshot(p) => Ok(
                ToolPlan::Screenshot {
                    jpeg: match &p.format {
                        Some(f) => text::same_str(f.as_str(), "jpeg"),
                        None => false,
                    },
                    quality: match p.quality {
                        Some(q) => q,
                        None => DEFAULT_QUALITY,
                    },
                },
            ),
            ToolCall::Navigate(p) => match control_guard(allow) {
                Ok(_) => Ok(ToolPlan::Navigate(p.url)),
                Err(e) => Err(e),
            },
            ToolCall::Click(p) => match control_guard(allow) {
                Ok(_) => match (p.selector, p.x, p.y) {
                    (Some(s), _, _) => Ok(ToolPlan::ClickSelector(s)),
                    (None, Some(x), Some(y)) => Ok(ToolPlan::ClickAt { x, y }),
                    _ => Err(McpError::InvalidRequest("provide selector or x,y".to_string())),
                },
                Err(e) => Err(e),
            },
            ToolCall::TypeText(p) => match control_guard(allow) {
                Ok(_) => Ok(ToolPlan::Insert(p.text)),
                Err(e) => Err(e),
            },
            ToolCall::PressKey(p) => match control_guard(allow) {
                Ok(_) => plan_press(p),
                Err(e) => Err(e),
            },
            ToolCall::Scroll(p) => match control_guard(allow) {
                Ok(_) => Ok(
                    ToolPlan::Scroll {
                        x: match p.x {
                            Some(x) => x,
                            None => ten,
                        },
                        y: match p.y {
                            Some(y) => y,
                            None => ten,
                        },
                        dy: p.dy,
                    },
                ),
                Err(e) => Err(e),
            },
            ToolCall::EvalJs(p) => match control_guard(allow) {
                Ok(_) => Ok(ToolPlan::Eval(p.script)),
                Err(e) => Err(e),
            },
        }
    }

    /// Answers a question for console messages.
    pub fn get_console_logs(&self, store: &ObservabilityStore, q: ConsoleQuery) -> (r: ConsolePage)
        requires
            store.wf(),
        ensures
            observability::console_records(r.entries@) == store@.console_query(
                crate::config::or_default(q.since_seq, 0),
                text::opt_view(q.level),
                crate::config::or_default(q.limit, DEFAULT_LIMIT) as nat,
            ),
            r.dropped == store@.console_dropped,
            r.latest_seq == store@.seq,
    {
        let since: u64 = match q.since_seq {
            Some(s) => s,
            None => 0,
        };
        let limit: usize = match q.limit {
            Some(n) => n,
            None => DEFAULT_LIMIT,
        };
        let level: Option<&str> = match &q.level {
            Some(l) => Some(l.as_str()),
            None => None,
        };
        store.console_since(since, level, limit)
    }

    /// Answers a question for network events.
    pub fn get_network_logs(&self, store: &ObservabilityStore, q: NetworkQuery) -> (r: NetworkPage)
        requires
            store.wf(),
        ensures
            observability::network_records(r.entries@) == store@.network_query(
                crate::config::or_default(q.since_seq, 0),
                q.status,
                crate::config::or_default(q.limit, DEFAULT_LIMIT) as nat,
            ),
            r.dropped == store@.network_dropped,
            r.latest_seq == store@.seq,
    {
        let since: u64 = match q.since_seq {
            Some(s) => s,
            None => 0,
        };
        let limit: usize = match q.limit {
            Some(n) => n,
            None => DEFAULT_LIMIT,
        };
        store.network_since(since, q.status, limit)
    }
}

/// What is pressed.
fn plan_press<C>(p: KeyParam) -> (r: Result<ToolPlan<C>, McpError>)
    ensures
        plan_view(r) == press_plan::<C>(p),
{
    let key: Key = match parse_key(p.key.as_str()) {
        Ok(k) => k,
        Err(e) => return Err(McpError::InvalidRequest(e)),
    };
    let names: Option<&[String]> = match &p.mods {
        Some(v) => Some(v.as_slice()),
        None => None,
    };
    match parse_mods(names) {
        Ok(mods) => Ok(ToolPlan::Press { key, mods }),
        Err(e) => Err(McpError::InvalidRequest(e)),
    }
}

/// Where control is not allowed, every call that can change the page is refused
/// with the same answer, whatever its arguments; every other call is carried out
/// all the same.
pub proof fn law_control_needs_permission<C>(call: ToolCall<C>, ten: C)
    ensures
        is_control(call) ==> answered(false, call, ten) == Err::<Plan<C>, Refusal>(
            control_refusal(),
        ),
        !is_control(call) ==> answered(false, call, ten) == plan_of(call, ten) && plan_of(
            call,
            ten,
        ) is Ok,
        answered(true, call, ten) == plan_of(call, ten),
{
}

/// The kind of a picture.
pub open spec fn mime_text(jpeg: bool) -> Seq<char> {
    if jpeg {
        "image/jpeg"@
    } else {
        "image/png"@
    }
}

/// The content of an answer that holds a picture: its bytes in base64, and its
/// kind.
pub fn screenshot_content(bytes: &[u8], jpeg: bool) -> (r: (String, String))
    requires
        bytes@.len() <= encoding::MAX_INPUT,
    ensures
        r.0@ == encoding::base64_encoded(bytes@),
        encoding::base64_decoded(r.0@) == Some(bytes@),
        r.1@ == mime_text(jpeg),
{
    let mime: String = if jpeg {
        "image/jpeg".to_string()
    } else {
        "image/png".to_string()
    };
    (encoding::encode(bytes), mime)
}

} // verus!
