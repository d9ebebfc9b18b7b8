//! The browser's side: what is sent to the page and what is kept of its events.

pub mod frame;
pub mod profile;

use crate::encoding;
use crate::geometry::Viewport;
use crate::json;
use crate::observability;
use crate::observability::{NetworkEntry, PageInfo, PageViewport};
use crate::terminal::keyboard::{Key, Mods};
use crate::terminal::mouse::MouseButton;
use crate::text;
use crate::utf8;
use crate::zoom;
use crate::zoom::Zoom;
use vstd::prelude::*;
use vstd::utf8::*;

verus! {

/// Run in every document. It keeps the navigation in the one tab that is shown,
/// and answers at once what would open a dialog that nobody can see.
pub const PAGE_SHIM_JS: &'static str = r#"
            (function(){
              try {
                window.open = function(u){ if (u) { try { window.location.href = u; } catch(e){} } return window; };
              } catch(e){}
              document.addEventListener('click', function(e){
                try {
                  var a = e.target && e.target.closest ? e.target.closest('a[target]') : null;
                  if (a && a.target && a.target !== '_self') { a.target = '_self'; }
                } catch(err){}
              }, true);
              try {
                if (navigator.credentials) {
                  var reject = function(){ return Promise.reject(new DOMException('not supported in webcat', 'NotAllowedError')); };
                  navigator.credentials.get = reject;
                  navigator.credentials.create = reject;
                }
              } catch(e){}
              try {
                if (window.Notification) { Notification.requestPermission = function(){ return Promise.resolve('denied'); }; }
              } catch(e){}
            })();
        "#;

/// Collects the centres of what can be clicked, as a JSON list of pairs.
pub const COLLECT_CLICKABLES_JS: &'static str = r#"
            (() => {
              const sel = [
                'a', 'button', 'input', 'textarea', 'select', 'summary',
                '[role=button]', '[role=link]', '[role=menuitem]', '[role=option]',
                '[role=tab]', '[role=checkbox]', '[role=radio]', '[role=row]',
                '[onclick]', '[tabindex]', '[jsaction]', '[data-tooltip]'
              ].join(',');
              const out = [];
              const seen = new Set();
              function isClickable(el) {
                if (!el || el.disabled || el.getAttribute('aria-disabled') === 'true') return false;
                const cs = getComputedStyle(el);
                if (cs.visibility === 'hidden' || cs.display === 'none' || cs.pointerEvents === 'none') return false;
                const name = el.tagName.toLowerCase();
                const role = (el.getAttribute('role') || '').toLowerCase();
                if (['a','button','input','textarea','select','summary'].includes(name)) return true;
                if (['button','link','menuitem','option','tab','checkbox','radio'].includes(role)) return true;
                if (role === 'row' && (el.hasAttribute('jsaction') || cs.cursor === 'pointer')) return true;
                if (el.hasAttribute('onclick') || el.hasAttribute('jsaction')) return true;
                if (el.tabIndex >= 0) return true;
                return cs.cursor === 'pointer';
              }
              for (const el of document.querySelectorAll(sel)) {
                if (!isClickable(el)) continue;
                const r = el.getBoundingClientRect();
                if (r.width > 0 && r.height > 0 && r.bottom > 0 && r.right > 0
                    && r.top < innerHeight && r.left < innerWidth
                    && r.width < innerWidth * 0.98 && r.height < innerHeight * 0.8) {
                  const x = Math.max(0, Math.min(innerWidth, r.left + r.width / 2));
                  const y = Math.max(0, Math.min(innerHeight, r.top + r.height / 2));
                  const key = Math.round(x / 4) + ':' + Math.round(y / 4);
                  if (!seen.has(key)) {
                    seen.add(key);
                    out.push([x, y]);
                  }
                }
              }
              return JSON.stringify(out);
            })()
        "#;

/// Asks the page for its title and whether it still loads.
pub const PAGE_INFO_JS: &'static str =
    "JSON.stringify({ title: document.title, loading: document.readyState !== 'complete' })";

/// Asks the page for its address and its state.
pub const READY_STATE_JS: &'static str =
    "JSON.stringify({ href: location.href, readyState: document.readyState })";

/// How many bytes of network traffic the browser keeps for us.
pub const NETWORK_BUFFER_BYTES: i64 = 67108864;

/// Something that can be clicked: which one of those that were collected, and
/// the cell in which it lies.
#[derive(Debug, Clone, Copy, PartialEq, Eq, Structural)]
pub struct Clickable {
    pub index: usize,
    pub col: u16,
    pub row: u16,
}

/// The arguments of the browser, with the scale argument in its place.
pub open spec fn launch_arguments(scale: Seq<char>) -> Seq<Seq<char>> {
    seq![
        "--remote-allow-origins=*"@,
        "--high-dpi-support=1"@,
        scale,
        "--disable-blink-features=AutomationControlled"@,
    ]
}

/// The arguments of the browser.
pub fn launch_args(scale_arg: String) -> (r: Vec<String>)
    ensures
        text::views(r@) == launch_arguments(scale_arg@),
{
    let mut out: Vec<String> = Vec::new();
    out.push("--remote-allow-origins=*".to_string());
    out.push("--high-dpi-support=1".to_string());
    out.push(scale_arg);
    out.push("--disable-blink-features=AutomationControlled".to_string());
    assert(text::views(out@) =~= launch_arguments(scale_arg@));
    out
}

/// The scale that the browser is forced to: the zoom factor between one half and
/// four.
pub fn device_scale(z: Zoom) -> (r: Zoom)
    ensures
        r == z.clamped(zoom::HALF, zoom::FOUR),
{
    z.clamp_bits(zoom::HALF, zoom::FOUR)
}

/// The argument that forces the browser's scale, given the scale as it is
/// written.
pub fn force_device_scale_arg(shown: &str) -> (r: String)
    ensures
        r@ == "--force-device-scale-factor="@ + shown@,
{
    text::concat("--force-device-scale-factor=", shown)
}

/// The user agent without the mark of a headless browser, on which sites cut off
/// their media.
pub fn real_user_agent(ua: &str) -> (r: String)
    ensures
        r@ == text::replaced(ua@, "HeadlessChrome"@, "Chrome"@),
{
    proof {
        reveal_strlit("HeadlessChrome");
    }
    text::replace_all(ua, "HeadlessChrome", "Chrome")
}

/// The bytes of a frame that comes in base64; none where it cannot be decoded.
pub fn decode_frame(data: &str) -> (r: Vec<u8>)
    ensures
        r@ == (match encoding::base64_decoded(data@) {
            Some(b) => b,
            None => Seq::empty(),
        }),
{
    match encoding::decode(data) {
        Some(b) => b,
        None => Vec::new(),
    }
}

/// The bytes of a screenshot that comes in base64.
pub fn decode_screenshot(data: &str) -> (r: Option<Vec<u8>>)
    ensures
        match r {
            Some(b) => encoding::base64_decoded(data@) == Some(b@),
            None => encoding::base64_decoded(data@) is None,
        },
{
    encoding::decode(data)
}

/// One argument of a console call.
#[derive(Debug)]
pub struct ConsoleArg {
    /// The value, as JSON text.
    pub value: Option<String>,
    /// The value, where it is a string.
    pub text: Option<String>,
    pub description: Option<String>,
    pub kind: Option<String>,
}

/// What an argument of a console call holds.
pub struct Arg {
    pub value: Option<Seq<char>>,
    pub text: Option<Seq<char>>,
    pub description: Option<Seq<char>>,
    pub kind: Option<Seq<char>>,
}

impl View for ConsoleArg {
    type V = Arg;

    open spec fn view(&self) -> Arg {
        Arg {
            value: text::opt_view(self.value),
            text: text::opt_view(self.text),
            description: text::opt_view(self.description),
            kind: text::opt_view(self.kind),
        }
    }
}

/// How an argument is shown: a string as it is, any other value as JSON; without
/// a value by its description, else by its type.
pub open spec fn arg_text(a: Arg) -> Seq<char> {
    if a.value is Some {
        match a.text {
            Some(s) => s,
            None => a.value->0,
        }
    } else if a.description is Some {
        a.description->0
    } else {
        match a.kind {
            Some(k) => k,
            None => "?"@,
        }
    }
}

/// The arguments as they are shown, with a space between them.
pub open spec fn args_text(args: Seq<Arg>) -> Seq<char>
    decreases args.len(),
{
    if args.len() == 0 {
        Seq::empty()
    } else if args.len() == 1 {
        arg_text(args[0])
    } else {
        args_text(args.drop_last()).push(' ') + arg_text(args.last())
    }
}

/// What the arguments of a row hold.
pub open spec fn args_view(args: Seq<ConsoleArg>) -> Seq<Arg> {
    args.map_values(|a: ConsoleArg| a@)
}

/// Shows the arguments of a console call.
pub fn console_args_to_text(args: &[ConsoleArg]) -> (r: String)
    ensures
        r@ == args_text(args_view(args@)),
{
    let mut out: String = String::new();
    let ghost all = args_view(args@);
    let mut i: usize = 0;
    assert(all.take(0) =~= Seq::<Arg>::empty());
    while i < args.len()
        invariant
            i <= args@.len(),
            all == args_view(args@),
            out@ == args_text(all.take(i as int)),
        decreases args@.len() - i,
    {
        let a: &ConsoleArg = &args[i];
        if i > 0 {
            out.push(' ');
        }
        match (&a.value, &a.text, &a.description, &a.kind) {
            (Some(_), Some(s), _, _) => out.push_str(s.as_str()),
            (Some(v), None, _, _) => out.push_str(v.as_str()),
            (None, _, Some(d), _) => out.push_str(d.as_str()),
            (None, _, None, Some(k)) => out.push_str(k.as_str()),
            (None, _, None, None) => out.push_str("?"),
        }
        proof {
            let now = all.take(i + 1);
            assert(now.last() == a@);
            assert(now.drop_last() =~= all.take(i as int));
            assert(out@ =~= args_text(now));
        }
        i += 1;
    }
    assert(all.take(args@.len() as int) =~= all);
    out
}

/// What an argument's JSON text holds.
pub open spec fn json_arg(j: Seq<char>) -> Arg {
    Arg {
        value: json::any_member(j, "value"@),
        text: json::str_member(j, "value"@),
        description: json::str_member(j, "description"@),
        kind: json::str_member(j, "type"@),
    }
}

/// Shows the arguments of a console call, each given as a JSON object.
pub fn console_json_to_text(args: &[String]) -> (r: String)
    ensures
        r@ == args_text(text::views(args@).map_values(|j: Seq<char>| json_arg(j))),
{
    let mut parsed: Vec<ConsoleArg> = Vec::new();
    let ghost want = text::views(args@).map_values(|j: Seq<char>| json_arg(j));
    let mut i: usize = 0;
    while i < args.len()
        invariant
            i <= args@.len(),
            want == text::views(args@).map_values(|j: Seq<char>| json_arg(j)),
            args_view(parsed@) =~= want.take(i as int),
        decreases args@.len() - i,
    {
        let j: &str = args[i].as_str();
        let ghost before = args_view(parsed@);
        let a: ConsoleArg = ConsoleArg {
            value: json::get_any(j, "value"),
            text: json::get_str(j, "value"),
            description: json::get_str(j, "description"),
            kind: json::get_str(j, "type"),
        };
        assert(want[i as int] == a@);
        parsed.push(a);
        assert(args_view(parsed@) =~= before.push(a@));
        i += 1;
    }
    assert(want.take(args@.len() as int) =~= want);
    console_args_to_text(parsed.as_slice())
}

/// What is logged of an exception: its description, or else the short text.
pub fn exception_text(description: Option<String>, short: String) -> (r: String)
    ensures
        r@ == (match description {
            Some(d) => d@,
            None => short@,
        }),
{
    match description {
        Some(d) => d,
        None => short,
    }
}

/// A line number in 32 bits.
pub fn line_number(n: Option<i64>) -> (r: Option<u32>)
    ensures
        match n {
            Some(n) => r == Some((n as int % 0x1_0000_0000) as u32),
            None => r is None,
        },
{
    match n {
        Some(n) => {
            let m: i128 = n as i128;
            let low: i128 = if m >= 0 {
                m % 0x1_0000_0000
            } else {
                0xffff_ffff - (-1 - m) % 0x1_0000_0000
            };
            proof {
                if m < 0 {
                    let k = -1 - m;
                    vstd::arithmetic::div_mod::lemma_fundamental_div_mod(k as int, 0x1_0000_0000);
                    vstd::arithmetic::div_mod::lemma_fundamental_div_mod_converse(
                        m as int,
                        0x1_0000_0000,
                        -1 - (k as int / 0x1_0000_0000),
                        low as int,
                    );
                }
            }
            Some(low as u32)
        },
        None => None,
    }
}

/// An event that is not yet in the buffer.
pub open spec fn event(
    kind: Seq<char>,
    method: Option<Seq<char>>,
    url: Seq<char>,
    status: Option<i64>,
    mime: Option<Seq<char>>,
    request_id: Seq<char>,
    request_body: Option<Seq<char>>,
) -> observability::NetworkRecord {
    observability::NetworkRecord {
        seq: 0,
        ts_ms: 0,
        kind,
        method,
        url,
        status,
        mime,
        request_id,
        request_body,
        response_body: None,
        response_body_base64: None,
    }
}

/// The event of a request.
pub fn request_entry(
    method: String,
    url: String,
    request_id: String,
    request_body: Option<String>,
) -> (r: NetworkEntry)
    ensures
        r@ == event(
            "request"@,
            Some(method@),
            url@,
            None,
            None,
            request_id@,
            text::opt_view(request_body),
        ),
{
    NetworkEntry {
        seq: 0,
        ts_ms: 0,
        kind: "request".to_string(),
        method: Some(method),
        url,
        status: None,
        mime: None,
        request_id,
        request_body,
        response_body: None,
        response_body_base64: None,
    }
}

/// The event of a response. Its body comes later.
pub fn response_entry(url: String, status: i64, mime: String, request_id: String) -> (r:
    NetworkEntry)
    ensures
        r@ == event(
            "response"@,
            None,
            url@,
            Some(status),
            Some(mime@),
            request_id@,
            None,
        ),
{
    NetworkEntry {
        seq: 0,
        ts_ms: 0,
        kind: "response".to_string(),
        method: None,
        url,
        status: Some(status),
        mime: Some(mime),
        request_id,
        request_body: None,
        response_body: None,
        response_body_base64: None,
    }
}

/// The event of a request that failed.
pub fn failed_entry(request_id: String) -> (r: NetworkEntry)
    ensures
        r@ == event("failed"@, None, Seq::empty(), None, None, request_id@, None),
{
    NetworkEntry {
        seq: 0,
        ts_ms: 0,
        kind: "failed".to_string(),
        method: None,
        url: String::new(),
        status: None,
        mime: None,
        request_id,
        request_body: None,
        response_body: None,
        response_body_base64: None,
    }
}

/// The text of a piece of a request body: what the base64 stands for, where that
/// is text, else the piece as it came.
pub open spec fn post_data(data: Seq<char>, bytes: Option<Seq<u8>>) -> Seq<char> {
    match bytes {
        Some(b) => if valid_utf8(b) {
            decode_utf8(b)
        } else {
            data
        },
        None => data,
    }
}

/// The text of a piece of a request body, given what its base64 stands for.
pub fn post_data_text(data: &str, bytes: Option<Vec<u8>>) -> (r: String)
    ensures
        r@ == post_data(
            data@,
            match bytes {
                Some(b) => Some(b@),
                None => None,
            },
        ),
{
    match bytes {
        Some(b) => match utf8::decode_strict(b.as_slice()) {
            Ok(s) => s,
            Err(_) => data.to_string(),
        },
        None => data.to_string(),
    }
}

/// Decodes a piece of a request body.
pub fn decode_post_data_entry(data: &str) -> (r: String)
    ensures
        r@ == post_data(data@, encoding::base64_decoded(data@)),
{
    post_data_text(data, encoding::decode(data))
}

/// The pieces of a request body, one after the other; a piece without data adds
/// nothing.
pub open spec fn post_text(pieces: Seq<Option<Seq<char>>>) -> Seq<char>
    decreases pieces.len(),
{
    if pieces.len() == 0 {
        Seq::empty()
    } else {
        post_text(pieces.drop_last()) + match pieces.last() {
            Some(data) => post_data(data, encoding::base64_decoded(data)),
            None => Seq::empty(),
        }
    }
}

/// What the pieces of a row hold.
pub open spec fn pieces_view(v: Seq<Option<String>>) -> Seq<Option<Seq<char>>> {
    v.map_values(|s: Option<String>| text::opt_view(s))
}

/// The text of a request body: none where there are no pieces, or nothing in
/// them.
pub fn request_body(entries: &Option<Vec<Option<String>>>) -> (r: Option<String>)
    ensures
        text::opt_view(r) == (match *entries {
            Some(v) => if post_text(pieces_view(v@)).len() == 0 {
                None
            } else {
                Some(post_text(pieces_view(v@)))
            },
            None => None,
        }),
{
    let v: &Vec<Option<String>> = match entries {
        Some(v) => v,
        None => return None,
    };
    let ghost all = pieces_view(v@);
    let mut out: String = String::new();
    let mut i: usize = 0;
    assert(all.take(0) =~= Seq::<Option<Seq<char>>>::empty());
    while i < v.len()
        invariant
            i <= v@.len(),
            all == pieces_view(v@),
            out@ == post_text(all.take(i as int)),
        decreases v@.len() - i,
    {
        if let Some(data) = &v[i] {
            out.push_str(decode_post_data_entry(data.as_str()).as_str());
        }
        proof {
            let now = all.take(i + 1);
            assert(now.last() == text::opt_view(v@[i as int]));
            assert(now.drop_last() =~= all.take(i as int));
            assert(out@ =~= post_text(now));
        }
        i += 1;
    }
    assert(all.take(v@.len() as int) =~= all);
    if out.as_str().is_empty() {
        None
    } else {
        Some(out)
    }
}

/// A text that was sent in base64 is read back, whatever it is.
pub proof fn law_post_data_read_back(data: Seq<char>, s: Seq<char>)
    requires
        encoding::base64_decoded(data) == Some(encode_utf8(s)),
    ensures
        post_data(data, encoding::base64_decoded(data)) == s,
{
    encode_utf8_valid_utf8(s);
    encode_utf8_decode_utf8(s);
}

/// What the page says of itself, given its answer's members.
pub fn page_info_from(
    url: Option<String>,
    title: Option<String>,
    loading: Option<bool>,
    vp: Option<Viewport>,
) -> (r: PageInfo)
    ensures
        r.url@ == (match url {
            Some(u) => u@,
            None => Seq::empty(),
        }),
        r.title@ == (match title {
            Some(t) => t@,
            None => Seq::empty(),
        }),
        r.viewport == (match vp {
            Some(v) => Some(PageViewport { width_px: v.width_px, height_px: v.height_px }),
            None => None,
        }),
        r.loading == (loading == Some(true)),
{
    PageInfo {
        url: match url {
            Some(u) => u,
            None => String::new(),
        },
        title: match title {
            Some(t) => t,
            None => String::new(),
        },
        viewport: match vp {
            Some(v) => Some(PageViewport { width_px: v.width_px, height_px: v.height_px }),
            None => None,
        },
        loading: match loading {
            Some(b) => b,
            None => false,
        },
    }
}

/// What the page says of itself, given its answer to `PAGE_INFO_JS`, if it gave
/// one.
pub fn page_info(url: Option<String>, answer: Option<&str>, vp: Option<Viewport>) -> (r: PageInfo)
    ensures
        ({
            let doc = match answer {
                Some(a) => a@,
                None => "{}"@,
            };
            &&& r.url@ == (match url {
                Some(u) => u@,
                None => Seq::empty(),
            })
            &&& r.title@ == (match json::str_member(doc, "title"@) {
                Some(t) => t,
                None => Seq::empty(),
            })
            &&& r.viewport == (match vp {
                Some(v) => Some(PageViewport { width_px: v.width_px, height_px: v.height_px }),
                None => None,
            })
            &&& r.loading == (json::bool_member(doc, "loading"@) == Some(true))
        }),
{
    let doc: &str = match answer {
        Some(a) => a,
        None => "{}",
    };
    page_info_from(url, json::get_str(doc, "title"), json::get_bool(doc, "loading"), vp)
}

/// The script that finds the centre of the element that `selector` selects.
pub fn click_selector_js(selector: &str) -> (r: String)
    ensures
        r@ == "(() => { const el = document.querySelector("@ + json::quoted(selector@)
            + "); if (!el) return null; const r = el.getBoundingClientRect(); return JSON.stringify([r.left + r.width/2, r.top + r.height/2]); })()"@,
{
    let mut js: String = "(() => { const el = document.querySelector(".to_string();
    js.push_str(json::quote(selector).as_str());
    js.push_str(
        "); if (!el) return null; const r = el.getBoundingClientRect(); return JSON.stringify([r.left + r.width/2, r.top + r.height/2]); })()",
    );
    js
}

/// What is said of a selector that selects nothing.
pub fn selector_not_found(selector: &str) -> (r: String)
    ensures
        r@ == "selector not found: "@ + selector@,
{
    text::concat("selector not found: ", selector)
}

/// Whether an error is that of a request whose answer did not come in time. The
/// command was given all the same.
pub fn is_request_timeout(e: &str) -> (r: bool)
    ensures
        r == text::occurs(e@, "Request timed out"@),
{
    text::contains_str(e, "Request timed out")
}

/// How a navigation goes on.
#[derive(Debug, Clone, Copy, PartialEq, Eq, Structural)]
pub enum Navigation {
    /// The page loads; watch it.
    Watch,
    /// The page does not load; that is an error.
    Failed,
}

/// How a navigation goes on, given the error of its command, if there was one.
pub fn navigation_after(error: Option<&str>) -> (r: Navigation)
    ensures
        r == (match error {
            Some(e) => if text::occurs(e@, "Request timed out"@) {
                Navigation::Watch
            } else {
                Navigation::Failed
            },
            None => Navigation::Watch,
        }),
{
    match error {
        Some(e) => if is_request_timeout(e) {
            Navigation::Watch
        } else {
            Navigation::Failed
        },
        None => Navigation::Watch,
    }
}

/// How many times a loading page is looked at.
pub const WATCH_POLLS: u32 = 80;

/// From which look on a page that has not moved may be complete.
pub const WATCH_SETTLED: u32 = 10;

/// How long to wait before the first look, in milliseconds.
pub const WATCH_START_MS: u64 = 200;

/// How long to wait between looks, in milliseconds.
pub const WATCH_PAUSE_MS: u64 = 100;

/// The page has loaded: it is complete, and not the page that was left, unless
/// it has been looked at often enough.
pub open spec fn has_loaded(
    attempt: u32,
    ready_state: Option<Seq<char>>,
    href: Option<Seq<char>>,
    before: Option<Seq<char>>,
) -> bool {
    let here = match href {
        Some(h) => h,
        None => Seq::empty(),
    };
    let moved = before matches Some(b) ==> b != here;
    ready_state == Some("complete"@) && (moved || attempt >= WATCH_SETTLED)
}

/// Watches a page until it has loaded.
#[derive(Debug)]
pub struct LoadingWatchdog {
    pub attempt: u32,
    pub before_url: Option<String>,
}

impl LoadingWatchdog {
    /// Watches the page that follows `before_url`.
    pub fn new(before_url: Option<String>) -> (r: Self)
        ensures
            r.attempt == 0,
            r.before_url == before_url,
    {
        LoadingWatchdog { attempt: 0, before_url }
    }

    /// Looks at the page's state and address. The page no longer loads, for the
    /// status line, once this is true: it has loaded, or was looked at for the
    /// last time.
    pub fn look(&mut self, ready_state: Option<&str>, href: Option<&str>) -> (r: bool)
        requires
            old(self).attempt < WATCH_POLLS,
        ensures
            final(self).attempt == old(self).attempt + 1,
            final(self).before_url == old(self).before_url,
            r == (final(self).attempt == WATCH_POLLS || has_loaded(
                old(self).attempt,
                crate::app::str_view(ready_state),
                crate::app::str_view(href),
                text::opt_view(old(self).before_url),
            )),
    {
        let complete: bool = match ready_state {
            Some(s) => text::same_str(s, "complete"),
            None => false,
        };
        let here: &str = match href {
            Some(h) => h,
            None => "",
        };
        proof {
            reveal_strlit("");
            assert(""@ =~= Seq::<char>::empty());
        }
        let moved: bool = match &self.before_url {
            Some(b) => !text::same_str(b.as_str(), here),
            None => true,
        };
        let loaded: bool = complete && (moved || self.attempt >= WATCH_SETTLED);
        self.attempt = self.attempt + 1;
        loaded || self.attempt == WATCH_POLLS
    }

    /// Looks at the page's answer to `READY_STATE_JS`, if it gave one.
    pub fn look_at(&mut self, answer: Option<&str>) -> (r: bool)
        requires
            old(self).attempt < WATCH_POLLS,
        ensures
            final(self).attempt == old(self).attempt + 1,
            final(self).before_url == old(self).before_url,
            r == (final(self).attempt == WATCH_POLLS || has_loaded(
                old(self).attempt,
                match answer {
                    Some(a) => json::str_member(a@, "readyState"@),
                    None => None,
                },
                match answer {
                    Some(a) => json::str_member(a@, "href"@),
                    None => None,
                },
                text::opt_view(old(self).before_url),
            )),
    {
        match answer {
            Some(a) => {
                let state: Option<String> = json::get_str(a, "readyState");
                let href: Option<String> = json::get_str(a, "href");
                self.look(
                    match &state {
                        Some(s) => Some(s.as_str()),
                        None => None,
                    },
                    match &href {
                        Some(s) => Some(s.as_str()),
                        None => None,
                    },
                )
            },
            None => self.look(None, None),
        }
    }
}

/// What the page reports about loading.
#[derive(Debug, Clone, Copy, PartialEq, Eq, Structural)]
pub enum LoadEvent {
    /// A frame began to load.
    Started,
    /// A frame stopped loading.
    Stopped,
    /// The page has loaded.
    Loaded,
}

/// What the rest of the program is told about loading.
#[derive(Debug, Clone, Copy, PartialEq, Eq, Structural)]
pub struct LoadSignal {
    /// Whether the page loads.
    pub loading: bool,
    /// The number of the load, where one was completed.
    pub navigation: Option<u64>,
}

/// What is told after a report, given how many loads were completed before it.
pub fn load_signal(ev: LoadEvent, completed: u64) -> (r: LoadSignal)
    requires
        completed < u64::MAX,
    ensures
        r.loading == (ev == LoadEvent::Started),
        r.navigation == if ev == LoadEvent::Loaded {
            Some((completed + 1) as u64)
        } else {
            None
        },
{
    match ev {
        LoadEvent::Started => LoadSignal { loading: true, navigation: None },
        LoadEvent::Stopped => LoadSignal { loading: false, navigation: None },
        LoadEvent::Loaded => LoadSignal { loading: false, navigation: Some(completed + 1) },
    }
}

/// The browser's number for a set of modifiers: Alt is 1, Ctrl 2, Meta 4, Shift 8.
pub open spec fn mods_number(m: Mods) -> int {
    (if m.alt {
        1int
    } else {
        0
    }) + (if m.ctrl {
        2int
    } else {
        0
    }) + (if m.meta {
        4int
    } else {
        0
    }) + (if m.shift {
        8int
    } else {
        0
    })
}

/// The browser's number for a set of modifiers.
pub fn encode_mods(m: Mods) -> (r: i64)
    ensures
        r == mods_number(m),
{
    let mut bits: i64 = 0;
    if m.alt {
        bits += 1;
    }
    if m.ctrl {
        bits += 2;
    }
    if m.meta {
        bits += 4;
    }
    if m.shift {
        bits += 8;
    }
    bits
}

/// Different sets of modifiers have different numbers.
pub proof fn law_mods_number_injective(a: Mods, b: Mods)
    requires
        mods_number(a) == mods_number(b),
    ensures
        a == b,
{
}

/// A key as the browser knows it.
#[derive(Debug, Clone, PartialEq, Eq)]
pub struct KeyDef {
    pub key: String,
    pub key_code: i64,
    pub code: String,
    pub text: Option<String>,
}

/// What a key as the browser knows it holds.
pub struct KeyDesc {
    pub key: Seq<char>,
    pub key_code: int,
    pub code: Seq<char>,
    pub text: Option<Seq<char>>,
}

impl View for KeyDef {
    type V = KeyDesc;

    open spec fn view(&self) -> KeyDesc {
        KeyDesc {
            key: self.key@,
            key_code: self.key_code as int,
            code: self.code@,
            text: text::opt_view(self.text),
        }
    }
}

/// A key whose name and code are the same word.
pub open spec fn named(name: Seq<char>, key_code: int, typed: Option<Seq<char>>) -> KeyDesc {
    KeyDesc { key: name, key_code, code: name, text: typed }
}

/// How the browser knows a key. A character types itself; of the named keys only
/// Enter types anything.
pub open spec fn key_desc(key: Key) -> KeyDesc {
    match key {
        Key::Enter => named("Enter"@, 13, Some("\r"@)),
        Key::Backspace => named("Backspace"@, 8, None),
        Key::Tab => named("Tab"@, 9, None),
        Key::Esc => named("Escape"@, 27, None),
        Key::Up => named("ArrowUp"@, 38, None),
        Key::Down => named("ArrowDown"@, 40, None),
        Key::Left => named("ArrowLeft"@, 37, None),
        Key::Right => named("ArrowRight"@, 39, None),
        Key::Home => named("Home"@, 36, None),
        Key::End => named("End"@, 35, None),
        Key::PageUp => named("PageUp"@, 33, None),
        Key::PageDown => named("PageDown"@, 34, None),
        Key::Delete => named("Delete"@, 46, None),
        Key::F(n) => named("F"@ + text::dec(n as nat), 111 + n, None),
        Key::Char(c) => KeyDesc {
            key: seq![c],
            key_code: text::ascii_upper(c) as int,
            code: if text::is_letter(c) {
                "Key"@ + seq![text::ascii_upper(c)]
            } else if text::is_digit(c) {
                "Digit"@ + seq![c]
            } else {
                Seq::empty()
            },
            text: Some(seq![c]),
        },
    }
}

/// Puts a key's definition together.
pub fn key_def(key: &str, key_code: i64, code: &str, text: Option<&str>) -> (r: KeyDef)
    ensures
        r@ == (KeyDesc {
            key: key@,
            key_code: key_code as int,
            code: code@,
            text: crate::app::str_view(text),
        }),
{
    KeyDef {
        key: key.to_string(),
        key_code,
        code: code.to_string(),
        text: match text {
            Some(t) => Some(t.to_string()),
            None => None,
        },
    }
}

/// How the browser knows a key.
pub fn key_to_cdp(key: Key) -> (r: KeyDef)
    ensures
        r@ == key_desc(key),
{
    match key {
        Key::Enter => key_def("Enter", 13, "Enter", Some("\r")),
        Key::Backspace => key_def("Backspace", 8, "Backspace", None),
        Key::Tab => key_def("Tab", 9, "Tab", None),
        Key::Esc => key_def("Escape", 27, "Escape", None),
        Key::Up => key_def("ArrowUp", 38, "ArrowUp", None),
        Key::Down => key_def("ArrowDown", 40, "ArrowDown", None),
        Key::Left => key_def("ArrowLeft", 37, "ArrowLeft", None),
        Key::Right => key_def("ArrowRight", 39, "ArrowRight", None),
        Key::Home => key_def("Home", 36, "Home", None),
        Key::End => key_def("End", 35, "End", None),
        Key::PageUp => key_def("PageUp", 33, "PageUp", None),
        Key::PageDown => key_def("PageDown", 34, "PageDown", None),
        Key::Delete => key_def("Delete", 46, "Delete", None),
        Key::F(n) => {
            let mut name: String = "F".to_string();
            text::push_dec(&mut name, n as u64);
            key_def(name.as_str(), 111 + n as i64, name.as_str(), None)
        },
        Key::Char(c) => {
            let up: char = text::upper(c);
            let mut code: String = String::new();
            if text::letter(c) {
                code.push_str("Key");
                code.push(up);
                assert(code@ =~= "Key"@ + seq![up]);
            } else if '0' <= c && c <= '9' {
                code.push_str("Digit");
                code.push(c);
                assert(code@ =~= "Digit"@ + seq![c]);
            }
            let mut key: String = String::new();
            key.push(c);
            assert(key@ =~= seq![c]);
            KeyDef { key: key.clone(), key_code: up as u32 as i64, code, text: Some(key) }
        },
    }
}

/// The kinds of key events.
#[derive(Debug, Clone, Copy, PartialEq, Eq, Structural)]
pub enum KeyEventKind {
    /// A key went down that types nothing.
    RawKeyDown,
    /// A key went down.
    KeyDown,
    /// A key went up.
    KeyUp,
}

/// One key event for the page.
#[derive(Debug)]
pub struct KeyDispatch {
    pub kind: KeyEventKind,
    pub modifiers: i64,
    pub def: KeyDef,
}

/// The key event for the page: a named key that types nothing goes down raw.
pub fn key_dispatch(key: Key, mods: Mods, down: bool) -> (r: KeyDispatch)
    ensures
        r.def@ == key_desc(key),
        r.modifiers == mods_number(mods),
        r.kind == if !down {
            KeyEventKind::KeyUp
        } else if key_desc(key).text is None && encode_utf8(key_desc(key).key).len() > 1 {
            KeyEventKind::RawKeyDown
        } else {
            KeyEventKind::KeyDown
        },
{
    let def: KeyDef = key_to_cdp(key);
    let kind: KeyEventKind = if down && def.text.is_none() && def.key.as_str().as_bytes().len()
        > 1 {
        KeyEventKind::RawKeyDown
    } else if down {
        KeyEventKind::KeyDown
    } else {
        KeyEventKind::KeyUp
    };
    KeyDispatch { kind, modifiers: encode_mods(mods), def }
}

/// A key types what it says: a character types itself and nothing else does but
/// Enter.
pub proof fn law_only_text_types(key: Key)
    ensures
        key matches Key::Char(c) ==> key_desc(key).text == Some(seq![c]),
        key_desc(key).text is Some ==> key is Char || key is Enter,
{
}

/// One mouse event of a click.
#[derive(Debug, Clone, Copy, PartialEq, Eq, Structural)]
pub enum ClickEvent {
    /// The pointer moves to the place.
    Moved,
    /// The button goes down; `held` are the buttons that are down then.
    Pressed { button: MouseButton, held: i64 },
    /// The button goes up.
    Released { button: MouseButton, held: i64 },
}

/// The bit of a button: left 1, right 2, middle 4.
pub open spec fn button_bit(b: MouseButton) -> i64 {
    match b {
        MouseButton::Left => 1,
        MouseButton::Right => 2,
        MouseButton::Middle => 4,
    }
}

/// The events of a click: the pointer comes first, so that the place is the one
/// under it; then the button goes down and up.
pub open spec fn click_sequence(b: MouseButton) -> Seq<ClickEvent> {
    seq![
        ClickEvent::Moved,
        ClickEvent::Pressed { button: b, held: button_bit(b) },
        ClickEvent::Released { button: b, held: 0 },
    ]
}

/// The events of a click.
pub fn click_events(button: MouseButton) -> (r: Vec<ClickEvent>)
    ensures
        r@ == click_sequence(button),
{
    let held: i64 = match button {
        MouseButton::Left => 1,
        MouseButton::Right => 2,
        MouseButton::Middle => 4,
    };
    let mut out: Vec<ClickEvent> = Vec::new();
    out.push(ClickEvent::Moved);
    out.push(ClickEvent::Pressed { button, held });
    out.push(ClickEvent::Released { button, held: 0 });
    assert(out@ =~= click_sequence(button));
    out
}

/// The buttons that are down after an event.
pub open spec fn held_after(ev: ClickEvent, before: i64) -> i64 {
    match ev {
        ClickEvent::Moved => before,
        ClickEvent::Pressed { held, .. } => held,
        ClickEvent::Released { held, .. } => held,
    }
}

/// A click leaves no button down, whatever was down before it.
pub proof fn law_click_releases(b: MouseButton, before: i64)
    ensures
        ({
            let s = click_sequence(b);
            held_after(s[2], held_after(s[1], held_after(s[0], before))) == 0
        }),
{
}

} // verus!
