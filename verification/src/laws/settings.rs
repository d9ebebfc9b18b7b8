//! What the configuration comes to, what the terminal is asked and told, and what
//! the page says of itself.

use crate::browser;
use crate::cli;
use crate::cli::Cli;
use crate::config;
use crate::config::{Config, Defaults, FileConfig, FileMcpConfig, McpConfig};
use crate::error::Error;
use crate::geometry::{CellSize, Viewport};
use crate::json;
use crate::observability::PageInfo;
use crate::terminal::capability;
use crate::terminal::capability::{ReadEvent, ReadNext, ReplyReader};
use crate::terminal::raw;
use crate::terminal::raw::RestoreGuard;
use crate::text;
use crate::zoom;
use crate::zoom::Zoom;
use vstd::prelude::*;

verus! {

/// The quality is the one on the command line, else the one in the file, else 92,
/// each brought between 1 and 100.
pub proof fn law_quality<P>(
    c: Cli<P>,
    file: Option<FileConfig>,
    d: Defaults<P>,
    r: Result<Config<P>, Error>,
)
    requires
        call_ensures(Config::<P>::resolve, (c, file, d), r),
    ensures
        ({
            let in_file = file is Some && file->0.quality is Some;
            let q: u8 = if c.quality is Some {
                c.quality->0
            } else if in_file {
                file->0.quality->0
            } else {
                92
            };
            &&& r is Ok
            &&& 1 <= q <= 100 ==> r->Ok_0.quality == q
            &&& q == 0 ==> r->Ok_0.quality == 1
            &&& q > 100 ==> r->Ok_0.quality == 100
        }),
{
}

/// The directory, the binary and the address on the command line are the ones;
/// without them the profile is the machine's, no binary is named, and the page is
/// blank.
pub proof fn law_paths_and_address<P>(
    c: Cli<P>,
    file: Option<FileConfig>,
    d: Defaults<P>,
    r: Result<Config<P>, Error>,
)
    requires
        call_ensures(Config::<P>::resolve, (c, file, d), r),
    ensures
        r is Ok,
        c.profile_dir matches Some(p) ==> r->Ok_0.profile_dir == p,
        c.profile_dir is None ==> r->Ok_0.profile_dir == d.profile_dir,
        r->Ok_0.chrome == c.chrome,
        r->Ok_0.log_path == d.log_path,
        c.url matches Some(u) ==> r->Ok_0.start_url@ == u@,
        c.url is None ==> r->Ok_0.start_url@ == "about:blank"@,
{
}

/// The server is on, has its port and allows control as the command line says,
/// else as the file says, and is off and allows none where neither says anything.
pub proof fn law_server_settings<P>(
    c: Cli<P>,
    file: Option<FileConfig>,
    d: Defaults<P>,
    r: Result<Config<P>, Error>,
)
    requires
        call_ensures(Config::<P>::resolve, (c, file, d), r),
    ensures
        ({
            let m = r->Ok_0.mcp;
            let f = if file is Some && file->0.mcp is Some {
                file->0.mcp->0
            } else {
                FileMcpConfig { enabled: None, port: None, allow_control: None }
            };
            &&& r is Ok
            &&& c.mcp_on && !c.mcp_off ==> m.enabled
            &&& !c.mcp_on && c.mcp_off ==> !m.enabled
            &&& c.mcp_on == c.mcp_off ==> m.enabled == (f.enabled == Some(true))
            &&& c.mcp_allow_control_on && !c.mcp_allow_control_off ==> m.allow_control
            &&& !c.mcp_allow_control_on && c.mcp_allow_control_off ==> !m.allow_control
            &&& c.mcp_allow_control_on == c.mcp_allow_control_off ==> m.allow_control == (
            f.allow_control == Some(true))
            &&& c.mcp_port is Some ==> m.port == c.mcp_port
            &&& c.mcp_port is None ==> m.port == f.port
        }),
{
}

/// The zoom factor is the one on the command line, else the one in the file, each
/// where it is greater than zero and then between one half and four; else the
/// display's scale between one and three.
pub proof fn law_zoom<P>(
    c: Cli<P>,
    file: Option<FileConfig>,
    d: Defaults<P>,
    r: Result<Config<P>, Error>,
)
    requires
        call_ensures(Config::<P>::resolve, (c, file, d), r),
    ensures
        ({
            let z = r->Ok_0.zoom;
            let given = c.zoom is Some && 0 < c.zoom->0.bits <= zoom::INFINITY;
            let in_file = file is Some && file->0.zoom is Some && 0 < file->0.zoom->0.bits
                <= zoom::INFINITY;
            &&& r is Ok
            &&& given ==> z == c.zoom->0.clamped(zoom::HALF, zoom::FOUR)
            &&& !given && in_file ==> z == file->0.zoom->0.clamped(zoom::HALF, zoom::FOUR)
            &&& !given && !in_file ==> z == d.display_scale.clamped(zoom::ONE, zoom::THREE)
        }),
{
}

/// A flag and its opposite together say as little as neither.
pub proof fn law_opposite_flags(on: bool)
    ensures
        cli::switch_of(on, on) is None,
        cli::switch_of(true, false) == Some(true),
        cli::switch_of(false, true) == Some(false),
{
}

/// A number between the bounds stays, one below goes to the lower bound, as every
/// negative one does, and one above to the upper bound; what is no number stays.
pub proof fn law_clamping(z: Zoom, lo: u64, hi: u64)
    requires
        0 < lo <= hi <= zoom::INFINITY,
    ensures
        lo <= z.bits <= hi ==> z.clamped(lo, hi) == z,
        z.bits < lo ==> z.clamped(lo, hi).bits == lo,
        hi < z.bits <= 0x7ff0_0000_0000_0000 ==> z.clamped(lo, hi).bits == hi,
        0x8000_0000_0000_0000 <= z.bits <= 0xfff0_0000_0000_0000 ==> z.clamped(lo, hi).bits == lo,
        0x7ff0_0000_0000_0000 < z.bits < 0x8000_0000_0000_0000 ==> z.clamped(lo, hi) == z,
        z.bits > 0xfff0_0000_0000_0000 ==> z.clamped(lo, hi) == z,
{
}

/// The bounds are doubles: a power of two has its exponent above the fraction, and
/// three is halfway between two and four.
pub proof fn law_bounds_are_doubles()
    ensures
        zoom::HALF == 1022 * 0x10_0000_0000_0000,
        zoom::ONE == 1023 * 0x10_0000_0000_0000,
        2 * zoom::THREE == (1024 + 1025) * 0x10_0000_0000_0000,
        zoom::FOUR == 1025 * 0x10_0000_0000_0000,
        zoom::INFINITY == 2047 * 0x10_0000_0000_0000,
{
}

/// The browser's own scale is the zoom factor between one half and four.
pub proof fn law_browser_scale(z: Zoom, r: Zoom)
    requires
        call_ensures(browser::device_scale, (z,), r),
    ensures
        r == z.clamped(zoom::HALF, zoom::FOUR),
{
}

/// Each error says what went wrong, with what it is about.
pub proof fn law_error_messages(e: Error, r: String)
    requires
        call_ensures(Error::message, (&e,), r),
    ensures
        e matches Error::UnsupportedTerminal(why) ==> r@
            == "terminal is not Kitty-graphics capable: "@ + why@,
        e is ChromeNotFound ==> r@
            == "chrome binary not found; set $WEBCAT_CHROME or install Google Chrome"@,
        e matches Error::ProfileLocked(path) ==> r@
            == "profile is locked by another webcat/chrome instance: "@ + path@,
        e is BrowserDisconnected ==> r@ == "browser disconnected"@,
        e matches Error::Io(m) ==> r@ == "io error: "@ + m@,
        e matches Error::Other(m) ==> r@ == m@,
{
}

/// A cell is as large as the terminal says; where it says nothing that can be
/// read, eight by sixteen pixels.
pub proof fn law_cell_size(reply: &str, r: CellSize)
    requires
        call_ensures(capability::cell_size_from_reply, (reply,), r),
    ensures
        capability::cell_size_report(reply@) matches Some(c) ==> r == c,
        capability::cell_size_report(reply@) is None ==> r.w == 8 && r.h == 16,
{
}

/// Whatever is read as a cell's size is a report that begins with a six and ends
/// in `t`, with the height and then the width between.
pub proof fn law_only_size_reports(s: Seq<char>, c: CellSize)
    requires
        capability::cell_size_report(s) == Some(c),
    ensures
        s[0] == '\x1b' && s[1] == '[' && s.last() == 't',
        text::fields(s.subrange(2, s.len() - 1), ';')[0] == seq!['6'],
        text::fields(s.subrange(2, s.len() - 1), ';').len() >= 3,
        text::parsed_unsigned(text::fields(s.subrange(2, s.len() - 1), ';')[1], u16::MAX as nat)
            == Some(c.h as nat),
        text::parsed_unsigned(text::fields(s.subrange(2, s.len() - 1), ';')[2], u16::MAX as nat)
            == Some(c.w as nat),
{
}

/// The terminal takes graphics exactly where its answer is one about graphics and
/// says so.
pub proof fn law_graphics_answer(reply: &str, r: bool)
    requires
        call_ensures(capability::graphics_from_reply, (reply,), r),
    ensures
        r <==> text::occurs(reply@, "\x1b_G"@) && text::occurs(reply@, ";OK"@),
{
}

/// Without graphics the browser does not run, and says why.
pub proof fn law_graphics_are_needed(graphics: bool, r: Result<(), Error>)
    requires
        call_ensures(capability::check_graphics, (graphics,), r),
    ensures
        graphics <==> r is Ok,
        r matches Err(e) ==> (e matches Error::UnsupportedTerminal(why) && why@
            == "Kitty graphics protocol not detected"@),
{
}

/// What the terminal is asked, and what ends its answers: `t` and a backslash.
pub proof fn law_questions()
    ensures
        capability::CELL_SIZE_QUERY@ == "\x1b[16t"@,
        capability::GRAPHICS_QUERY@ == "\x1b_Gi=31,s=1,v=1,a=q,t=d,f=24;AAAA\x1b\\"@,
        capability::CELL_SIZE_END == 't' as u8,
        capability::GRAPHICS_END == '\\' as u8,
{
}

/// An answer is collected byte by byte, the last one included, and ends with it;
/// an error ends it too, and silence is waited out.
pub proof fn law_answer_is_collected(reader: &mut ReplyReader, ev: ReadEvent, r: ReadNext)
    requires
        call_ensures(ReplyReader::on_read, (reader, ev), r),
    ensures
        final(reader).terminator == old(reader).terminator,
        ev matches ReadEvent::Byte(b) ==> final(reader).bytes@ == old(reader).bytes@.push(b) && (r
            == ReadNext::Stop <==> b == old(reader).terminator) && (r == ReadNext::Again <==> b
            != old(reader).terminator),
        ev is Empty ==> final(reader).bytes@ == old(reader).bytes@ && r == ReadNext::Pause,
        ev is Failed ==> final(reader).bytes@ == old(reader).bytes@ && r == ReadNext::Stop,
{
}

/// The terminal is set up in this order, and put back in the opposite one.
pub proof fn law_setup_escapes()
    ensures
        raw::setup_text() == "\x1b[?1049h\x1b[?25l\x1b[>1u\x1b[?1003h\x1b[?1006h"@,
        raw::restore_text() == "\x1b[?1006l\x1b[?1003l\x1b[<u\x1b[?25h\x1b[?1049l"@,
{
    reveal_strlit("\x1b[?1049h");
    reveal_strlit("\x1b[?1049l");
    reveal_strlit("\x1b[?25l");
    reveal_strlit("\x1b[?25h");
    reveal_strlit("\x1b[>1u");
    reveal_strlit("\x1b[<u");
    reveal_strlit("\x1b[?1003h\x1b[?1006h");
    reveal_strlit("\x1b[?1006l\x1b[?1003l");
    reveal_strlit("\x1b[?1049h\x1b[?25l\x1b[>1u\x1b[?1003h\x1b[?1006h");
    reveal_strlit("\x1b[?1006l\x1b[?1003l\x1b[<u\x1b[?25h\x1b[?1049l");
    assert(raw::setup_text() =~= "\x1b[?1049h\x1b[?25l\x1b[>1u\x1b[?1003h\x1b[?1006h"@);
    assert(raw::restore_text() =~= "\x1b[?1006l\x1b[?1003l\x1b[<u\x1b[?25h\x1b[?1049l"@);
}

/// The terminal is put back once: whoever comes first has it to do, and nobody
/// else has.
pub proof fn law_put_back_once(g: &mut RestoreGuard, r: Option<String>)
    requires
        call_ensures(RestoreGuard::restore, (g,), r),
    ensures
        !final(g).active,
        old(g).active <==> r is Some,
        r matches Some(s) ==> s@ == raw::restore_text(),
{
}

/// A terminal that is set up has a guard from the start, which has it put back.
pub proof fn law_guarded_from_the_start(r: (RestoreGuard, String), reader: ReplyReader, end: u8)
    requires
        call_ensures(RestoreGuard::entered, (), r),
        call_ensures(ReplyReader::new, (end,), reader),
    ensures
        r.0.active,
        r.1@ == raw::setup_text(),
        reader.terminator == end,
        reader.bytes@.len() == 0,
{
}

/// What the page is asked about itself is answered by the members that are read.
pub proof fn law_page_questions()
    ensures
        browser::PAGE_INFO_JS@
            == "JSON.stringify({ title: document.title, loading: document.readyState !== 'complete' })"@,
        browser::READY_STATE_JS@
            == "JSON.stringify({ href: location.href, readyState: document.readyState })"@,
{
}

/// A page is described by what it answered; what it did not answer is empty, and
/// then it does not load.
pub proof fn law_page_description(
    url: Option<String>,
    answer: Option<&str>,
    vp: Option<Viewport>,
    r: PageInfo,
)
    requires
        call_ensures(browser::page_info, (url, answer, vp), r),
    ensures
        url matches Some(u) ==> r.url@ == u@,
        url is None ==> r.url@.len() == 0,
        answer matches Some(a) ==> r.title@ == (match json::str_member(a@, "title"@) {
            Some(t) => t,
            None => Seq::empty(),
        }),
        answer matches Some(a) ==> r.loading == (json::bool_member(a@, "loading"@) == Some(true)),
        vp is None <==> r.viewport is None,
        vp matches Some(v) ==> r.viewport->0.width_px == v.width_px && r.viewport->0.height_px
            == v.height_px,
{
}

/// The element to click is looked up by the selector, written as a JSON string,
/// and the click goes to the middle of it; a selector that selects nothing is
/// named.
pub proof fn law_selector_script(selector: &str, js: String, message: String)
    requires
        call_ensures(browser::click_selector_js, (selector,), js),
        call_ensures(browser::selector_not_found, (selector,), message),
    ensures
        js@ == "(() => { const el = document.querySelector("@ + json::quoted(selector@)
            + "); if (!el) return null; const r = el.getBoundingClientRect(); return JSON.stringify([r.left + r.width/2, r.top + r.height/2]); })()"@,
        message@ == "selector not found: "@ + selector@,
{
}

proof fn lemma_escaped_char(c: char, k: int)
    requires
        0 <= k < json::escaped_char(c).len(),
    ensures
        json::escaped_char(c)[k] as u32 >= 32,
        json::escaped_char(c)[k] == '"' ==> k > 0 && json::escaped_char(c)[k - 1] == '\\',
{
    if c as u32 <= 31 {
        let d = c as int;
        assert(0 <= d / 16 <= 1 && 0 <= d % 16 < 16);
    }
}

/// A JSON string is one line that ends where it ends: inside it no control
/// character and no bare quote is left.
pub proof fn law_quoted_is_safe(s: Seq<char>, i: int)
    requires
        0 <= i < json::escaped(s).len(),
    ensures
        json::escaped(s)[i] as u32 >= 32,
        json::escaped(s)[i] == '"' ==> i > 0 && json::escaped(s)[i - 1] == '\\',
        json::quoted(s) == seq!['"'] + json::escaped(s) + seq!['"'],
    decreases s.len(),
{
    let before = json::escaped(s.drop_last());
    let last = json::escaped_char(s.last());
    if i < before.len() {
        law_quoted_is_safe(s.drop_last(), i);
        assert(json::escaped(s)[i] == before[i]);
        if i > 0 {
            assert(json::escaped(s)[i - 1] == before[i - 1]);
        }
    } else {
        let k = i - before.len();
        lemma_escaped_char(s.last(), k);
        assert(json::escaped(s)[i] == last[k]);
        if k > 0 {
            assert(json::escaped(s)[i - 1] == last[k - 1]);
        }
    }
}

} // verus!
