//! The functions hand back what the laws speak of.

use crate::app;
use crate::app::Conflict;
use crate::browser;
use crate::browser::profile;
use crate::browser::profile::{KillStep, ProfileKiller};
use crate::browser::{Clickable, ClickEvent, KeyDef};
use crate::config::FileConfig;
use crate::geometry;
use crate::geometry::{CellSize, GridSize, HalfPx, Viewport};
use crate::input;
use crate::input::action::Action;
use crate::input::hints;
use crate::input::{InputMapper, Mode};
use crate::mcp::install;
use crate::mcp::install::Agent;
use crate::mcp::server;
use crate::mcp::server::{McpError, ToolCall, ToolPlan, WebcatMcp};
use crate::observability;
use crate::observability::{NetworkEntry, ObservabilityStore};
use crate::renderer;
use crate::renderer::graphics;
use crate::renderer::shm;
use crate::renderer::shm::ShmCall;
use crate::renderer::{HintBox, Renderer, Rgba, Transmission};
use crate::session;
use crate::session::{Effect, Pacer, Session, SizeWatch};
use crate::terminal::capability;
use crate::terminal::input::{classify, drain_tokens, RawInput, Router};
use crate::terminal::keyboard;
use crate::terminal::keyboard::{Key, KeyEvent, Mods};
use crate::terminal::mouse;
use crate::terminal::mouse::{MouseButton, MouseEvent};
use crate::terminal::raw;
use crate::text;
use crate::ui;
use crate::ui::{Label, Ui};
use vstd::prelude::*;
use vstd::utf8::*;

verus! {

/// A mouse report for a cell is parsed as what its code's bits say, in that cell.
pub proof fn law_mouse_report_is_parsed(
    s: &str,
    cb: u32,
    col: u16,
    row: u16,
    release: bool,
    r: Option<MouseEvent>,
)
    requires
        col < u16::MAX,
        row < u16::MAX,
        s@ == crate::laws::terminal::mouse_report(cb, col, row, release),
        call_ensures(mouse::parse_sgr_mouse, (s,), r),
    ensures
        cb / 64 % 2 == 0 && cb / 32 % 2 == 1 ==> r == Some(
            MouseEvent { kind: mouse::MouseKind::Move, col, row },
        ),
        cb / 64 % 2 == 1 && cb % 4 == 0 ==> r == Some(
            MouseEvent { kind: mouse::MouseKind::WheelUp, col, row },
        ),
        cb / 64 % 2 == 1 && cb % 4 == 1 ==> r == Some(
            MouseEvent { kind: mouse::MouseKind::WheelDown, col, row },
        ),
        cb / 64 % 2 == 1 && cb % 4 >= 2 ==> r is None,
        cb / 64 % 2 == 0 && cb / 32 % 2 == 0 ==> r is Some && r->0.col == col && r->0.row == row && (
        release <==> r->0.kind is Up) && (!release <==> r->0.kind is Down),
{
    if cb / 64 % 2 == 1 {
        crate::laws::terminal::law_wheel_turns(cb, col, row, release);
    } else if cb / 32 % 2 == 1 {
        crate::laws::terminal::law_motion_is_a_move(cb, col, row, release);
    } else {
        crate::laws::terminal::law_buttons_go_down_and_up(cb, col, row);
    }
}

/// Tokens are read as reports, keys and text; what is read is what they mean.
pub proof fn law_tokens_are_read(
    s: &str,
    m: Option<MouseEvent>,
    k: Option<KeyEvent>,
    i: Option<RawInput>,
    c: Option<CellSize>,
)
    requires
        call_ensures(mouse::parse_sgr_mouse, (s,), m),
        call_ensures(keyboard::parse_kitty_key, (s,), k),
        call_ensures(classify, (s,), i),
        call_ensures(capability::parse_cell_size_report, (s,), c),
    ensures
        m == mouse::sgr_mouse(s@),
        k is Some <==> keyboard::kitty_key(s@) is Some,
        k matches Some(ev) ==> keyboard::kitty_key(s@) == Some(ev@),
        i is Some <==> crate::terminal::input::meaning(s@) is Some,
        i matches Some(ev) ==> crate::terminal::input::meaning(s@) == Some(ev@),
        c == capability::cell_size_report(s@),
{
}

/// The bytes that were read come out as tokens, and what is not complete stays.
pub proof fn law_bytes_are_drained(buf: &mut Vec<u8>, r: Vec<String>)
    requires
        call_ensures(drain_tokens, (buf,), r),
    ensures
        text::views(r@) == crate::terminal::input::tokens(old(buf)@),
        final(buf)@ == old(buf)@.skip(crate::terminal::input::consumed(old(buf)@)),
{
}

/// The router begins outside a reply and takes each token as its state says.
pub proof fn law_tokens_are_routed(a: Router, x: &mut Router, token: &str, r: Option<RawInput>)
    requires
        call_ensures(Router::new, (), a),
        call_ensures(Router::route, (x, token), r),
    ensures
        a.state == crate::terminal::input::ReplyState::Outside,
        final(x).state == crate::terminal::input::routed(old(x).state, token@).0,
        crate::terminal::input::input_view(r) == crate::terminal::input::routed(
            old(x).state,
            token@,
        ).1,
{
}

/// The escapes for the terminal are written as they are.
pub proof fn law_terminal_is_set_up(a: String, b: String)
    requires
        call_ensures(raw::setup_escapes, (), a),
        call_ensures(raw::restore_escapes, (), b),
    ensures
        a@ == "\x1b[?1049h\x1b[?25l\x1b[>1u\x1b[?1003h\x1b[?1006h"@,
        b@ == "\x1b[?1006l\x1b[?1003l\x1b[<u\x1b[?25h\x1b[?1049l"@,
{
    crate::laws::settings::law_setup_escapes();
}

/// The modifiers are read from their number, and sent under the browser's.
pub proof fn law_modifiers_are_carried(m: u32, mods: Mods, a: Mods, n: i64)
    requires
        call_ensures(Mods::from_encoded, (m,), a),
        call_ensures(browser::encode_mods, (mods,), n),
    ensures
        a == keyboard::mods_of(m),
        n == browser::mods_number(mods),
{
}

/// What was typed is opened: an address as it stands, a word with a dot over
/// HTTPS, a file by its path, and anything else as a search for it.
pub proof fn law_typed_text_is_opened(input: &str, path: &str, a: String, b: String)
    requires
        call_ensures(app::normalize_url, (input, None), a),
        call_ensures(app::normalize_url, (input, Some(path)), b),
    ensures
        ({
            let t = text::trimmed(input@);
            let site = "https://www.google.com/search?q="@;
            let dot = exists|i: int| 0 <= i < t.len() && t[i] == '.';
            let space = exists|i: int| 0 <= i < t.len() && t[i] == ' ';
            if crate::laws::address::names_scheme(t) {
                a@ == t && b@ == t
            } else {
                &&& dot && !space ==> a@ == "https://"@ + t
                &&& !dot || space ==> site.is_prefix_of(a@) && app::decoded(
                    a@.skip(site.len() as int),
                    true,
                ) == encode_utf8(t)
                &&& t.len() > 0 ==> "file://"@.is_prefix_of(b@) && app::decoded(
                    b@.skip("file://"@.len() as int),
                    false,
                ) == encode_utf8(path@)
                &&& t.len() == 0 ==> b@ == a@
            }
        }),
{
    let t = text::trimmed(input@);
    if crate::laws::address::names_scheme(t) {
        crate::laws::address::law_address_is_kept(input@, None);
        crate::laws::address::law_address_is_kept(input@, Some(path@));
    } else {
        let dot = exists|i: int| 0 <= i < t.len() && t[i] == '.';
        let space = exists|i: int| 0 <= i < t.len() && t[i] == ' ';
        if dot && !space {
            crate::laws::address::law_host_is_opened(input@);
        } else {
            crate::laws::address::law_text_is_searched(input@);
        }
        if t.len() > 0 {
            crate::laws::address::law_file_is_opened(input@, path@);
        } else {
            crate::laws::address::law_no_file(t, Some(path@));
            crate::laws::address::law_no_file(t, None);
        }
    }
}

/// The parts of addresses, the sizes of pictures, the places of scrolls and the
/// answers of users are found as they are.
pub proof fn law_small_decisions(
    s: &str,
    canonical: Option<&str>,
    b: &[u8],
    x: HalfPx,
    y: HalfPx,
    last: Option<(HalfPx, HalfPx)>,
    vp: Viewport,
    query: String,
    path: String,
    trimmed: String,
    url: Option<String>,
    size: Option<(u32, u32)>,
    place: (HalfPx, HalfPx),
    answer: Conflict,
)
    requires
        call_ensures(app::urlencode, (s,), query),
        call_ensures(app::encode_file_path, (s,), path),
        call_ensures(app::typed_path, (s,), trimmed),
        call_ensures(app::file_url_if_path, (s, canonical), url),
        call_ensures(app::jpeg_dims, (b,), size),
        call_ensures(app::scroll_target, (x, y, last, vp), place),
        call_ensures(app::conflict_answer, (Some(s),), answer),
    ensures
        query@ == app::encoded(encode_utf8(s@), true),
        path@ == app::encoded(encode_utf8(s@), false),
        trimmed@ == text::trimmed(s@),
        text::opt_view(url) == app::file_url(s@, app::str_view(canonical)),
        size == app::picture_size(b@),
        place == app::scroll_place(x, y, last, vp),
        answer == app::answered(Some(s@)),
{
}

/// The status line is written for the mode, the address and the state that it is
/// asked for.
pub proof fn law_status_is_written(
    u: &Ui,
    mode: Mode,
    url: &str,
    buffer: &str,
    control: bool,
    loading: bool,
    phase: u16,
    r: Vec<u8>,
)
    requires
        call_ensures(app::write_status, (u, mode, url, buffer, control, loading, phase), r),
    ensures
        ({
            let line = ui::status_line(
                u.grid,
                app::status_content(mode, url@, control),
                loading,
                phase,
            );
            r@ == encode_utf8(
                if mode == Mode::UrlInput {
                    line + ui::prompt_line(u.grid, buffer@)
                } else {
                    line
                },
            )
        }),
{
}

/// A key is known to the browser as what it is, and a click is its events.
pub proof fn law_keys_and_clicks(
    key: Key,
    b: MouseButton,
    def: KeyDef,
    events: Vec<ClickEvent>,
    name: &str,
    named: Result<Key, String>,
)
    requires
        call_ensures(browser::key_to_cdp, (key,), def),
        call_ensures(browser::click_events, (b,), events),
        call_ensures(server::parse_key, (name,), named),
    ensures
        def@ == browser::key_desc(key),
        !(key is F) && name@ == def.key@ ==> named == Ok::<Key, String>(key),
        events@ == browser::click_sequence(b),
        named matches Err(e) ==> e@ == "unsupported key: "@ + name@,
{
    if !(key is F) && name@ == def.key@ {
        assert(def@.key == def.key@);
        crate::laws::browser::law_key_is_sent_under_its_name(key);
    }
}

/// The browser is started with its arguments.
pub proof fn law_browser_is_started(scale: String, r: Vec<String>)
    requires
        call_ensures(browser::launch_args, (scale,), r),
    ensures
        text::views(r@) == browser::launch_arguments(scale@),
{
}

/// The modifiers that are named are the ones that are held.
pub proof fn law_named_modifiers(names: Option<&[String]>, r: Result<Mods, String>)
    requires
        call_ensures(server::parse_mods, (names,), r),
    ensures
        r matches Ok(m) ==> server::mods_named(server::names_view(names)) == Ok::<Mods, Seq<char>>(
            m,
        ),
        r matches Err(e) ==> server::mods_named(server::names_view(names)) is Err && e@
            == "unsupported modifier: "@ + server::mods_named(server::names_view(names))->Err_0,
        names is None ==> r is Ok,
{
}

/// What a call comes to is what it says, where it may pass.
pub proof fn law_calls_are_answered<C: Copy>(
    mcp: &WebcatMcp,
    call: ToolCall<C>,
    ten: C,
    r: Result<ToolPlan<C>, McpError>,
)
    requires
        call_ensures(WebcatMcp::plan::<C>, (mcp, call, ten), r),
    ensures
        server::plan_view(r) == server::answered(mcp.allow_control, call, ten),
        mcp.allow_control ==> (call matches ToolCall::Scroll(p) ==> {
            &&& r is Ok
            &&& r->Ok_0 is Scroll
            &&& r->Ok_0->Scroll_dy == p.dy
            &&& p.x matches Some(x) ==> r->Ok_0->Scroll_x == x
            &&& p.y matches Some(y) ==> r->Ok_0->Scroll_y == y
            &&& p.x is None ==> r->Ok_0->Scroll_x == ten
            &&& p.y is None ==> r->Ok_0->Scroll_y == ten
        }),
{
}

/// A guard lets control pass only where it is allowed, and the tools begin as
/// they were made.
pub proof fn law_guard(allow: bool, r: Result<(), McpError>, mcp: WebcatMcp)
    requires
        call_ensures(server::control_guard, (allow,), r),
        call_ensures(WebcatMcp::new, (allow,), mcp),
    ensures
        r is Ok <==> allow,
        mcp.allow_control == allow,
        r matches Err(e) ==> (e matches McpError::InvalidRequest(m) && m@
            == "control tools are disabled; start webcat with --mcp-allow-control"@),
{
}

/// Each element has its label, in the order of the elements.
pub proof fn law_labels_are_made(n: usize, r: Vec<String>)
    requires
        call_ensures(hints::hint_labels, (n,), r),
    ensures
        r@.len() == n,
        forall|i: int| 0 <= i < n ==> (#[trigger] r@[i])@ == hints::label(i, n as nat),
{
}

/// A key and a mouse event do what they do in the mapper's mode.
pub proof fn law_mapper(
    a: &mut InputMapper,
    b: &mut InputMapper,
    key: KeyEvent,
    ev: MouseEvent,
    k: Action,
    m: Action,
)
    requires
        call_ensures(InputMapper::on_key, (a, key), k),
        call_ensures(InputMapper::on_mouse, (b, ev), m),
    ensures
        (final(a).mode, k@) == input::key_act(old(a).mode, old(a).cell, key@),
        final(a).cell == old(a).cell,
        m@ == input::mouse_act(old(b).cell, ev),
        *final(b) == *old(b),
{
}

/// Whatever a renderer sends is declared with the width and the height that it is
/// sent with, under the slot whose turn it was.
pub proof fn law_renderer_transmits(
    s: &mut Renderer,
    pixels: Vec<u8>,
    w: u32,
    h: u32,
    r: Transmission,
)
    requires
        old(s)@.wf(),
        call_ensures(Renderer::transmit, (s, pixels, w, h), r),
    ensures
        r.pixels@ == pixels@,
        r.slot == old(s)@.slot,
        r.shm_name@ == old(s)@.names[old(s)@.slot],
        r.escape@ == crate::laws::picture::shown(
            old(s)@.gfx,
            old(s)@.payloads[old(s)@.slot],
            w,
            h,
            old(s)@.grid.cols as int,
            crate::laws::picture::rows_above_last(old(s)@.grid),
        ),
        final(s)@.slot == (old(s)@.slot + 1) % 4,
        final(s)@.last_frame == old(s)@.last_frame,
        final(s)@.hint_boxes == old(s)@.hint_boxes,
        final(s)@.names == old(s)@.names,
{
    crate::laws::picture::lemma_shown(old(s)@, pixels@, w, h);
    assert(r@.escape == r.escape@ && r@.pixels == r.pixels@ && r@.shm_name == r.shm_name@);
}

/// A frame is presented with its own width and height, and cached as it came.
pub proof fn law_renderer_presents(s: &mut Renderer, frame: Rgba, r: Option<Transmission>)
    requires
        old(s)@.wf(),
        frame@.wf(),
        call_ensures(Renderer::present_decoded, (s, Some(frame)), r),
    ensures
        r is Some,
        r->0.escape@ == crate::laws::picture::shown(
            old(s)@.gfx,
            old(s)@.payloads[old(s)@.slot],
            frame.width,
            frame.height,
            old(s)@.grid.cols as int,
            crate::laws::picture::rows_above_last(old(s)@.grid),
        ),
        old(s)@.hint_boxes.len() == 0 ==> r->0.pixels@ == frame.pixels@,
        final(s)@.last_frame == Some(frame@),
{
    crate::laws::picture::law_frame_keeps_its_size(old(s)@, frame@);
    assert(r->0@.escape == r->0.escape@ && r->0@.pixels == r->0.pixels@);
    if old(s)@.hint_boxes.len() == 0 {
        assert(old(s)@.hint_boxes =~= Seq::<HintBox>::empty());
        renderer::law_no_boxes(
            frame.pixels@,
            frame.width,
            frame.height,
            old(s)@.page().width_px,
            old(s)@.page().height_px,
        );
    }
}

/// Boxes come onto the cached frame and go off it again.
pub proof fn law_renderer_boxes(
    a: &mut Renderer,
    b: &mut Renderer,
    boxes: Vec<HintBox>,
    x: Option<Transmission>,
    y: Option<Transmission>,
)
    requires
        old(a)@.wf(),
        old(b)@.wf(),
        call_ensures(Renderer::set_hint_boxes, (a, boxes), x),
        call_ensures(Renderer::clear_hint_boxes, (b,), y),
    ensures
        final(a)@.hint_boxes == boxes@,
        x is Some <==> old(a)@.last_frame is Some,
        final(a)@.last_frame == old(a)@.last_frame,
        final(b)@.hint_boxes.len() == 0,
        final(b)@.last_frame == old(b)@.last_frame,
        y is Some <==> old(b)@.hint_boxes.len() > 0 && old(b)@.last_frame is Some,
        y matches Some(t) ==> t.pixels@ == old(b)@.last_frame->0.pixels,
{
    if let Some(f) = old(b)@.last_frame {
        let s = old(b)@.with_boxes(Seq::empty());
        renderer::law_no_boxes(
            f.pixels,
            f.width,
            f.height,
            s.page().width_px,
            s.page().height_px,
        );
        if let Some(t) = y {
            assert(t@.pixels == t.pixels@);
        }
    }
}

/// Taking the frame off the screen deletes its image.
pub proof fn law_renderer_clears(s: &Renderer, r: Vec<u8>, dev: (u32, u32))
    requires
        call_ensures(Renderer::clear, (s,), r),
        call_ensures(Renderer::dev_grid, (s,), dev),
    ensures
        r@ == encode_utf8(
            "\x1b_Ga=d,d=i,i="@ + text::dec(s@.gfx.image_id as nat) + ",q=2;\x1b\\"@,
        ),
        dev.0 == s@.grid.cols * s@.cell.w,
        dev.1 == crate::laws::picture::rows_above_last(s@.grid) * s@.cell.h,
{
    crate::laws::picture::law_renderer_page(s@);
}

/// The lines, the prompt and the labels are written as they read.
pub proof fn law_lines_are_written(
    u: &Ui,
    s: &str,
    loading: bool,
    phase: u16,
    labels: &[Label],
    a: Vec<u8>,
    b: Vec<u8>,
    c: Vec<u8>,
    d: Vec<u8>,
    e: Vec<u8>,
)
    requires
        call_ensures(Ui::status_bar_frame, (u, s, loading, phase), a),
        call_ensures(Ui::status_bar, (u, s, loading), b),
        call_ensures(Ui::url_prompt, (u, s), c),
        call_ensures(Ui::hint_overlay, (u, labels), d),
        call_ensures(Ui::clear_hints, (u, labels), e),
    ensures
        a@ == encode_utf8(ui::status_line(u.grid, s@, loading, phase)),
        b@ == encode_utf8(ui::status_line(u.grid, s@, loading, 0)),
        c@ == encode_utf8(ui::prompt_line(u.grid, s@)),
        d@ == encode_utf8(ui::overlay_text(ui::tags(labels@))),
        e@ == encode_utf8(ui::erase_text(ui::tags(labels@))),
{
}

/// A label is written in the cell and with the letters that it has.
pub proof fn law_labels_as_given(labels: Seq<Label>, i: int)
    requires
        0 <= i < labels.len(),
    ensures
        ui::tags(labels).len() == labels.len(),
        ui::tags(labels)[i] == (labels[i].0@, labels[i].1, labels[i].2),
{
}

/// The colour of a column is the wave's.
pub proof fn law_column_colour(col: u16, width: u16, phase: u16, r: [u8; 3])
    requires
        call_ensures(ui::loading_bg, (col, width, phase), r),
    ensures
        (r[0] as nat, r[1] as nat, r[2] as nat) == ui::loading_color(col, width, phase),
{
}

/// The page's pixels are those of its cells, and a cell's centre is its centre.
pub proof fn law_cells_in_pixels(
    grid: GridSize,
    cell: CellSize,
    status_rows: u16,
    col: u16,
    row: u16,
    vp: Viewport,
    at: (HalfPx, HalfPx),
)
    requires
        grid.rows >= status_rows,
        call_ensures(geometry::page_viewport, (grid, cell, status_rows), vp),
        call_ensures(geometry::cell_to_pixel, (col, row, cell), at),
    ensures
        vp.width_px == grid.cols * cell.w,
        vp.height_px == (grid.rows - status_rows) * cell.h,
        at.0.halves == (2 * col + 1) * cell.w,
        at.1.halves == (2 * row + 1) * cell.h,
{
}

/// The calls of a write follow one another, from the first on.
pub proof fn law_write_calls(call: ShmCall, ok: bool, a: ShmCall, b: ShmCall)
    requires
        call_ensures(ShmCall::first, (), a),
        call_ensures(ShmCall::next, (call, ok), b),
    ensures
        a == ShmCall::UnlinkStale,
        b == shm::call_after(call, ok),
{
}

/// The graphics escapes are those of the image.
pub proof fn law_graphics_escapes(
    g: &graphics::KittyGraphics,
    name: &str,
    width: u32,
    height: u32,
    cols: u16,
    rows: u16,
    r: Vec<u8>,
)
    requires
        call_ensures(
            graphics::KittyGraphics::transmit_shm,
            (g, name, width, height, cols, rows),
            r,
        ),
    ensures
        r@ == encode_utf8(
            "\x1b_Gf=32,t=s,s="@ + text::dec(width as nat) + ",v="@ + text::dec(height as nat)
                + ",a=T,i="@ + text::dec(g.image_id as nat) + ",p="@ + text::dec(
                g.placement_id as nat,
            ) + ",z=-1,c="@ + text::dec(cols as nat) + ",r="@ + text::dec(rows as nat) + ",q=0;"@
                + name@ + "\x1b\\"@,
        ),
{
}

/// The pacer and the watch move on as they do.
pub proof fn law_pacer_and_watch(
    p: &Pacer,
    a: &mut Pacer,
    b: &mut Pacer,
    c: &mut Pacer,
    w: &mut SizeWatch,
    dims: Option<(u32, u32)>,
    now: u64,
    admits: bool,
    due: bool,
    x: (),
    y: (),
    z: (),
)
    requires
        call_ensures(Pacer::admits, (p, now), admits),
        call_ensures(Pacer::pass, (a,), x),
        call_ensures(Pacer::sent, (b, now), y),
        call_ensures(Pacer::ack, (c,), z),
        call_ensures(SizeWatch::see, (w, dims, now), due),
    ensures
        admits == p.may_send(now),
        *final(a) == old(a).let_through(),
        *final(b) == old(b).after_sent(now),
        *final(c) == old(c).after_ack(),
        due == old(w).due(dims, now),
        *final(w) == old(w).after(dims, now),
{
}

/// The session does about each event what it does.
pub proof fn law_session_events(
    a: &mut Session,
    b: &mut Session,
    c: &mut Session,
    d: &mut Session,
    e: &mut Session,
    event: RawInput,
    cols: u16,
    rows: u16,
    canonical: Option<String>,
    found: Vec<Clickable>,
    loading: bool,
    on_input: Vec<Effect>,
    on_resize: Vec<Effect>,
    on_path: Vec<Effect>,
    on_clickables: Vec<Effect>,
    ended: Vec<Effect>,
)
    requires
        old(a).wf(),
        old(b).wf(),
        old(c).wf(),
        old(d).wf(),
        old(e).wf(),
        call_ensures(Session::on_input, (a, event), on_input),
        call_ensures(Session::on_resize, (b, cols, rows), on_resize),
        call_ensures(Session::on_path, (c, canonical), on_path),
        call_ensures(Session::on_clickables, (d, found), on_clickables),
        call_ensures(Session::end_batch, (e, loading), ended),
    ensures
        (final(a)@, session::effs(on_input@)) == old(a)@.after_input(event@),
        (final(b)@, session::effs(on_resize@)) == old(b)@.resized(GridSize { cols, rows }),
        (final(c)@, session::effs(on_path@)) == old(c)@.submitted(text::opt_view(canonical)),
        (final(d)@, session::effs(on_clickables@)) == old(d)@.hinted(found@),
        (final(e)@, session::effs(ended@)) == old(e)@.batch_ended(loading),
{
}

/// At the start the page is laid out for the terminal's size, and the status line
/// is on its last row.
pub proof fn law_session_starts_up(s: &mut Session, cols: u16, rows: u16, r: Viewport)
    requires
        old(s).wf(),
        rows >= 1,
        call_ensures(Session::on_startup, (s, cols, rows), r),
    ensures
        final(s).wf(),
        final(s)@.grid == (GridSize { cols, rows }),
        final(s)@.ui.grid == (GridSize { cols, rows }),
        final(s)@.renderer.grid == (GridSize { cols, rows }),
        r == final(s)@.vp,
        r.width_px == cols * old(s)@.cell.w,
        r.height_px == (rows - 1) * old(s)@.cell.h,
        final(s)@.mode == old(s)@.mode,
        final(s)@.current_url == old(s)@.current_url,
        final(s)@.renderer.last_frame == old(s)@.renderer.last_frame,
{
    crate::laws::picture::law_page_area(GridSize { cols, rows }, old(s)@.cell, 1);
}

/// A browser that was started again has its page's state, and nothing else is
/// forgotten.
pub proof fn law_session_reconnects(s: &mut Session, loading: bool, r: (), x: &Session, y: Vec<u8>)
    requires
        old(s).wf(),
        call_ensures(Session::on_reconnected, (s, loading), r),
        call_ensures(Session::status, (x,), y),
    ensures
        final(s)@ == (session::SessionView { page_loading: loading, ..old(s)@ }),
        y@ == x@.status(),
{
}

/// A frame is decoded and then taken, with the size in its header.
pub proof fn law_session_frames(
    s: &mut Session,
    jpeg: &[u8],
    now: u64,
    r: Option<session::FramePlan>,
)
    requires
        old(s).wf(),
        call_ensures(Session::on_frame, (s, jpeg, now), r),
    ensures
        r is Some <==> old(s)@.pacer.may_send(now),
        r is None ==> final(s)@ == old(s)@,
        r matches Some(p) ==> {
            let pic = renderer::decoded_image(jpeg@);
            &&& final(s)@.renderer == old(s)@.renderer.presented(pic).0
            &&& renderer::sent(p.show) == old(s)@.renderer.presented(pic).1
            &&& p.resync is Some <==> old(s)@.watch.due(app::picture_size(jpeg@), now)
            &&& p.resync matches Some(vp) ==> vp == old(s)@.vp
            &&& p.refresh_url <==> final(s)@.frame_count as int % 30 == 0
        },
{
}

/// Messages, events and bodies go into the store.
pub proof fn law_store_takes(
    a: &mut ObservabilityStore,
    b: &mut ObservabilityStore,
    c: &mut ObservabilityStore,
    level: String,
    said: String,
    url: Option<String>,
    line: Option<u32>,
    ts_ms: u64,
    e: NetworkEntry,
    id: &str,
    body: String,
    base64: bool,
    x: (),
    y: (),
    found: bool,
)
    requires
        old(a).wf(),
        old(b).wf(),
        old(c).wf(),
        old(a)@.seq < u64::MAX,
        old(b)@.seq < u64::MAX,
        call_ensures(ObservabilityStore::push_console, (a, level, said, url, line, ts_ms), x),
        call_ensures(ObservabilityStore::push_network, (b, e, ts_ms), y),
        call_ensures(ObservabilityStore::attach_response_body, (c, id, body, base64), found),
    ensures
        final(a)@ == old(a)@.console_pushed(level@, said@, text::opt_view(url), line, ts_ms),
        final(b)@ == old(b)@.network_pushed(e@, ts_ms),
        final(c)@ == old(c)@.body_attached(id@, body@, base64),
        found <==> observability::last_response(old(c)@.network, id@) is Some,
        final(a).wf(),
        final(b).wf(),
        final(c).wf(),
{
}

/// A process that holds the profile is found by its lock, and ended step by step.
pub proof fn law_profile_calls(
    target: Option<&str>,
    pid: i32,
    answered: bool,
    k: &mut ProfileKiller,
    alive: bool,
    fresh: ProfileKiller,
    found: Option<i32>,
    runs: bool,
    step: KillStep,
    macos: bool,
    paths: Vec<String>,
)
    requires
        call_ensures(profile::singleton_lock_pid, (target,), found),
        call_ensures(profile::pid_alive, (pid, answered), runs),
        call_ensures(ProfileKiller::new, (), fresh),
        call_ensures(ProfileKiller::next, (k, alive), step),
        call_ensures(profile::chrome_candidates, (macos,), paths),
    ensures
        found == profile::lock_pid(app::str_view(target)),
        runs <==> pid > 0 && answered,
        fresh.state == profile::KillState::Fresh,
        (final(k).state, step) == profile::kill_after(old(k).state, alive),
        macos ==> text::views(paths@) == profile::mac_candidates(),
        !macos ==> text::views(paths@) == profile::linux_candidates(),
{
}

/// What is said about the server, and how it is registered.
pub proof fn law_install_calls(
    given: Option<u16>,
    control: bool,
    file: Option<FileConfig>,
    port: u16,
    agent: &Agent,
    url: String,
    args: Vec<String>,
    snippet: String,
    kept: (u16, FileConfig),
    status: String,
    how: crate::cli::InstallArgs,
    registered: bool,
    report: String,
)
    requires
        call_ensures(install::mcp_url, (port,), url),
        call_ensures(install::claude_add_args, (port,), args),
        call_ensures(install::print_snippet, (port, agent), snippet),
        call_ensures(install::resolve_and_persist_port, (given, control, file), kept),
        call_ensures(install::status_report, (file,), status),
        call_ensures(install::install_report, (how, port, registered, agent), report),
    ensures
        url@ == "http://127.0.0.1:"@ + text::dec(port as nat) + "/mcp"@,
        text::views(args@) == seq!["mcp"@, "add"@, "--transport"@, "http"@, "webcat"@, url@],
        snippet@ == install::snippet_text(port, *agent),
        kept.0 == install::port_of(given, file),
        kept.1 == install::enabled_file(file, kept.0, control),
        status@ == install::status_text(file),
        report@ == install::install_text(how, port, registered, *agent),
{
}

} // verus!
