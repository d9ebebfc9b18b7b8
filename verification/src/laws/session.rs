//! What the session remembers and does.

use crate::app;
use crate::browser::Clickable;
use crate::geometry::{CellSize, GridSize, HalfPx};
use crate::input;
use crate::input::action::Act;
use crate::input::hints;
use crate::input::Mode;
use crate::renderer;
use crate::renderer::{RendererView, Rgba, Sent};
use crate::session;
use crate::session::{Eff, FramePlan, Pacer, Retry, Session, SessionView, SizeWatch, Target};
use crate::terminal::input::Input;
use crate::terminal::keyboard::KeyPress;
use crate::terminal::mouse::MouseEvent;
use crate::text;
use crate::ui;
use vstd::prelude::*;
use vstd::utf8::*;

verus! {

/// A frame waits only for a terminal that acknowledges frames, while two of them
/// are not acknowledged, and for less than three quarters of a second.
pub proof fn law_when_a_frame_waits(p: Pacer, now: u64)
    requires
        now >= p.last_transmit_ms,
    ensures
        p.may_send(now) <==> !p.acked || p.in_flight < 2 || now - p.last_transmit_ms >= 750,
{
}

/// A clock that went back makes no frame wait less.
pub proof fn law_clock_went_back(p: Pacer, now: u64)
    requires
        now < p.last_transmit_ms,
    ensures
        p.may_send(now) <==> !p.acked || p.in_flight < 2,
{
}

/// Each frame that is sent is one more in flight, from that moment on, and each
/// acknowledgement one less, down to none; after a stall none is.
pub proof fn law_frames_in_flight(p: Pacer, now: u64)
    ensures
        p.in_flight < u32::MAX ==> p.after_sent(now).in_flight == p.in_flight + 1,
        p.in_flight == u32::MAX ==> p.after_sent(now).in_flight == p.in_flight,
        p.after_sent(now).last_transmit_ms == now,
        p.after_sent(now).acked == p.acked,
        p.in_flight > 0 ==> p.after_ack().in_flight == p.in_flight - 1,
        p.in_flight == 0 ==> p.after_ack().in_flight == 0,
        p.after_ack().acked,
        p.after_ack().last_transmit_ms == p.last_transmit_ms,
        p.acked && p.in_flight >= 2 ==> p.let_through() == (Pacer { in_flight: 0, ..p }),
        !p.acked || p.in_flight < 2 ==> p.let_through() == p,
{
}

/// The page is laid out anew where a frame is wider or narrower, or higher or
/// lower, by more than sixteen pixels than the one before it, and the last time
/// was more than two fifths of a second ago.
pub proof fn law_when_the_page_is_laid_out(
    w: SizeWatch,
    before: (u32, u32),
    dims: (u32, u32),
    now: u64,
)
    requires
        w.last_dims == Some(before),
        now >= w.last_resync_ms,
    ensures
        ({
            let far = dims.0 > before.0 + 16 || before.0 > dims.0 + 16 || dims.1 > before.1 + 16
                || before.1 > dims.1 + 16;
            let due = far && now - w.last_resync_ms > 400;
            &&& w.due(Some(dims), now) <==> due
            &&& w.after(Some(dims), now).last_dims == Some(dims)
            &&& w.after(Some(dims), now).last_resync_ms == (if due {
                now
            } else {
                w.last_resync_ms
            })
        }),
{
}

/// The first frame, and a frame whose size is not known, changes no layout; the
/// size that is known stays known.
pub proof fn law_no_size_no_layout(w: SizeWatch, dims: Option<(u32, u32)>, now: u64)
    requires
        w.last_dims is None || dims is None,
    ensures
        !w.due(dims, now),
        w.after(dims, now).last_resync_ms == w.last_resync_ms,
        dims is Some ==> w.after(dims, now).last_dims == dims,
        dims is None ==> w.after(dims, now).last_dims == w.last_dims,
{
}

/// A lost browser is tried for three times, with a longer wait after each.
pub proof fn law_tries(attempt: u64, r: Retry)
    requires
        1 <= attempt <= 3,
        call_ensures(session::retry_after, (attempt,), r),
    ensures
        r.wait_ms == 500 * attempt,
        r.again <==> attempt < 3,
{
}

/// The numbers by which the program runs.
pub proof fn law_rhythm()
    ensures
        session::MAX_IN_FLIGHT == 2,
        session::MAX_IN_FLIGHT < renderer::SHM_POOL,
        session::URL_REFRESH_FRAMES == 30,
        session::INPUT_BATCH == 512,
        session::RECONNECT_TRIES == 3,
        session::STARTUP_RESYNC_MS == 500,
        session::LOADING_TICK_MS == 80,
        session::QUERY_TIMEOUT_MS == 300,
        session::STORE_CAPACITY == 2000,
{
}

/// What the status line says instead of an address.
pub proof fn law_notes()
    ensures
        session::RECONNECTING@ == "disconnected — reconnecting…"@,
        session::GAVE_UP@ == "browser unavailable (gave up after 3 tries)"@,
        session::NO_CLICKABLES@ == "(no clickable elements)"@,
{
}

/// The hint with a label is the first one that has it.
pub proof fn law_hint_is_found(t: Seq<Target>, label: Seq<char>, i: int)
    requires
        0 <= i < t.len(),
        t[i].0 == label,
        forall|k: int| 0 <= k < i ==> (#[trigger] t[k]).0 != label,
    ensures
        session::find_hint(t, label) == Some(t[i].1),
    decreases t.len(),
{
    if i > 0 {
        assert(t[0].0 != label);
        let rest = t.skip(1);
        assert forall|k: int| 0 <= k < i - 1 implies (#[trigger] rest[k]).0 != label by {
            assert(t[k + 1].0 != label);
        }
        law_hint_is_found(rest, label, i - 1);
    }
}

/// Where no hint has a label none is found.
pub proof fn law_no_hint_is_found(t: Seq<Target>, label: Seq<char>)
    requires
        forall|k: int| 0 <= k < t.len() ==> (#[trigger] t[k]).0 != label,
    ensures
        session::find_hint(t, label) is None,
    decreases t.len(),
{
    if t.len() > 0 {
        assert(t[0].0 != label);
        let rest = t.skip(1);
        assert forall|k: int| 0 <= k < rest.len() implies (#[trigger] rest[k]).0 != label by {
            assert(t[k + 1].0 != label);
        }
        law_no_hint_is_found(rest, label);
    }
}

/// Each thing that can be clicked gets its label, at its own cell and on a box as
/// wide as the label, and the label stands for that thing. The boxes come before
/// the labels, and the cached frame is shown with them at once.
pub proof fn law_hints_are_shown(s: SessionView, c: Seq<Clickable>, i: int)
    requires
        s.wf(),
        c.len() <= usize::MAX,
        0 <= i < c.len(),
    ensures
        ({
            let (t, e) = s.hinted(c);
            let label = hints::label(i, c.len());
            &&& t.hints.len() == c.len()
            &&& t.hints[i] == (label, c[i])
            &&& t.drawn_hints.len() == c.len()
            &&& t.drawn_hints[i] == (label, c[i].col, c[i].row)
            &&& t.renderer.hint_boxes.len() == c.len()
            &&& t.renderer.hint_boxes[i].x == c[i].col * s.cell.w
            &&& t.renderer.hint_boxes[i].y == c[i].row * s.cell.h
            &&& t.renderer.hint_boxes[i].w == label.len() * s.cell.w
            &&& t.renderer.hint_boxes[i].h == s.cell.h
            &&& t.hint_buffer.len() == 0
            &&& t == SessionView {
                renderer: s.renderer.with_boxes(t.renderer.hint_boxes).rerendered().0,
                hints: t.hints,
                drawn_hints: t.drawn_hints,
                hint_buffer: t.hint_buffer,
                ..s
            }
            &&& s.renderer.last_frame is None ==> e.len() == 2
            &&& s.renderer.last_frame is Some ==> e.len() == 3 && e[0] == Eff::Show(
                s.renderer.with_boxes(t.renderer.hint_boxes).rerendered().1->0,
            )
            &&& e[e.len() - 2] == Eff::Write(encode_utf8(ui::overlay_text(t.drawn_hints)))
            &&& e[e.len() - 1] == Eff::Flush
        }),
{
    let label = hints::label(i, c.len());
    hints::lemma_spelled_len(i, hints::label_len(c.len()));
    hints::lemma_max_letters(c.len());
    let n = label.len();
    assert(n * s.cell.w <= 14 * 0xffff) by (nonlinear_arith)
        requires
            0 <= n <= 14,
            0 <= s.cell.w <= 0xffff,
    ;
    crate::laws::address::law_box_is_behind_its_label(label, c[i].col, c[i].row, s.cell);
    let t = session::hints_for(c);
    assert(session::labels_of(t)[i] == (label, c[i].col, c[i].row));
    assert(session::boxes(session::labels_of(t), s.cell)[i] == app::box_of(
        (label, c[i].col, c[i].row),
        s.cell,
    ));
}

/// Where there is nothing to click, hint mode ends at once, and the status line
/// says so.
pub proof fn law_nothing_to_click(s: SessionView)
    ensures
        ({
            let (t, e) = s.hinted(Seq::empty());
            &&& t == SessionView { mode: Mode::Normal, ..s }
            &&& e == seq![
                Eff::Write(
                    encode_utf8(ui::status_line(s.ui.grid, "(no clickable elements)"@, false, 0)),
                ),
                Eff::Flush,
            ]
        }),
{
}

/// A letter that completes a label clicks what the label stands for, then asks
/// where the page has gone, and takes every hint away, as giving up would.
pub proof fn law_whole_label(s: SessionView, c: char, target: Clickable)
    requires
        session::find_hint(s.hints, s.hint_buffer.push(c)) == Some(target),
    ensures
        ({
            let (t, e) = s.hint_typed(c);
            let (given_up, off) = s.acted(Act::UrlCancel);
            &&& e == seq![Eff::ClickHint(target.index), Eff::RefreshUrl] + off + seq![Eff::Flush]
            &&& t.hints.len() == 0
            &&& t.drawn_hints.len() == 0
            &&& t.hint_buffer.len() == 0
            &&& t.renderer.hint_boxes.len() == 0
            &&& t == SessionView {
                mode: Mode::Normal,
                hints: t.hints,
                url_buffer: s.url_buffer,
                ..given_up
            }
        }),
{
}

/// A letter that begins labels leaves those labels and their boxes on the screen,
/// and takes the others away before the ones that stay are drawn again.
pub proof fn law_part_of_a_label(s: SessionView, c: char)
    requires
        session::find_hint(s.hints, s.hint_buffer.push(c)) is None,
        s.drawn_hints.filter(
            |t: ui::Tag| s.hint_buffer.push(c).is_prefix_of(t.0),
        ).len() > 0,
    ensures
        ({
            let (t, e) = s.hint_typed(c);
            let typed = s.hint_buffer.push(c);
            &&& t.hint_buffer == typed
            &&& t == SessionView {
                renderer: s.renderer.with_boxes(t.renderer.hint_boxes).rerendered().0,
                drawn_hints: t.drawn_hints,
                hint_buffer: typed,
                ..s
            }
            &&& s.renderer.last_frame is None ==> e.len() == 3
            &&& s.renderer.last_frame is Some ==> e.len() == 4 && e[0] == Eff::Show(
                s.renderer.with_boxes(t.renderer.hint_boxes).rerendered().1->0,
            )
            &&& t.drawn_hints == s.drawn_hints.filter(|t: ui::Tag| typed.is_prefix_of(t.0))
            &&& t.renderer.hint_boxes == t.drawn_hints.map_values(
                |g: ui::Tag| app::box_of(g, s.cell),
            )
            &&& e[e.len() - 3] == Eff::Write(encode_utf8(ui::erase_text(s.drawn_hints)))
            &&& e[e.len() - 2] == Eff::Write(encode_utf8(ui::overlay_text(t.drawn_hints)))
            &&& e[e.len() - 1] == Eff::Flush
        }),
{
    let typed = s.hint_buffer.push(c);
    assert((|t: ui::Tag| s.hint_buffer.push(c).is_prefix_of(t.0)) =~= (|t: ui::Tag|
        typed.is_prefix_of(t.0)));
}

/// A letter that begins no label is as if it had not been typed.
pub proof fn law_wrong_letter(s: SessionView, c: char)
    requires
        session::find_hint(s.hints, s.hint_buffer.push(c)) is None,
        forall|i: int|
            0 <= i < s.drawn_hints.len() ==> !s.hint_buffer.push(c).is_prefix_of(
                (#[trigger] s.drawn_hints[i]).0,
            ),
    ensures
        s.hint_typed(c) == (s, Seq::<Eff>::empty()),
{
    let typed = s.hint_buffer.push(c);
    lemma_nothing_matches(s.drawn_hints, typed);
}

proof fn lemma_nothing_matches(drawn: Seq<ui::Tag>, typed: Seq<char>)
    requires
        forall|i: int|
            0 <= i < drawn.len() ==> !typed.is_prefix_of((#[trigger] drawn[i]).0),
    ensures
        session::matching(drawn, typed).len() == 0,
    decreases drawn.len(),
{
    reveal(Seq::filter);
    if drawn.len() > 0 {
        let t = drawn.drop_last();
        assert forall|i: int| 0 <= i < t.len() implies !typed.is_prefix_of((#[trigger] t[i]).0) by {
            assert(t[i] == drawn[i]);
        }
        lemma_nothing_matches(t, typed);
        assert(!typed.is_prefix_of(drawn[drawn.len() - 1].0));
    }
}

/// What is done to the page is what was asked for, and nothing else: text, keys,
/// clicks with their button and place, back and reload, each once.
pub proof fn law_actions_reach_the_page(s: SessionView, a: Act)
    ensures
        ({
            let (t, e) = s.acted(a);
            &&& a matches Act::InsertText(x) ==> t == s && e == seq![Eff::InsertText(x)]
            &&& a matches Act::Key(k, m) ==> t == s && e == seq![Eff::PressKey(k, m)]
            &&& a matches Act::ClickPixel { x, y, button } ==> e == seq![
                Eff::Click { x, y, button },
            ] && t == SessionView { last_mouse_pos: Some((x, y)), pending_move: None, ..s }
            &&& a is GoBack ==> t == s && e == seq![Eff::GoBack]
            &&& a is Reload ==> t == s && e == seq![Eff::Reload]
            &&& a is EnterHintMode ==> t == s && e == seq![Eff::CollectClickables]
            &&& a is Quit ==> t == SessionView { quit: true, ..s } && e.len() == 0
            &&& a is Nothing || a is EnterInsertMode || a is ExitInsertMode ==> t == s && e.len()
                == 0
            &&& a matches Act::MoveMouse { x, y } ==> t == SessionView {
                last_mouse_pos: Some((x, y)),
                pending_move: Some((x, y)),
                ..s
            } && e.len() == 0
        }),
{
}

/// A scroll goes on where the last one was: with a place of its own it happens
/// there, and a scroll by key then happens at the same place.
pub proof fn law_scrolls_stay_together(s: SessionView, x: HalfPx, y: HalfPx, a: HalfPx, b: HalfPx)
    requires
        x.halves != 0 || y.halves != 0,
    ensures
        ({
            let zero = HalfPx { halves: 0 };
            let (t, e) = s.acted(Act::ScrollPixel { x, y, dy: a });
            let (u, f) = t.acted(Act::ScrollPixel { x: zero, y: zero, dy: b });
            &&& e == seq![Eff::Scroll { x, y, dy: a }]
            &&& f == seq![Eff::Scroll { x, y, dy: b }]
            &&& t.last_mouse_pos == Some((x, y))
            &&& u.last_mouse_pos == Some((x, y))
            &&& t == SessionView { last_mouse_pos: Some((x, y)), ..s }
        }),
{
}

/// A scroll by key before the mouse was ever used happens in the middle of the
/// page.
pub proof fn law_scroll_in_the_middle(s: SessionView, dy: HalfPx)
    requires
        s.last_mouse_pos is None,
    ensures
        ({
            let zero = HalfPx { halves: 0 };
            s.acted(Act::ScrollPixel { x: zero, y: zero, dy }).1 == seq![
                Eff::Scroll {
                    x: HalfPx { halves: s.vp.width_px as i64 },
                    y: HalfPx { halves: s.vp.height_px as i64 },
                    dy,
                },
            ]
        }),
{
}

/// What is typed into the address goes to its end, Backspace takes the last
/// character off and stops at nothing, and a new address begins empty; none of it
/// reaches the page.
pub proof fn law_address_is_edited(s: SessionView, typed: Seq<char>)
    ensures
        s.acted(Act::UrlInputChar(typed)) == (
            SessionView { url_buffer: s.url_buffer + typed, ..s },
            Seq::<Eff>::empty(),
        ),
        s.url_buffer.len() == 0 ==> s.acted(Act::UrlBackspace) == (s, Seq::<Eff>::empty()),
        s.url_buffer.len() > 0 ==> s.acted(Act::UrlBackspace) == (
            SessionView { url_buffer: s.url_buffer.drop_last(), ..s },
            Seq::<Eff>::empty(),
        ),
        s.acted(Act::EnterUrlMode) == (
            SessionView { url_buffer: Seq::empty(), ..s },
            Seq::<Eff>::empty(),
        ),
        s.acted(Act::UrlSubmit).0 == s,
{
}

/// Giving up takes the hints off the screen: the clean frame where boxes were on
/// it, and blanks where labels were; where there were none there is nothing to do.
pub proof fn law_hints_come_off(s: SessionView)
    requires
        s.wf(),
    ensures
        ({
            let (t, e) = s.acted(Act::UrlCancel);
            let clean = s.renderer.hint_boxes.len() > 0 && s.renderer.last_frame is Some;
            let n = if clean {
                1int
            } else {
                0
            };
            &&& t.url_buffer.len() == 0
            &&& t.hint_buffer.len() == 0
            &&& t.drawn_hints.len() == 0
            &&& t.renderer.hint_boxes.len() == 0
            &&& t.renderer == RendererView {
                slot: t.renderer.slot,
                hint_boxes: t.renderer.hint_boxes,
                ..s.renderer
            }
            &&& t.renderer.slot == (if clean {
                (s.renderer.slot + 1) % 4
            } else {
                s.renderer.slot
            })
            &&& t == SessionView {
                renderer: t.renderer,
                url_buffer: t.url_buffer,
                hint_buffer: t.hint_buffer,
                drawn_hints: t.drawn_hints,
                ..s
            }
            &&& clean ==> (e[0] matches Eff::Show(f) && f.pixels == s.renderer.last_frame->0.pixels)
            &&& s.drawn_hints.len() > 0 ==> e.len() == n + 1 && e[n] == Eff::Write(
                encode_utf8(ui::erase_text(s.drawn_hints)),
            )
            &&& s.drawn_hints.len() == 0 ==> e.len() == n
        }),
{
    if s.renderer.last_frame is Some {
        let f = s.renderer.last_frame->0;
        renderer::law_no_boxes(
            f.pixels,
            f.width,
            f.height,
            s.renderer.page().width_px,
            s.renderer.page().height_px,
        );
    }
}

/// A key does in a mode what it does there, and leads to its next mode; the mouse
/// does the same in every mode and changes none.
pub proof fn law_input_by_mode(s: SessionView, ev: KeyPress, m: MouseEvent)
    ensures
        s.after_input(Input::Key(ev)) == (SessionView {
            mode: input::key_act(s.mode, s.cell, ev).0,
            ..s
        }).acted(input::key_act(s.mode, s.cell, ev).1),
        s.after_input(Input::Mouse(m)) == s.acted(input::mouse_act(s.cell, m)),
        s.after_input(Input::Mouse(m)).0.mode == s.mode,
{
}

/// A change of the terminal's size is asked about first; an acknowledgement makes
/// room for a frame, and does nothing else.
pub proof fn law_other_input(s: SessionView)
    ensures
        s.after_input(Input::Resize) == (s, seq![Eff::QuerySize]),
        s.after_input(Input::GfxAck) == (
            SessionView { pacer: s.pacer.after_ack(), ..s },
            Seq::<Eff>::empty(),
        ),
{
}

/// A new size of the terminal clears it, and the page is laid out for every column
/// and every row but the last; all else that is remembered stays.
pub proof fn law_new_size(s: SessionView, grid: GridSize)
    requires
        grid != s.grid,
        grid.rows >= 1,
    ensures
        ({
            let (t, e) = s.resized(grid);
            &&& e.len() == 3
            &&& e[0] == Eff::Write(encode_utf8("\x1b[2J"@))
            &&& e[1] == Eff::Flush
            &&& e[2] matches Eff::Resync(vp) && vp.width_px == grid.cols * s.cell.w && vp.height_px
                == (grid.rows - 1) * s.cell.h && t.vp == vp
            &&& t.ui.grid == grid
            &&& t.renderer == RendererView { grid, cell: s.cell, ..s.renderer }
            &&& t == SessionView { grid, vp: t.vp, ui: t.ui, renderer: t.renderer, ..s }
        }),
{
    crate::laws::picture::law_page_area(grid, s.cell, 1);
}

/// A row of inputs ends with the pointer's last place, if it moved, and with the
/// status line; the pointer's place is told once.
pub proof fn law_row_of_inputs_ends(s: SessionView, loading: bool)
    ensures
        ({
            let (t, e) = s.batch_ended(loading);
            &&& t == SessionView { pending_move: None, page_loading: loading, ..s }
            &&& s.pending_move matches Some(p) ==> e == seq![
                Eff::MoveMouse { x: p.0, y: p.1 },
                Eff::Write(t.status()),
                Eff::Flush,
            ]
            &&& s.pending_move is None ==> e == seq![Eff::Write(t.status()), Eff::Flush]
        }),
{
    let t = SessionView { pending_move: None, page_loading: loading, ..s };
    if let Some((x, y)) = s.pending_move {
        assert(seq![Eff::MoveMouse { x, y }] + seq![Eff::Write(t.status()), Eff::Flush] =~= seq![
            Eff::MoveMouse { x, y },
            Eff::Write(t.status()),
            Eff::Flush,
        ]);
    } else {
        assert(Seq::<Eff>::empty() + seq![Eff::Write(t.status()), Eff::Flush] =~= seq![
            Eff::Write(t.status()),
            Eff::Flush,
        ]);
    }
}

/// The status line shows the session's own mode, address and state.
pub proof fn law_status_is_the_sessions(s: SessionView)
    ensures
        s.status() == encode_utf8(
            app::status_output(
                s.ui,
                s.mode,
                s.current_url,
                s.url_buffer,
                s.control_active,
                s.page_loading,
                s.loading_phase,
            ),
        ),
{
}

/// A frame that the terminal has no room for is dropped and changes nothing; any
/// other is counted, shown by the renderer, and has the page laid out anew where
/// its size changed. Every thirtieth has the address looked at.
pub proof fn law_frame_is_taken(
    s: &mut Session,
    dims: Option<(u32, u32)>,
    frame: Option<Rgba>,
    now: u64,
    r: Option<FramePlan>,
)
    requires
        old(s).wf(),
        frame matches Some(f) ==> f@.wf(),
        call_ensures(Session::on_decoded_frame, (s, dims, frame, now), r),
    ensures
        r is Some <==> old(s)@.pacer.may_send(now),
        r is None ==> final(s)@ == old(s)@,
        r matches Some(p) ==> {
            let pic = renderer::picture(frame);
            &&& final(s)@ == (SessionView {
                renderer: old(s)@.renderer.presented(pic).0,
                pacer: old(s)@.pacer.let_through(),
                watch: old(s)@.watch.after(dims, now),
                frame_count: final(s)@.frame_count,
                ..old(s)@
            })
            &&& renderer::sent(p.show) == old(s)@.renderer.presented(pic).1
            &&& p.resync is Some <==> old(s)@.watch.due(dims, now)
            &&& p.resync matches Some(vp) ==> vp == old(s)@.vp
            &&& old(s)@.frame_count < u64::MAX ==> final(s)@.frame_count == old(s)@.frame_count + 1
            &&& old(s)@.frame_count == u64::MAX ==> final(s)@.frame_count == 0
            &&& p.refresh_url <==> final(s)@.frame_count as int % 30 == 0
        },
{
}

/// A frame that was shown is in flight from then on.
pub proof fn law_frame_was_shown(s: &mut Session, now: u64, r: ())
    requires
        old(s).wf(),
        call_ensures(Session::frame_sent, (s, now), r),
    ensures
        final(s)@ == (SessionView { pacer: old(s)@.pacer.after_sent(now), ..old(s)@ }),
{
}

/// The address that the page tells is the one that is shown; where it tells none
/// the old one stays.
pub proof fn law_address_is_told(s: &mut Session, url: Option<String>, r: ())
    requires
        old(s).wf(),
        call_ensures(Session::on_url, (s, url), r),
    ensures
        url matches Some(u) ==> final(s)@ == (SessionView { current_url: u@, ..old(s)@ }),
        url is None ==> final(s)@ == old(s)@,
{
}

/// Whether the page loads is shown at once.
pub proof fn law_loading_is_shown(s: &mut Session, loading: bool, r: Vec<u8>)
    requires
        old(s).wf(),
        call_ensures(Session::on_loading, (s, loading), r),
    ensures
        final(s)@ == (SessionView { page_loading: loading, ..old(s)@ }),
        r@ == final(s)@.status(),
{
}

/// The loading line moves on by one phase, and comes round.
pub proof fn law_loading_line_moves(s: &mut Session, r: Vec<u8>)
    requires
        old(s).wf(),
        old(s)@.page_loading,
        call_ensures(Session::on_tick, (s,), r),
    ensures
        old(s)@.loading_phase < 0xffff ==> final(s)@.loading_phase == old(s)@.loading_phase + 1,
        old(s)@.loading_phase == 0xffff ==> final(s)@.loading_phase == 0,
        final(s)@ == (SessionView { loading_phase: final(s)@.loading_phase, ..old(s)@ }),
        r@ == final(s)@.status(),
{
}

/// A session begins in normal mode on its first page, with the status line on the
/// last row, and with nothing typed, shown or sent.
pub proof fn law_session_begins(
    grid: GridSize,
    cell: CellSize,
    start_url: String,
    control: bool,
    loading: bool,
    pid: u32,
    now: u64,
    r: Session,
)
    requires
        call_ensures(Session::new, (grid, cell, start_url, control, loading, pid, now), r),
    ensures
        r.wf(),
        r@.grid == grid,
        r@.cell == cell,
        r@.ui.grid == grid,
        r@.mode == Mode::Normal,
        r@.current_url == start_url@,
        r@.url_buffer.len() == 0,
        r@.hints.len() == 0,
        r@.drawn_hints.len() == 0,
        r@.hint_buffer.len() == 0,
        r@.last_mouse_pos is None,
        r@.pending_move is None,
        !r@.quit,
        r@.pacer == (Pacer { in_flight: 0, acked: false, last_transmit_ms: now }),
        r@.watch.last_dims is None,
        r@.watch.last_resync_ms == now,
        r@.frame_count == 0,
        r@.page_loading == loading,
        r@.loading_phase == 0,
        r@.control_active == control,
        r@.renderer.last_frame is None,
        r@.renderer.hint_boxes.len() == 0,
        r@.renderer.slot == 0,
        r@.renderer.gfx.image_id == 1,
        r@.renderer.gfx.placement_id == 1,
        forall|i: int|
            0 <= i < 4 ==> #[trigger] r@.renderer.names[i] == renderer::shm::slot_name(pid, i as u8),
{
}

/// An address that is submitted is looked up without the white space around it,
/// as the file that it may name.
pub proof fn law_file_is_looked_up(s: SessionView)
    ensures
        s.acted(Act::UrlSubmit).1 == seq![Eff::LookupPath(text::trimmed(s.url_buffer))],
{
}

/// An address that is submitted is opened, and shown as opened before the page
/// answers; the line is then empty for the next.
pub proof fn law_address_is_submitted(s: SessionView, canonical: Option<Seq<char>>)
    ensures
        ({
            let target = app::normalized(s.url_buffer, canonical);
            s.submitted(canonical) == (
                SessionView { current_url: target, url_buffer: Seq::empty(), ..s },
                seq![Eff::Navigate(target)],
            )
        }),
{
}

/// Of the frames that are shown at most one is sent for each event.
pub proof fn law_frame_to_show(s: Option<Sent>)
    ensures
        s matches Some(f) ==> session::show(s) == seq![Eff::Show(f)],
        s is None ==> session::show(s).len() == 0,
{
}

} // verus!
