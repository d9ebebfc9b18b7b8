//! The session: everything the browser remembers between events, and what it
//! does about each of them.
//!
//! Events go in: frames, input, the page's answers, the passing of time. What
//! comes out are effects, to be carried out in order; some of them bring an
//! answer, which goes in again before anything else.

use crate::app;
use crate::browser::Clickable;
use crate::geometry;
use crate::geometry::{CellSize, GridSize, HalfPx, Viewport};
use crate::input;
use crate::input::action::{Act, Action};
use crate::input::hints;
use crate::input::{InputMapper, Mode};
use crate::renderer;
use crate::renderer::graphics::KittyGraphics;
use crate::renderer::{HintBox, Renderer, Rgba, Transmission};
use crate::terminal::input::{Input, RawInput};
use crate::terminal::keyboard::{Key, Mods};
use crate::terminal::mouse::MouseButton;
use crate::text;
use crate::ui;
use crate::ui::{Label, Ui};
use vstd::prelude::*;
use vstd::utf8::*;

verus! {

/// How many frames may wait for the terminal's acknowledgement. It is below the
/// number of shared-memory objects, so that none is written while it is read.
pub const MAX_IN_FLIGHT: u32 = 2;

/// How long the terminal may keep a frame waiting, in milliseconds. After that
/// its acknowledgements are taken for lost.
pub const STALL_MS: u64 = 750;

/// How much a frame may change its size without a new layout of the page.
pub const SIZE_SLACK: u32 = 16;

/// How long two new layouts must be apart, in milliseconds.
pub const RESYNC_MS: u64 = 400;

/// The address is asked for again after so many frames.
pub const URL_REFRESH_FRAMES: u64 = 30;

/// How many inputs are taken in one go.
pub const INPUT_BATCH: usize = 512;

/// How many times a lost browser is started again.
pub const RECONNECT_TRIES: u64 = 3;

/// How long after the start the page is laid out anew, in milliseconds.
pub const STARTUP_RESYNC_MS: u64 = 500;

/// How often the loading line moves, in milliseconds.
pub const LOADING_TICK_MS: u64 = 80;

/// How long the terminal's answers are waited for, in milliseconds.
pub const QUERY_TIMEOUT_MS: u64 = 300;

/// How many console messages and network events are kept.
pub const STORE_CAPACITY: usize = 2000;

/// What the status line says while a lost browser is started again.
pub const RECONNECTING: &'static str = "disconnected — reconnecting…";

/// What the status line says when a lost browser could not be started again.
pub const GAVE_UP: &'static str = "browser unavailable (gave up after 3 tries)";

/// What the status line says when there is nothing to click.
pub const NO_CLICKABLES: &'static str = "(no clickable elements)";

/// The time that has passed; none where the clock went back.
pub open spec fn elapsed(now: u64, since: u64) -> int {
    if now >= since {
        now - since
    } else {
        0
    }
}

/// Keeps pace with the terminal: counts the frames that it has not acknowledged.
#[derive(Debug, Clone, Copy, PartialEq, Eq, Structural)]
pub struct Pacer {
    pub in_flight: u32,
    /// An acknowledgement has been seen. A terminal that sends none is not waited
    /// for.
    pub acked: bool,
    pub last_transmit_ms: u64,
}

impl Pacer {
    /// Too many frames wait for the terminal.
    pub open spec fn blocked(self) -> bool {
        self.acked && self.in_flight >= MAX_IN_FLIGHT
    }

    /// A frame may be sent now: the terminal keeps up, or has stalled.
    pub open spec fn may_send(self, now: u64) -> bool {
        !self.blocked() || elapsed(now, self.last_transmit_ms) >= STALL_MS
    }

    /// The pacer once a frame is let through: after a stall nothing is taken to
    /// be waiting any more.
    pub open spec fn let_through(self) -> Pacer {
        if self.blocked() {
            Pacer { in_flight: 0, ..self }
        } else {
            self
        }
    }

    /// The pacer once a frame was sent.
    pub open spec fn after_sent(self, now: u64) -> Pacer {
        Pacer {
            in_flight: if self.in_flight < u32::MAX {
                (self.in_flight + 1) as u32
            } else {
                u32::MAX
            },
            last_transmit_ms: now,
            ..self
        }
    }

    /// The pacer once the terminal acknowledged a frame.
    pub open spec fn after_ack(self) -> Pacer {
        Pacer {
            in_flight: if self.in_flight > 0 {
                (self.in_flight - 1) as u32
            } else {
                0
            },
            acked: true,
            ..self
        }
    }

    /// Nothing has been sent.
    pub fn new(now: u64) -> (r: Self)
        ensures
            r == (Pacer { in_flight: 0, acked: false, last_transmit_ms: now }),
    {
        Pacer { in_flight: 0, acked: false, last_transmit_ms: now }
    }

    /// Whether a frame may be sent now.
    pub fn admits(&self, now: u64) -> (r: bool)
        ensures
            r == self.may_send(now),
    {
        if self.acked && self.in_flight >= MAX_IN_FLIGHT {
            now.saturating_sub(self.last_transmit_ms) >= STALL_MS
        } else {
            true
        }
    }

    /// Lets a frame through.
    pub fn pass(&mut self)
        ensures
            *final(self) == old(self).let_through(),
    {
        if self.acked && self.in_flight >= MAX_IN_FLIGHT {
            self.in_flight = 0;
        }
    }

    /// Counts a frame that was sent.
    pub fn sent(&mut self, now: u64)
        ensures
            *final(self) == old(self).after_sent(now),
    {
        self.in_flight = self.in_flight.saturating_add(1);
        self.last_transmit_ms = now;
    }

    /// Counts an acknowledgement.
    pub fn ack(&mut self)
        ensures
            *final(self) == old(self).after_ack(),
    {
        self.acked = true;
        self.in_flight = self.in_flight.saturating_sub(1);
    }
}

/// Once the terminal acknowledges frames, no more of them wait than there are
/// objects to spare: what is let through and sent leaves one object or more that
/// the terminal is not reading.
pub proof fn law_in_flight_bounded(p: Pacer, now: u64)
    requires
        p.acked,
        p.may_send(now),
    ensures
        p.let_through().after_sent(now).in_flight <= MAX_IN_FLIGHT,
        MAX_IN_FLIGHT < renderer::SHM_POOL,
{
}

/// A terminal that sends no acknowledgements is never waited for.
pub proof fn law_silent_terminal_not_paced(p: Pacer, now: u64)
    requires
        !p.acked,
    ensures
        p.may_send(now),
        p.let_through() == p,
        !p.after_sent(now).acked,
{
}

/// The screen never freezes: when nothing was sent for long enough, the next
/// frame goes through.
pub proof fn law_no_freeze(p: Pacer, now: u64)
    requires
        now >= p.last_transmit_ms + STALL_MS,
    ensures
        p.may_send(now),
{
}

/// Notices when the captured size changes.
#[derive(Debug, Clone, Copy, PartialEq, Eq)]
pub struct SizeWatch {
    pub last_dims: Option<(u32, u32)>,
    pub last_resync_ms: u64,
}

/// Two lengths differ by more than the slack.
pub open spec fn apart(a: u32, b: u32) -> bool {
    a - b > SIZE_SLACK || b - a > SIZE_SLACK
}

/// Whether two lengths differ by more than the slack.
fn far_apart(a: u32, b: u32) -> (r: bool)
    ensures
        r == apart(a, b),
{
    if a >= b {
        a - b > SIZE_SLACK
    } else {
        b - a > SIZE_SLACK
    }
}

impl SizeWatch {
    /// The size is another one than before.
    pub open spec fn changed(self, dims: Option<(u32, u32)>) -> bool {
        match (self.last_dims, dims) {
            (Some(l), Some(d)) => apart(d.0, l.0) || apart(d.1, l.1),
            _ => false,
        }
    }

    /// The page is to be laid out anew.
    pub open spec fn due(self, dims: Option<(u32, u32)>, now: u64) -> bool {
        self.changed(dims) && elapsed(now, self.last_resync_ms) > RESYNC_MS
    }

    /// The watch once a frame was seen.
    pub open spec fn after(self, dims: Option<(u32, u32)>, now: u64) -> SizeWatch {
        SizeWatch {
            last_dims: if dims is Some {
                dims
            } else {
                self.last_dims
            },
            last_resync_ms: if self.due(dims, now) {
                now
            } else {
                self.last_resync_ms
            },
        }
    }

    /// Sees a frame's size. The page is to be laid out anew where this is true.
    pub fn see(&mut self, dims: Option<(u32, u32)>, now: u64) -> (r: bool)
        ensures
            r == old(self).due(dims, now),
            *final(self) == old(self).after(dims, now),
    {
        let changed: bool = match (self.last_dims, dims) {
            (Some((lw, lh)), Some((fw, fh))) => far_apart(fw, lw) || far_apart(fh, lh),
            _ => false,
        };
        if dims.is_some() {
            self.last_dims = dims;
        }
        if changed && now.saturating_sub(self.last_resync_ms) > RESYNC_MS {
            self.last_resync_ms = now;
            true
        } else {
            false
        }
    }
}

/// What to do when a try to start a lost browser has failed.
#[derive(Debug, Clone, Copy, PartialEq, Eq, Structural)]
pub struct Retry {
    /// How long to wait, in milliseconds.
    pub wait_ms: u64,
    /// Whether to try again then.
    pub again: bool,
}

/// What to do when the try number `attempt`, counted from one, has failed: wait
/// longer each time, and give up after the last.
pub fn retry_after(attempt: u64) -> (r: Retry)
    requires
        1 <= attempt <= RECONNECT_TRIES,
    ensures
        r.wait_ms == 500 * attempt,
        r.again == (attempt < RECONNECT_TRIES),
{
    Retry { wait_ms: 500 * attempt, again: attempt < RECONNECT_TRIES }
}

/// Something to do.
#[derive(Debug)]
pub enum Effect {
    /// Write to the terminal.
    Write(Vec<u8>),
    /// Write the pixels to shared memory, then the escape to the terminal; where
    /// the first fails, nothing.
    Show(Transmission),
    /// Flush what was written.
    Flush,
    /// Lay the page out for the viewport and capture it anew.
    Resync(Viewport),
    /// Ask for the terminal's size, and hand it to `on_resize`.
    QuerySize,
    /// Ask for the page's address, and hand it to `on_url`.
    RefreshUrl,
    /// Look for the file of that name, and hand its canonical path to `on_path`.
    LookupPath(String),
    /// Collect what can be clicked, and hand it to `on_clickables`.
    CollectClickables,
    InsertText(String),
    /// Press and release a key.
    PressKey(Key, Mods),
    Click { x: HalfPx, y: HalfPx, button: MouseButton },
    /// Click on one of those that were collected.
    ClickHint(usize),
    Scroll { x: HalfPx, y: HalfPx, dy: HalfPx },
    MoveMouse { x: HalfPx, y: HalfPx },
    GoBack,
    Reload,
    /// Begin to load an address.
    Navigate(String),
}

/// What something to do holds.
pub enum Eff {
    Write(Seq<u8>),
    Show(renderer::Sent),
    Flush,
    Resync(Viewport),
    QuerySize,
    RefreshUrl,
    LookupPath(Seq<char>),
    CollectClickables,
    InsertText(Seq<char>),
    PressKey(Key, Mods),
    Click { x: HalfPx, y: HalfPx, button: MouseButton },
    ClickHint(usize),
    Scroll { x: HalfPx, y: HalfPx, dy: HalfPx },
    MoveMouse { x: HalfPx, y: HalfPx },
    GoBack,
    Reload,
    Navigate(Seq<char>),
}

impl View for Effect {
    type V = Eff;

    open spec fn view(&self) -> Eff {
        match *self {
            Effect::Write(b) => Eff::Write(b@),
            Effect::Show(t) => Eff::Show(t@),
            Effect::Flush => Eff::Flush,
            Effect::Resync(vp) => Eff::Resync(vp),
            Effect::QuerySize => Eff::QuerySize,
            Effect::RefreshUrl => Eff::RefreshUrl,
            Effect::LookupPath(s) => Eff::LookupPath(s@),
            Effect::CollectClickables => Eff::CollectClickables,
            Effect::InsertText(s) => Eff::InsertText(s@),
            Effect::PressKey(k, m) => Eff::PressKey(k, m),
            Effect::Click { x, y, button } => Eff::Click { x, y, button },
            Effect::ClickHint(i) => Eff::ClickHint(i),
            Effect::Scroll { x, y, dy } => Eff::Scroll { x, y, dy },
            Effect::MoveMouse { x, y } => Eff::MoveMouse { x, y },
            Effect::GoBack => Eff::GoBack,
            Effect::Reload => Eff::Reload,
            Effect::Navigate(s) => Eff::Navigate(s@),
        }
    }
}

/// What the effects of a row hold.
pub open spec fn effs(v: Seq<Effect>) -> Seq<Eff> {
    v.map_values(|e: Effect| e@)
}

/// A frame to show, or nothing.
pub open spec fn show(s: Option<renderer::Sent>) -> Seq<Eff> {
    match s {
        Some(s) => seq![Eff::Show(s)],
        None => Seq::empty(),
    }
}

/// A label and what it stands for.
pub type Hint = (String, Clickable);

/// What a label and what it stands for hold.
pub type Target = (Seq<char>, Clickable);

/// What the hints of a row hold.
pub open spec fn targets(h: Seq<Hint>) -> Seq<Target> {
    h.map_values(|h: Hint| (h.0@, h.1))
}

/// The labels of hints, each in its cell.
pub open spec fn labels_of(t: Seq<Target>) -> Seq<ui::Tag> {
    t.map_values(|t: Target| (t.0, t.1.col, t.1.row))
}

/// The hints for what can be clicked.
pub open spec fn hints_for(c: Seq<Clickable>) -> Seq<Target> {
    Seq::new(c.len(), |i: int| (hints::label(i, c.len()), c[i]))
}

/// The first hint with a label.
pub open spec fn find_hint(t: Seq<Target>, label: Seq<char>) -> Option<Clickable>
    decreases t.len(),
{
    if t.len() == 0 {
        None
    } else if t[0].0 == label {
        Some(t[0].1)
    } else {
        find_hint(t.skip(1), label)
    }
}

/// The labels that begin with what has been typed.
pub open spec fn matching(drawn: Seq<ui::Tag>, typed: Seq<char>) -> Seq<ui::Tag> {
    drawn.filter(|t: ui::Tag| typed.is_prefix_of(t.0))
}

/// The boxes behind labels.
pub open spec fn boxes(drawn: Seq<ui::Tag>, cell: CellSize) -> Seq<HintBox> {
    drawn.map_values(|t: ui::Tag| app::box_of(t, cell))
}

/// What a session holds.
pub struct SessionView {
    pub grid: GridSize,
    pub cell: CellSize,
    pub vp: Viewport,
    pub mode: Mode,
    pub ui: Ui,
    pub renderer: renderer::RendererView,
    pub url_buffer: Seq<char>,
    pub current_url: Seq<char>,
    pub hints: Seq<Target>,
    pub drawn_hints: Seq<ui::Tag>,
    pub hint_buffer: Seq<char>,
    pub last_mouse_pos: Option<(HalfPx, HalfPx)>,
    pub pending_move: Option<(HalfPx, HalfPx)>,
    pub quit: bool,
    pub pacer: Pacer,
    pub watch: SizeWatch,
    pub frame_count: u64,
    pub page_loading: bool,
    pub loading_phase: u16,
    pub control_active: bool,
}

impl SessionView {
    /// The renderer is sound, the viewport, the renderer and the text over the
    /// frame are those of the grid, and the labels on the screen are short.
    pub open spec fn wf(self) -> bool {
        &&& self.renderer.wf()
        &&& self.renderer.grid == self.grid
        &&& self.renderer.cell == self.cell
        &&& self.ui.grid == self.grid
        &&& self.vp == geometry::viewport_of(self.grid, self.cell, 1)
        &&& forall|i: int|
            0 <= i < self.drawn_hints.len() ==> (#[trigger] self.drawn_hints[i]).0.len() <= hints::MAX_LETTERS
    }

    /// What the status line is to show.
    pub open spec fn status(self) -> Seq<u8> {
        encode_utf8(
            app::status_output(
                self.ui,
                self.mode,
                self.current_url,
                self.url_buffer,
                self.control_active,
                self.page_loading,
                self.loading_phase,
            ),
        )
    }

    /// The session once a frame was let through.
    pub open spec fn framed(
        self,
        dims: Option<(u32, u32)>,
        frame: Option<renderer::Picture>,
        now: u64,
    ) -> SessionView {
        SessionView {
            pacer: self.pacer.let_through(),
            watch: self.watch.after(dims, now),
            renderer: self.renderer.presented(frame).0,
            frame_count: next_count(self.frame_count),
            ..self
        }
    }

    /// The session without any hint on the screen, and what takes them off: the
    /// clean frame, and blanks over the labels.
    pub open spec fn hints_off(self) -> (SessionView, Seq<Eff>) {
        let (r, s) = if self.renderer.hint_boxes.len() == 0 {
            (self.renderer, None)
        } else {
            self.renderer.with_boxes(Seq::empty()).rerendered()
        };
        (
            SessionView { renderer: r, drawn_hints: Seq::empty(), ..self },
            show(s) + if self.drawn_hints.len() > 0 {
                seq![Eff::Write(encode_utf8(ui::erase_text(self.drawn_hints)))]
            } else {
                Seq::empty()
            },
        )
    }

    /// The session with hints for what can be clicked, and what shows them. Where
    /// there is nothing, hint mode ends at once.
    pub open spec fn hinted(self, c: Seq<Clickable>) -> (SessionView, Seq<Eff>) {
        if c.len() == 0 {
            (
                SessionView { mode: Mode::Normal, ..self },
                seq![
                    Eff::Write(encode_utf8(ui::status_line(self.ui.grid, NO_CLICKABLES@, false, 0))),
                    Eff::Flush,
                ],
            )
        } else {
            let t = hints_for(c);
            let drawn = labels_of(t);
            let (r, s) = self.renderer.with_boxes(boxes(drawn, self.cell)).rerendered();
            (
                SessionView {
                    renderer: r,
                    hints: t,
                    drawn_hints: drawn,
                    hint_buffer: Seq::empty(),
                    ..self
                },
                show(s) + seq![Eff::Write(encode_utf8(ui::overlay_text(drawn))), Eff::Flush],
            )
        }
    }

    /// The session once a letter was typed toward a hint. A whole label clicks
    /// what it stands for and ends hint mode; a part of one narrows the labels
    /// down; a letter that fits none is dropped.
    pub open spec fn hint_typed(self, c: char) -> (SessionView, Seq<Eff>) {
        let typed = self.hint_buffer.push(c);
        match find_hint(self.hints, typed) {
            Some(target) => {
                let (off, e) = self.hints_off();
                (
                    SessionView {
                        mode: Mode::Normal,
                        hints: Seq::empty(),
                        hint_buffer: Seq::empty(),
                        ..off
                    },
                    seq![Eff::ClickHint(target.index), Eff::RefreshUrl] + e + seq![Eff::Flush],
                )
            },
            None => {
                let left = matching(self.drawn_hints, typed);
                if left.len() == 0 {
                    (self, Seq::empty())
                } else {
                    let (r, s) = self.renderer.with_boxes(boxes(left, self.cell)).rerendered();
                    (
                        SessionView {
                            renderer: r,
                            drawn_hints: left,
                            hint_buffer: typed,
                            ..self
                        },
                        show(s) + seq![
                            Eff::Write(encode_utf8(ui::erase_text(self.drawn_hints))),
                            Eff::Write(encode_utf8(ui::overlay_text(left))),
                            Eff::Flush,
                        ],
                    )
                }
            },
        }
    }

    /// The session once an action was taken, and what it does.
    pub open spec fn acted(self, a: Act) -> (SessionView, Seq<Eff>) {
        match a {
            Act::Nothing | Act::EnterInsertMode | Act::ExitInsertMode => (self, Seq::empty()),
            Act::Quit => (SessionView { quit: true, ..self }, Seq::empty()),
            Act::MoveMouse { x, y } => (
                SessionView {
                    last_mouse_pos: Some((x, y)),
                    pending_move: Some((x, y)),
                    ..self
                },
                Seq::empty(),
            ),
            Act::InsertText(t) => (self, seq![Eff::InsertText(t)]),
            Act::Key(k, m) => (self, seq![Eff::PressKey(k, m)]),
            Act::ClickPixel { x, y, button } => (
                SessionView { last_mouse_pos: Some((x, y)), pending_move: None, ..self },
                seq![Eff::Click { x, y, button }],
            ),
            Act::ScrollPixel { x, y, dy } => {
                let p = app::scroll_place(x, y, self.last_mouse_pos, self.vp);
                (
                    SessionView { last_mouse_pos: Some(p), ..self },
                    seq![Eff::Scroll { x: p.0, y: p.1, dy }],
                )
            },
            Act::GoBack => (self, seq![Eff::GoBack]),
            Act::Reload => (self, seq![Eff::Reload]),
            Act::EnterUrlMode => (
                SessionView { url_buffer: Seq::empty(), ..self },
                Seq::empty(),
            ),
            Act::UrlInputChar(t) => (
                SessionView { url_buffer: self.url_buffer + t, ..self },
                Seq::empty(),
            ),
            Act::UrlBackspace => (
                SessionView {
                    url_buffer: if self.url_buffer.len() > 0 {
                        self.url_buffer.drop_last()
                    } else {
                        self.url_buffer
                    },
                    ..self
                },
                Seq::empty(),
            ),
            Act::UrlSubmit => (
                self,
                seq![Eff::LookupPath(text::trimmed(self.url_buffer))],
            ),
            Act::UrlCancel => SessionView {
                url_buffer: Seq::empty(),
                hint_buffer: Seq::empty(),
                ..self
            }.hints_off(),
            Act::EnterHintMode => (self, seq![Eff::CollectClickables]),
            Act::HintKey(c) => self.hint_typed(c),
        }
    }

    /// The session once an input came, and what it does.
    pub open spec fn after_input(self, i: Input) -> (SessionView, Seq<Eff>) {
        match i {
            Input::Key(ev) => {
                let (mode, act) = input::key_act(self.mode, self.cell, ev);
                SessionView { mode, ..self }.acted(act)
            },
            Input::Mouse(ev) => self.acted(input::mouse_act(self.cell, ev)),
            Input::Resize => (self, seq![Eff::QuerySize]),
            Input::GfxAck => (
                SessionView { pacer: self.pacer.after_ack(), ..self },
                Seq::empty(),
            ),
        }
    }

    /// The session in a terminal of another size.
    pub open spec fn sized(self, grid: GridSize) -> SessionView {
        SessionView {
            grid,
            vp: geometry::viewport_of(grid, self.cell, 1),
            ui: Ui { grid },
            renderer: renderer::RendererView { grid, cell: self.cell, ..self.renderer },
            ..self
        }
    }

    /// The session once the terminal's size is known after a resize: the text on
    /// the screen is cleared and the page laid out anew, unless nothing changed.
    pub open spec fn resized(self, grid: GridSize) -> (SessionView, Seq<Eff>) {
        if grid == self.grid {
            (self, Seq::empty())
        } else {
            let s = self.sized(grid);
            (s, seq![Eff::Write(encode_utf8("\x1b[2J"@)), Eff::Flush, Eff::Resync(s.vp)])
        }
    }

    /// The session once an address was submitted: it is shown at once, and the
    /// buffer is empty again.
    pub open spec fn submitted(self, canonical: Option<Seq<char>>) -> (SessionView, Seq<Eff>) {
        let target = app::normalized(self.url_buffer, canonical);
        (
            SessionView { current_url: target, url_buffer: Seq::empty(), ..self },
            seq![Eff::Navigate(target)],
        )
    }

    /// The session at the end of a row of inputs: the last place of the pointer is
    /// told to the page, once.
    pub open spec fn batch_ended(self, loading: bool) -> (SessionView, Seq<Eff>) {
        let s = SessionView { pending_move: None, page_loading: loading, ..self };
        (
            s,
            (match self.pending_move {
                Some((x, y)) => seq![Eff::MoveMouse { x, y }],
                None => Seq::empty(),
            }) + seq![Eff::Write(s.status()), Eff::Flush],
        )
    }
}

/// The number of the next frame.
pub open spec fn next_count(n: u64) -> u64 {
    if n < u64::MAX {
        (n + 1) as u64
    } else {
        0
    }
}

/// What a frame that was let through comes to.
#[derive(Debug)]
pub struct FramePlan {
    /// The viewport to lay the page out for anew, before the frame is shown.
    pub resync: Option<Viewport>,
    /// The frame to show. When it was shown, `frame_sent` is to be told.
    pub show: Option<Transmission>,
    /// Whether to ask for the page's address.
    pub refresh_url: bool,
}

/// The state of the browser between events.
#[derive(Debug)]
pub struct Session {
    pub grid: GridSize,
    pub cell: CellSize,
    pub vp: Viewport,
    pub mapper: InputMapper,
    pub ui: Ui,
    pub renderer: Renderer,
    pub url_buffer: String,
    pub current_url: String,
    pub hints: Vec<Hint>,
    pub drawn_hints: Vec<Label>,
    pub hint_buffer: String,
    pub last_mouse_pos: Option<(HalfPx, HalfPx)>,
    pub pending_move: Option<(HalfPx, HalfPx)>,
    pub quit: bool,
    pub pacer: Pacer,
    pub watch: SizeWatch,
    pub frame_count: u64,
    pub page_loading: bool,
    pub loading_phase: u16,
    pub control_active: bool,
}

impl View for Session {
    type V = SessionView;

    open spec fn view(&self) -> SessionView {
        SessionView {
            grid: self.grid,
            cell: self.cell,
            vp: self.vp,
            mode: self.mapper.mode,
            ui: self.ui,
            renderer: self.renderer@,
            url_buffer: self.url_buffer@,
            current_url: self.current_url@,
            hints: targets(self.hints@),
            drawn_hints: ui::tags(self.drawn_hints@),
            hint_buffer: self.hint_buffer@,
            last_mouse_pos: self.last_mouse_pos,
            pending_move: self.pending_move,
            quit: self.quit,
            pacer: self.pacer,
            watch: self.watch,
            frame_count: self.frame_count,
            page_loading: self.page_loading,
            loading_phase: self.loading_phase,
            control_active: self.control_active,
        }
    }
}

/// The labels that begin with what has been typed.
fn matching_labels(v: &Vec<Label>, typed: &str) -> (r: Vec<Label>)
    ensures
        ui::tags(r@) == matching(ui::tags(v@), typed@),
{
    let want: Vec<char> = text::chars_of(typed);
    let ghost all = ui::tags(v@);
    let ghost p = |t: ui::Tag| typed@.is_prefix_of(t.0);
    let mut out: Vec<Label> = Vec::new();
    let mut i: usize = 0;
    assert(all.take(0).filter(p) =~= Seq::<ui::Tag>::empty()) by {
        reveal(Seq::filter);
    }
    while i < v.len()
        invariant
            i <= v@.len(),
            all == ui::tags(v@),
            want@ == typed@,
            p == (|t: ui::Tag| typed@.is_prefix_of(t.0)),
            ui::tags(out@) =~= all.take(i as int).filter(p),
        decreases v@.len() - i,
    {
        let (label, col, row) = &v[i];
        let chars: Vec<char> = text::chars_of(label.as_str());
        let ghost before = ui::tags(out@);
        proof {
            reveal(Seq::filter);
            assert(all.take(i + 1).drop_last() =~= all.take(i as int));
            assert(all.take(i + 1).last() == (label@, *col, *row));
        }
        if text::begins_with(chars.as_slice(), want.as_slice()) {
            out.push((label.clone(), *col, *row));
            assert(ui::tags(out@) =~= before.push((label@, *col, *row)));
        }
        i += 1;
    }
    assert(all.take(v@.len() as int) =~= all);
    out
}

/// What is left of a row after a filter comes from the row.
proof fn lemma_matching_short(drawn: Seq<ui::Tag>, typed: Seq<char>)
    requires
        forall|i: int| 0 <= i < drawn.len() ==> (#[trigger] drawn[i]).0.len() <= hints::MAX_LETTERS,
    ensures
        forall|i: int|
            0 <= i < matching(drawn, typed).len() ==> (#[trigger] matching(drawn, typed)[i]).0.len()
                <= hints::MAX_LETTERS,
    decreases drawn.len(),
{
    reveal(Seq::filter);
    if drawn.len() > 0 {
        let t = drawn.drop_last();
        assert forall|i: int| 0 <= i < t.len() implies (#[trigger] t[i]).0.len() <= hints::MAX_LETTERS by {
            assert(t[i] == drawn[i]);
        }
        lemma_matching_short(t, typed);
        let rest = matching(t, typed);
        let all = matching(drawn, typed);
        assert(all == if typed.is_prefix_of(drawn.last().0) {
            rest.push(drawn.last())
        } else {
            rest
        });
        assert forall|i: int| 0 <= i < all.len() implies (#[trigger] all[i]).0.len() <= hints::MAX_LETTERS by {
            if i < rest.len() {
                assert(all[i] == rest[i]);
            } else {
                assert(all[i] == drawn[drawn.len() - 1]);
            }
        }
    }
}

/// The boxes behind short labels can be measured.
proof fn lemma_boxes_fit(labels: Seq<Label>, w: u16)
    requires
        forall|i: int| 0 <= i < ui::tags(labels).len() ==> (#[trigger] ui::tags(labels)[i]).0.len()
            <= hints::MAX_LETTERS,
    ensures
        forall|i: int| 0 <= i < labels.len() ==> (#[trigger] labels[i]).0@.len() * w <= u32::MAX,
{
    assert forall|i: int| 0 <= i < labels.len() implies (#[trigger] labels[i]).0@.len() * w
        <= u32::MAX by {
        assert(ui::tags(labels)[i].0 == labels[i].0@);
        let n = labels[i].0@.len();
        assert(n * w <= 14 * 0xffff) by (nonlinear_arith)
            requires
                0 <= n <= 14,
                0 <= w <= 0xffff,
        ;
    }
}

/// Adds a frame to show to the effects, if there is one.
fn push_show(out: &mut Vec<Effect>, t: Option<Transmission>)
    ensures
        effs(final(out)@) == effs(old(out)@) + show(renderer::sent(t)),
{
    let ghost before = effs(out@);
    if let Some(t) = t {
        out.push(Effect::Show(t));
        assert(effs(out@) =~= before.push(Eff::Show(t@)));
    }
    assert(effs(out@) =~= before + show(renderer::sent(t)));
}

impl Session {
    /// The mapper knows the cell, and what is held is sound.
    pub open spec fn wf(&self) -> bool {
        self@.wf() && self.mapper.cell == self.cell
    }

    /// A session that has seen nothing, on the page `start_url`.
    pub fn new(
        grid: GridSize,
        cell: CellSize,
        start_url: String,
        control_active: bool,
        page_loading: bool,
        pid: u32,
        now: u64,
    ) -> (r: Self)
        ensures
            r.wf(),
            r@.grid == grid,
            r@.cell == cell,
            r@.mode == Mode::Normal,
            r@.ui == (Ui { grid }),
            r@.renderer.grid == grid,
            r@.renderer.cell == cell,
            r@.renderer.gfx == (KittyGraphics { image_id: renderer::IMAGE_ID, placement_id: 1 }),
            r@.renderer.names == Seq::new(
                renderer::SHM_POOL as nat,
                |i: int| renderer::shm::slot_name(pid, i as u8),
            ),
            r@.renderer.payloads == r@.renderer.names.map_values(
                |n: Seq<char>| crate::encoding::base64_encoded(encode_utf8(n)),
            ),
            r@.renderer.slot == 0,
            r@.renderer.last_frame is None,
            r@.renderer.hint_boxes == Seq::<HintBox>::empty(),
            r@.url_buffer == Seq::<char>::empty(),
            r@.current_url == start_url@,
            r@.hints == Seq::<Target>::empty(),
            r@.drawn_hints == Seq::<ui::Tag>::empty(),
            r@.hint_buffer == Seq::<char>::empty(),
            r@.last_mouse_pos is None,
            r@.pending_move is None,
            !r@.quit,
            r@.pacer == (Pacer { in_flight: 0, acked: false, last_transmit_ms: now }),
            r@.watch == (SizeWatch { last_dims: None, last_resync_ms: now }),
            r@.frame_count == 0,
            r@.page_loading == page_loading,
            r@.loading_phase == 0,
            r@.control_active == control_active,
    {
        let r = Session {
            grid,
            cell,
            vp: geometry::page_viewport(grid, cell, 1),
            mapper: InputMapper::new(cell),
            ui: Ui::new(grid),
            renderer: Renderer::new(grid, cell, pid),
            url_buffer: String::new(),
            current_url: start_url,
            hints: Vec::new(),
            drawn_hints: Vec::new(),
            hint_buffer: String::new(),
            last_mouse_pos: None,
            pending_move: None,
            quit: false,
            pacer: Pacer::new(now),
            watch: SizeWatch { last_dims: None, last_resync_ms: now },
            frame_count: 0,
            page_loading,
            loading_phase: 0,
            control_active,
        };
        assert(r@.hints =~= Seq::<Target>::empty());
        assert(r@.drawn_hints =~= Seq::<ui::Tag>::empty());
        r
    }

    /// What the status line is to show.
    pub fn status(&self) -> (r: Vec<u8>)
        ensures
            r@ == self@.status(),
    {
        app::write_status(
            &self.ui,
            self.mapper.mode,
            self.current_url.as_str(),
            self.url_buffer.as_str(),
            self.control_active,
            self.page_loading,
            self.loading_phase,
        )
    }

    /// Takes a frame. None where the terminal does not keep up: the frame is
    /// dropped, and a later one shown instead.
    pub fn on_frame(&mut self, jpeg: &[u8], now: u64) -> (r: Option<FramePlan>)
        requires
            old(self).wf(),
        ensures
            final(self).wf(),
            r is Some <==> old(self)@.pacer.may_send(now),
            r is None ==> final(self)@ == old(self)@,
            r matches Some(p) ==> {
                let dims = app::picture_size(jpeg@);
                let frame = renderer::decoded_image(jpeg@);
                &&& final(self)@ == old(self)@.framed(dims, frame, now)
                &&& p.resync == if old(self)@.watch.due(dims, now) {
                    Some(old(self)@.vp)
                } else {
                    None
                }
                &&& renderer::sent(p.show) == old(self)@.renderer.presented(frame).1
                &&& p.refresh_url == (final(self)@.frame_count as int % URL_REFRESH_FRAMES as int
                    == 0)
            },
    {
        if !self.pacer.admits(now) {
            return None;
        }
        let dims: Option<(u32, u32)> = app::jpeg_dims(jpeg);
        let frame: Option<Rgba> = renderer::decode_image(jpeg);
        self.on_decoded_frame(dims, frame, now)
    }

    /// Takes a frame that is decoded, with the size that its header tells.
    pub fn on_decoded_frame(
        &mut self,
        dims: Option<(u32, u32)>,
        frame: Option<Rgba>,
        now: u64,
    ) -> (r: Option<FramePlan>)
        requires
            old(self).wf(),
            frame matches Some(f) ==> f@.wf(),
        ensures
            final(self).wf(),
            r is Some <==> old(self)@.pacer.may_send(now),
            r is None ==> final(self)@ == old(self)@,
            r matches Some(p) ==> {
                let pic = renderer::picture(frame);
                &&& final(self)@ == old(self)@.framed(dims, pic, now)
                &&& p.resync == if old(self)@.watch.due(dims, now) {
                    Some(old(self)@.vp)
                } else {
                    None
                }
                &&& renderer::sent(p.show) == old(self)@.renderer.presented(pic).1
                &&& p.refresh_url == (final(self)@.frame_count as int % URL_REFRESH_FRAMES as int
                    == 0)
            },
    {
        if !self.pacer.admits(now) {
            return None;
        }
        self.pacer.pass();
        let resync: Option<Viewport> = if self.watch.see(dims, now) {
            Some(self.vp)
        } else {
            None
        };
        let show: Option<Transmission> = self.renderer.present_decoded(frame);
        self.frame_count = if self.frame_count < u64::MAX {
            self.frame_count + 1
        } else {
            0
        };
        let refresh_url: bool = self.frame_count % URL_REFRESH_FRAMES == 0;
        Some(FramePlan { resync, show, refresh_url })
    }

    /// A frame was shown.
    pub fn frame_sent(&mut self, now: u64)
        requires
            old(self).wf(),
        ensures
            final(self).wf(),
            final(self)@ == (SessionView { pacer: old(self)@.pacer.after_sent(now), ..old(self)@ }),
    {
        self.pacer.sent(now);
    }

    /// The page's address came, or none did.
    pub fn on_url(&mut self, url: Option<String>)
        requires
            old(self).wf(),
        ensures
            final(self).wf(),
            final(self)@ == (match url {
                Some(u) => SessionView { current_url: u@, ..old(self)@ },
                None => old(self)@,
            }),
    {
        if let Some(u) = url {
            self.current_url = u;
        }
    }

    /// The page began or ceased to load.
    pub fn on_loading(&mut self, loading: bool) -> (r: Vec<u8>)
        requires
            old(self).wf(),
        ensures
            final(self).wf(),
            final(self)@ == (SessionView { page_loading: loading, ..old(self)@ }),
            r@ == final(self)@.status(),
    {
        self.page_loading = loading;
        self.status()
    }

    /// The loading line moves on.
    pub fn on_tick(&mut self) -> (r: Vec<u8>)
        requires
            old(self).wf(),
            old(self)@.page_loading,
        ensures
            final(self).wf(),
            final(self)@ == (SessionView {
                loading_phase: if old(self)@.loading_phase < u16::MAX {
                    (old(self)@.loading_phase + 1) as u16
                } else {
                    0
                },
                ..old(self)@
            }),
            r@ == final(self)@.status(),
    {
        self.loading_phase = if self.loading_phase < u16::MAX {
            self.loading_phase + 1
        } else {
            0
        };
        self.status()
    }

    /// The terminal's size a moment after the start. The page is laid out for it,
    /// and the status line moves to its last row.
    pub fn on_startup(&mut self, cols: u16, rows: u16) -> (r: Viewport)
        requires
            old(self).wf(),
        ensures
            final(self).wf(),
            final(self)@ == old(self)@.sized(GridSize { cols, rows }),
            r == final(self)@.vp,
    {
        let grid: GridSize = GridSize { cols, rows };
        self.grid = grid;
        self.vp = geometry::page_viewport(grid, self.cell, 1);
        self.renderer.resize(grid, self.cell);
        self.ui.resize(grid);
        self.vp
    }

    /// The terminal's size after a resize. A resize that changes nothing is
    /// ignored: capturing the page anew would blur it.
    pub fn on_resize(&mut self, cols: u16, rows: u16) -> (r: Vec<Effect>)
        requires
            old(self).wf(),
        ensures
            final(self).wf(),
            (final(self)@, effs(r@)) == old(self)@.resized(GridSize { cols, rows }),
    {
        let mut out: Vec<Effect> = Vec::new();
        let grid: GridSize = GridSize { cols, rows };
        if grid == self.grid {
            assert(effs(out@) =~= Seq::<Eff>::empty());
            return out;
        }
        self.grid = grid;
        self.vp = geometry::page_viewport(grid, self.cell, 1);
        self.renderer.resize(grid, self.cell);
        self.ui.resize(grid);
        out.push(Effect::Write("\x1b[2J".to_string().into_bytes()));
        out.push(Effect::Flush);
        out.push(Effect::Resync(self.vp));
        assert(effs(out@) =~= old(self)@.resized(grid).1);
        out
    }

    /// The canonical path of the file that the submitted address names, if there
    /// is one.
    pub fn on_path(&mut self, canonical: Option<String>) -> (r: Vec<Effect>)
        requires
            old(self).wf(),
        ensures
            final(self).wf(),
            (final(self)@, effs(r@)) == old(self)@.submitted(text::opt_view(canonical)),
    {
        let path: Option<&str> = match &canonical {
            Some(p) => Some(p.as_str()),
            None => None,
        };
        let target: String = app::normalize_url(self.url_buffer.as_str(), path);
        self.current_url = target.clone();
        self.url_buffer = String::new();
        let mut out: Vec<Effect> = Vec::new();
        out.push(Effect::Navigate(target));
        assert(effs(out@) =~= old(self)@.submitted(text::opt_view(canonical)).1);
        out
    }

    /// What can be clicked.
    pub fn on_clickables(&mut self, clickables: Vec<Clickable>) -> (r: Vec<Effect>)
        requires
            old(self).wf(),
        ensures
            final(self).wf(),
            (final(self)@, effs(r@)) == old(self)@.hinted(clickables@),
    {
        let mut out: Vec<Effect> = Vec::new();
        if clickables.len() == 0 {
            self.mapper.mode = Mode::Normal;
            out.push(Effect::Write(self.ui.status_bar(NO_CLICKABLES, false)));
            out.push(Effect::Flush);
            assert(effs(out@) =~= old(self)@.hinted(clickables@).1);
            return out;
        }
        let found: Vec<Hint> = hints::assign(clickables.as_slice());
        let ghost t = hints_for(clickables@);
        assert(targets(found@) =~= t);
        let mut overlay: Vec<Label> = Vec::new();
        let mut i: usize = 0;
        while i < found.len()
            invariant
                i <= found@.len(),
                t == targets(found@),
                ui::tags(overlay@) =~= labels_of(t).take(i as int),
            decreases found@.len() - i,
        {
            let (label, c) = &found[i];
            let ghost before = ui::tags(overlay@);
            overlay.push((label.clone(), c.col, c.row));
            assert(labels_of(t)[i as int] == (label@, c.col, c.row));
            assert(ui::tags(overlay@) =~= before.push((label@, c.col, c.row)));
            i += 1;
        }
        proof {
            assert(labels_of(t).take(found@.len() as int) =~= labels_of(t));
            assert forall|i: int| 0 <= i < ui::tags(overlay@).len() implies (#[trigger] ui::tags(
                overlay@,
            )[i]).0.len() <= hints::MAX_LETTERS by {
                assert(labels_of(t)[i].0 == t[i].0);
                hints::lemma_spelled_len(i, hints::label_len(clickables@.len()));
                hints::lemma_max_letters(clickables@.len());
            }
            lemma_boxes_fit(overlay@, self.cell.w);
        }
        let b: Vec<HintBox> = app::hint_boxes(overlay.as_slice(), self.cell);
        assert(b@ =~= boxes(labels_of(t), self.cell));
        let shown: Option<Transmission> = self.renderer.set_hint_boxes(b);
        push_show(&mut out, shown);
        let ghost first = effs(out@);
        out.push(Effect::Write(self.ui.hint_overlay(overlay.as_slice())));
        out.push(Effect::Flush);
        assert(effs(out@) =~= first + seq![
            Eff::Write(encode_utf8(ui::overlay_text(labels_of(t)))),
            Eff::Flush,
        ]);
        self.hints = found;
        self.drawn_hints = overlay;
        self.hint_buffer = String::new();
        out
    }

    /// Takes the hints off the screen.
    fn take_hints_off(&mut self, out: &mut Vec<Effect>)
        requires
            old(self).wf(),
        ensures
            final(self).wf(),
            final(self)@ == old(self)@.hints_off().0,
            effs(final(out)@) == effs(old(out)@) + old(self)@.hints_off().1,
    {
        let ghost start = effs(out@);
        let shown: Option<Transmission> = self.renderer.clear_hint_boxes();
        push_show(out, shown);
        let ghost first = effs(out@);
        if self.drawn_hints.len() > 0 {
            out.push(Effect::Write(self.ui.clear_hints(self.drawn_hints.as_slice())));
            assert(effs(out@) =~= first.push(
                Eff::Write(encode_utf8(ui::erase_text(old(self)@.drawn_hints))),
            ));
            self.drawn_hints = Vec::new();
        }
        assert(ui::tags(self.drawn_hints@) =~= Seq::<ui::Tag>::empty());
        assert(effs(out@) =~= start + old(self)@.hints_off().1);
    }

    /// The first hint with a label.
    fn hint_labelled(&self, label: &str) -> (r: Option<Clickable>)
        ensures
            r == find_hint(self@.hints, label@),
    {
        let ghost all = targets(self.hints@);
        let mut i: usize = 0;
        assert(all.skip(0) =~= all);
        while i < self.hints.len()
            invariant
                i <= self.hints@.len(),
                all == targets(self.hints@),
                find_hint(all, label@) == find_hint(all.skip(i as int), label@),
            decreases self.hints@.len() - i,
        {
            let (l, c) = &self.hints[i];
            assert(all.skip(i as int)[0] == (l@, *c));
            assert(all.skip(i as int).skip(1) =~= all.skip(i + 1));
            if text::same_str(l.as_str(), label) {
                return Some(*c);
            }
            i += 1;
        }
        None
    }

    /// A letter was typed toward a hint.
    fn on_hint_key(&mut self, c: char) -> (r: Vec<Effect>)
        requires
            old(self).wf(),
        ensures
            final(self).wf(),
            (final(self)@, effs(r@)) == old(self)@.hint_typed(c),
    {
        let mut out: Vec<Effect> = Vec::new();
        let mut typed: String = self.hint_buffer.clone();
        typed.push(c);
        if let Some(target) = self.hint_labelled(typed.as_str()) {
            out.push(Effect::ClickHint(target.index));
            out.push(Effect::RefreshUrl);
            assert(effs(out@) =~= seq![Eff::ClickHint(target.index), Eff::RefreshUrl]);
            self.take_hints_off(&mut out);
            let ghost sofar = effs(out@);
            self.mapper.mode = Mode::Normal;
            self.hints = Vec::new();
            self.hint_buffer = String::new();
            out.push(Effect::Flush);
            assert(targets(self.hints@) =~= Seq::<Target>::empty());
            assert(effs(out@) =~= sofar + seq![Eff::Flush]);
            return out;
        }
        let left: Vec<Label> = matching_labels(&self.drawn_hints, typed.as_str());
        if left.len() == 0 {
            assert(ui::tags(left@).len() == 0);
            assert(effs(out@) =~= Seq::<Eff>::empty());
            return out;
        }
        assert(ui::tags(left@).len() > 0);
        proof {
            lemma_matching_short(self@.drawn_hints, typed@);
            lemma_boxes_fit(left@, self.cell.w);
        }
        let b: Vec<HintBox> = app::hint_boxes(left.as_slice(), self.cell);
        assert(b@ =~= boxes(ui::tags(left@), self.cell));
        let shown: Option<Transmission> = self.renderer.set_hint_boxes(b);
        push_show(&mut out, shown);
        let ghost first = effs(out@);
        out.push(Effect::Write(self.ui.clear_hints(self.drawn_hints.as_slice())));
        out.push(Effect::Write(self.ui.hint_overlay(left.as_slice())));
        out.push(Effect::Flush);
        assert(effs(out@) =~= first + seq![
            Eff::Write(encode_utf8(ui::erase_text(old(self)@.drawn_hints))),
            Eff::Write(encode_utf8(ui::overlay_text(ui::tags(left@)))),
            Eff::Flush,
        ]);
        self.drawn_hints = left;
        self.hint_buffer = typed;
        out
    }

    /// Takes an action.
    fn act(&mut self, action: Action) -> (r: Vec<Effect>)
        requires
            old(self).wf(),
        ensures
            final(self).wf(),
            (final(self)@, effs(r@)) == old(self)@.acted(action@),
    {
        let mut out: Vec<Effect> = Vec::new();
        let ghost none = effs(out@);
        assert(none =~= Seq::<Eff>::empty());
        match action {
            Action::Nothing | Action::EnterInsertMode | Action::ExitInsertMode => {},
            Action::Quit => {
                self.quit = true;
            },
            Action::MoveMouse { x, y } => {
                self.last_mouse_pos = Some((x, y));
                self.pending_move = Some((x, y));
            },
            Action::InsertText(t) => {
                out.push(Effect::InsertText(t));
                assert(effs(out@) =~= seq![Eff::InsertText(t@)]);
            },
            Action::Key(k, m) => {
                out.push(Effect::PressKey(k, m));
                assert(effs(out@) =~= seq![Eff::PressKey(k, m)]);
            },
            Action::ClickPixel { x, y, button } => {
                self.last_mouse_pos = Some((x, y));
                // The click moves to its own place; an older hover is stale.
                self.pending_move = None;
                out.push(Effect::Click { x, y, button });
                assert(effs(out@) =~= seq![Eff::Click { x, y, button }]);
            },
            Action::ScrollPixel { x, y, dy } => {
                let p: (HalfPx, HalfPx) = app::scroll_target(x, y, self.last_mouse_pos, self.vp);
                self.last_mouse_pos = Some(p);
                out.push(Effect::Scroll { x: p.0, y: p.1, dy });
                assert(effs(out@) =~= seq![Eff::Scroll { x: p.0, y: p.1, dy }]);
            },
            Action::GoBack => {
                out.push(Effect::GoBack);
                assert(effs(out@) =~= seq![Eff::GoBack]);
            },
            Action::Reload => {
                out.push(Effect::Reload);
                assert(effs(out@) =~= seq![Eff::Reload]);
            },
            Action::EnterUrlMode => {
                self.url_buffer = String::new();
            },
            Action::UrlInputChar(s) => {
                self.url_buffer.push_str(s.as_str());
            },
            Action::UrlBackspace => {
                let _last = self.url_buffer.pop();
            },
            Action::UrlSubmit => {
                out.push(Effect::LookupPath(app::typed_path(self.url_buffer.as_str())));
                assert(effs(out@) =~= seq![Eff::LookupPath(text::trimmed(self@.url_buffer))]);
            },
            Action::UrlCancel => {
                self.url_buffer = String::new();
                self.hint_buffer = String::new();
                self.take_hints_off(&mut out);
                assert(effs(out@) =~= old(self)@.acted(action@).1);
            },
            Action::EnterHintMode => {
                out.push(Effect::CollectClickables);
                assert(effs(out@) =~= seq![Eff::CollectClickables]);
            },
            Action::HintKey(c) => {
                return self.on_hint_key(c);
            },
        }
        out
    }

    /// Takes an input.
    pub fn on_input(&mut self, input: RawInput) -> (r: Vec<Effect>)
        requires
            old(self).wf(),
        ensures
            final(self).wf(),
            (final(self)@, effs(r@)) == old(self)@.after_input(input@),
    {
        match input {
            RawInput::Key(ev) => {
                let action: Action = self.mapper.on_key(ev);
                self.act(action)
            },
            RawInput::Mouse(ev) => {
                let action: Action = self.mapper.on_mouse(ev);
                self.act(action)
            },
            RawInput::Resize => {
                let mut out: Vec<Effect> = Vec::new();
                out.push(Effect::QuerySize);
                assert(effs(out@) =~= seq![Eff::QuerySize]);
                out
            },
            RawInput::GfxAck => {
                self.pacer.ack();
                let out: Vec<Effect> = Vec::new();
                assert(effs(out@) =~= Seq::<Eff>::empty());
                out
            },
        }
    }

    /// Ends a row of inputs: the page is told the last place of the pointer, and
    /// the status line is drawn, also on a page that does not change.
    pub fn end_batch(&mut self, page_loading: bool) -> (r: Vec<Effect>)
        requires
            old(self).wf(),
        ensures
            final(self).wf(),
            (final(self)@, effs(r@)) == old(self)@.batch_ended(page_loading),
    {
        let mut out: Vec<Effect> = Vec::new();
        if let Some((x, y)) = self.pending_move {
            out.push(Effect::MoveMouse { x, y });
        }
        self.pending_move = None;
        self.page_loading = page_loading;
        out.push(Effect::Write(self.status()));
        out.push(Effect::Flush);
        assert(effs(out@) =~= old(self)@.batch_ended(page_loading).1);
        out
    }

    /// A lost browser was started again.
    pub fn on_reconnected(&mut self, page_loading: bool)
        requires
            old(self).wf(),
        ensures
            final(self).wf(),
            final(self)@ == (SessionView { page_loading, ..old(self)@ }),
    {
        self.page_loading = page_loading;
    }
}

/// A label finds what it was given to.
proof fn lemma_label_found(c: Seq<Clickable>, i: int, from: int)
    requires
        0 <= from <= i < c.len(),
    ensures
        find_hint(hints_for(c).skip(from), hints::label(i, c.len())) == Some(c[i]),
    decreases i - from,
{
    let t = hints_for(c).skip(from);
    assert(t[0] == (hints::label(from, c.len()), c[from]));
    if from < i {
        hints::law_labels_distinct(from, i, c.len());
        assert(t.skip(1) =~= hints_for(c).skip(from + 1));
        lemma_label_found(c, i, from + 1);
    }
}

/// What is shorter than the labels finds nothing.
proof fn lemma_short_not_found(c: Seq<Clickable>, typed: Seq<char>, from: int)
    requires
        typed.len() < hints::label_len(c.len()),
        0 <= from <= c.len(),
    ensures
        find_hint(hints_for(c).skip(from), typed) is None,
    decreases c.len() - from,
{
    let t = hints_for(c).skip(from);
    if t.len() > 0 {
        hints::lemma_spelled_len(from, hints::label_len(c.len()));
        assert(t[0].0 == hints::label(from, c.len()));
        assert(t.skip(1) =~= hints_for(c).skip(from + 1));
        lemma_short_not_found(c, typed, from + 1);
    }
}

/// A label on the screen stays there while its beginning is typed.
proof fn lemma_still_matching(drawn: Seq<ui::Tag>, typed: Seq<char>, tag: ui::Tag)
    requires
        drawn.contains(tag),
        typed.is_prefix_of(tag.0),
    ensures
        matching(drawn, typed).contains(tag),
    decreases drawn.len(),
{
    reveal(Seq::filter);
    let i = choose|i: int| 0 <= i < drawn.len() && drawn[i] == tag;
    let t = drawn.drop_last();
    let rest = matching(t, typed);
    let all = matching(drawn, typed);
    assert(all == if typed.is_prefix_of(drawn.last().0) {
        rest.push(drawn.last())
    } else {
        rest
    });
    if i < t.len() {
        assert(t[i] == tag);
        lemma_still_matching(t, typed, tag);
        let k = choose|k: int| 0 <= k < rest.len() && rest[k] == tag;
        assert(all[k] == tag);
    } else {
        assert(all[all.len() - 1] == tag);
    }
}

/// The session once a row of letters was typed toward a hint, and what the last
/// letter did.
pub open spec fn typed_hint(s: SessionView, label: Seq<char>) -> (SessionView, Seq<Eff>)
    decreases label.len(),
{
    if label.len() == 0 {
        (s, Seq::empty())
    } else {
        typed_hint(s, label.drop_last()).0.hint_typed(label.last())
    }
}

/// While a label is typed, what was typed is remembered and the label stays on
/// the screen.
proof fn lemma_label_typed(s: SessionView, c: Seq<Clickable>, i: int, p: int)
    requires
        0 <= i < c.len(),
        0 <= p < hints::label_len(c.len()),
    ensures
        ({
            let label = hints::label(i, c.len());
            let t = typed_hint(s.hinted(c).0, label.take(p)).0;
            &&& t.hint_buffer == label.take(p)
            &&& t.hints == hints_for(c)
            &&& t.drawn_hints.contains((label, c[i].col, c[i].row))
        }),
    decreases p,
{
    let label = hints::label(i, c.len());
    let tag = (label, c[i].col, c[i].row);
    hints::lemma_spelled_len(i, hints::label_len(c.len()));
    if p == 0 {
        assert(label.take(0) =~= Seq::<char>::empty());
        assert(labels_of(hints_for(c))[i] == tag);
    } else {
        lemma_label_typed(s, c, i, p - 1);
        let before = typed_hint(s.hinted(c).0, label.take(p - 1)).0;
        let typed = label.take(p);
        assert(typed.drop_last() =~= label.take(p - 1));
        assert(label.take(p - 1).push(typed.last()) =~= typed);
        assert(hints_for(c).skip(0) =~= hints_for(c));
        lemma_short_not_found(c, typed, 0);
        lemma_still_matching(before.drawn_hints, typed, tag);
    }
}

/// Typing the label of an element clicks that element, takes all hints off the
/// screen and ends hint mode, however many elements there are.
pub proof fn law_label_clicks_its_element(s: SessionView, c: Seq<Clickable>, i: int)
    requires
        s.wf(),
        0 <= i < c.len(),
    ensures
        ({
            let (end, e) = typed_hint(s.hinted(c).0, hints::label(i, c.len()));
            &&& e.len() > 0
            &&& e[0] == Eff::ClickHint(c[i].index)
            &&& end.mode == Mode::Normal
            &&& end.drawn_hints == Seq::<ui::Tag>::empty()
            &&& end.renderer.hint_boxes == Seq::<HintBox>::empty()
            &&& end.hint_buffer == Seq::<char>::empty()
        }),
{
    let k = hints::label_len(c.len());
    let label = hints::label(i, c.len());
    hints::lemma_spelled_len(i, k);
    lemma_label_typed(s, c, i, k - 1);
    let before = typed_hint(s.hinted(c).0, label.take(k - 1)).0;
    assert(label.drop_last() =~= label.take(k - 1));
    assert(label.take(k - 1).push(label.last()) =~= label);
    assert(hints_for(c).skip(0) =~= hints_for(c));
    lemma_label_found(c, i, 0);
    let (end, e) = before.hint_typed(label.last());
    assert(e[0] == Eff::ClickHint(c[i].index));
    assert(before.renderer.hint_boxes.len() == 0 ==> end.renderer.hint_boxes
        =~= Seq::<HintBox>::empty());
}

/// Cancelling leaves nothing behind: no label, no box, nothing typed.
pub proof fn law_cancel_cleans_up(s: SessionView)
    ensures
        ({
            let end = s.acted(Act::UrlCancel).0;
            &&& end.drawn_hints == Seq::<ui::Tag>::empty()
            &&& end.renderer.hint_boxes == Seq::<HintBox>::empty()
            &&& end.hint_buffer == Seq::<char>::empty()
            &&& end.url_buffer == Seq::<char>::empty()
            &&& end.renderer.last_frame == s.renderer.last_frame
        }),
{
    let end = s.acted(Act::UrlCancel).0;
    assert(s.renderer.hint_boxes.len() == 0 ==> end.renderer.hint_boxes
        =~= Seq::<HintBox>::empty());
}

/// What is typed into the address line is what is opened: the pieces in order,
/// and what is opened is what the status line shows.
pub proof fn law_typed_address_is_opened(
    s: SessionView,
    a: Seq<char>,
    b: Seq<char>,
    canonical: Option<Seq<char>>,
)
    ensures
        ({
            let t = s.acted(Act::EnterUrlMode).0.acted(Act::UrlInputChar(a)).0.acted(
                Act::UrlInputChar(b),
            ).0;
            let (end, e) = t.submitted(canonical);
            &&& t.acted(Act::UrlSubmit).1 == seq![Eff::LookupPath(text::trimmed(a + b))]
            &&& e == seq![Eff::Navigate(app::normalized(a + b, canonical))]
            &&& end.current_url == app::normalized(a + b, canonical)
            &&& end.url_buffer == Seq::<char>::empty()
        }),
{
    assert(Seq::<char>::empty() + a + b =~= a + b);
}

/// Backspace takes back the last character that was typed into the address.
pub proof fn law_backspace_undoes(s: SessionView, c: char)
    ensures
        s.acted(Act::UrlInputChar(seq![c])).0.acted(Act::UrlBackspace).0 == s,
{
    assert((s.url_buffer + seq![c]).drop_last() =~= s.url_buffer);
}

/// However many moves of the pointer come in a row, the page is told one: the
/// last. A click needs none, since it moves the pointer itself.
pub proof fn law_moves_coalesce(s: SessionView, a: (HalfPx, HalfPx), b: (HalfPx, HalfPx))
    ensures
        ({
            let moved = s.acted(Act::MoveMouse { x: a.0, y: a.1 }).0.acted(
                Act::MoveMouse { x: b.0, y: b.1 },
            ).0;
            let told = moved.batch_ended(s.page_loading).1;
            &&& told.len() == 3
            &&& told[0] == Eff::MoveMouse { x: b.0, y: b.1 }
            &&& moved.acted(
                Act::ClickPixel { x: a.0, y: a.1, button: MouseButton::Left },
            ).0.batch_ended(s.page_loading).1.len() == 2
        }),
{
}

/// Only a key in normal mode ends the program.
pub proof fn law_quit_only_in_normal(s: SessionView, i: Input)
    requires
        !s.quit,
        s.after_input(i).0.quit,
    ensures
        s.mode == Mode::Normal,
        i is Key,
{
}

/// The status line follows the terminal's size, at the start and after every
/// resize: whatever it says, it is drawn on the last row.
pub proof fn law_status_follows_size(s: SessionView, grid: GridSize)
    requires
        s.wf(),
    ensures
        s.sized(grid).wf(),
        s.sized(grid).ui.grid == grid,
        s.resized(grid).0.wf(),
        s.resized(grid).0.ui.grid == grid,
        ui::cursor_to(s.grid.rows as nat, 1).is_prefix_of(
            app::status_output(
                s.ui,
                s.mode,
                s.current_url,
                s.url_buffer,
                s.control_active,
                s.page_loading,
                s.loading_phase,
            ),
        ),
{
}

/// A resize to the size that the terminal already has does nothing.
pub proof fn law_resize_to_same_is_nothing(s: SessionView)
    ensures
        s.resized(s.grid) == (s, Seq::<Eff>::empty()),
{
}

/// The browser's window is always larger than the page, whatever the terminal's
/// size, and can be asked for.
pub proof fn law_window_fits(grid: GridSize, cell: CellSize, status_rows: u16)
    ensures
        geometry::viewport_of(grid, cell, status_rows).width_px <= u32::MAX - 600,
        geometry::viewport_of(grid, cell, status_rows).height_px <= u32::MAX - 600,
{
    geometry::lemma_viewport_bounded(grid, cell, status_rows);
}

} // verus!
