//! The modes, and what keys and the mouse do in each.

pub mod action;
pub mod hints;

use crate::geometry;
use crate::geometry::{CellSize, HalfPx};
use crate::input::action::{Act, Action};
use crate::terminal::keyboard;
use crate::terminal::keyboard::{Key, KeyEvent};
use crate::terminal::mouse::{MouseEvent, MouseKind};
use crate::text;
use vstd::prelude::*;

verus! {

/// The mode in which keys are read.
#[derive(Debug, Clone, Copy, PartialEq, Eq, Structural)]
pub enum Mode {
    /// Keys are commands.
    Normal,
    /// Keys go to the page.
    Insert,
    /// Keys edit the address.
    UrlInput,
    /// Keys pick a hint.
    Hint,
}

/// `n` times the height of a cell, as a distance.
pub open spec fn lines(cell: CellSize, n: int) -> HalfPx {
    HalfPx::whole(n * cell.h)
}

/// No place of its own: the page decides where to scroll.
pub open spec fn nowhere() -> HalfPx {
    HalfPx { halves: 0 }
}

/// Scrolling by `n` lines, not at any place.
pub open spec fn scroll_lines(cell: CellSize, n: int) -> Act {
    Act::ScrollPixel { x: nowhere(), y: nowhere(), dy: lines(cell, n) }
}

/// What a key does in normal mode: it is a command, or goes to the page where
/// it types nothing (Esc and the arrows), or does nothing at all.
pub open spec fn normal_key(cell: CellSize, ev: keyboard::KeyPress) -> (Mode, Act) {
    match ev.key {
        Key::Char('i') => (Mode::Insert, Act::EnterInsertMode),
        Key::Char(':') => (Mode::UrlInput, Act::EnterUrlMode),
        Key::Char('f') => (Mode::Hint, Act::EnterHintMode),
        Key::Char('q') => (Mode::Normal, Act::Quit),
        Key::Char('r') => (Mode::Normal, Act::Reload),
        Key::Char('H') | Key::Backspace => (Mode::Normal, Act::GoBack),
        Key::Char('j') => (Mode::Normal, scroll_lines(cell, 3)),
        Key::Char('k') => (Mode::Normal, scroll_lines(cell, -3)),
        Key::Esc | Key::Up | Key::Down | Key::Left | Key::Right => (
            Mode::Normal,
            Act::Key(ev.key, ev.mods),
        ),
        _ => (Mode::Normal, Act::Nothing),
    }
}

/// What a key does in insert mode: Esc leaves it, editing keys go to the page
/// as keys, and anything else as the text it types.
pub open spec fn insert_key(ev: keyboard::KeyPress) -> (Mode, Act) {
    match ev.key {
        Key::Esc => (Mode::Normal, Act::ExitInsertMode),
        Key::Enter | Key::Backspace | Key::Tab | Key::Delete | Key::Up | Key::Down | Key::Left
        | Key::Right => (Mode::Insert, Act::Key(ev.key, ev.mods)),
        _ => match ev.text {
            Some(t) => (Mode::Insert, Act::InsertText(t)),
            None => (Mode::Insert, Act::Nothing),
        },
    }
}

/// What a key does while the address is typed.
pub open spec fn url_key(ev: keyboard::KeyPress) -> (Mode, Act) {
    match ev.key {
        Key::Esc => (Mode::Normal, Act::UrlCancel),
        Key::Enter => (Mode::Normal, Act::UrlSubmit),
        Key::Backspace => (Mode::UrlInput, Act::UrlBackspace),
        _ => match ev.text {
            Some(t) => (Mode::UrlInput, Act::UrlInputChar(t)),
            None => (Mode::UrlInput, Act::Nothing),
        },
    }
}

/// What a key does while a hint is picked: letters count, in either case.
pub open spec fn hint_key(ev: keyboard::KeyPress) -> (Mode, Act) {
    match ev.key {
        Key::Esc => (Mode::Normal, Act::UrlCancel),
        Key::Char(c) => if text::is_letter(c) {
            (Mode::Hint, Act::HintKey(text::ascii_lower(c)))
        } else {
            (Mode::Hint, Act::Nothing)
        },
        _ => (Mode::Hint, Act::Nothing),
    }
}

/// The next mode and what a key does.
pub open spec fn key_act(mode: Mode, cell: CellSize, ev: keyboard::KeyPress) -> (Mode, Act) {
    match mode {
        Mode::Normal => normal_key(cell, ev),
        Mode::Insert => insert_key(ev),
        Mode::UrlInput => url_key(ev),
        Mode::Hint => hint_key(ev),
    }
}

/// What a mouse event does, in any mode: it happens at the centre of its cell.
pub open spec fn mouse_act(cell: CellSize, ev: MouseEvent) -> Act {
    let x = geometry::cell_center(ev.col, cell.w);
    let y = geometry::cell_center(ev.row, cell.h);
    match ev.kind {
        MouseKind::Down(button) => Act::ClickPixel { x, y, button },
        MouseKind::WheelDown => Act::ScrollPixel { x, y, dy: lines(cell, 1) },
        MouseKind::WheelUp => Act::ScrollPixel { x, y, dy: lines(cell, -1) },
        MouseKind::Move => Act::MoveMouse { x, y },
        MouseKind::Up(_) => Act::Nothing,
    }
}

/// Maps keys and mouse events to actions.
#[derive(Debug, Clone, Copy, PartialEq, Eq, Structural)]
pub struct InputMapper {
    pub mode: Mode,
    pub cell: CellSize,
}

impl InputMapper {
    /// A mapper in normal mode.
    pub fn new(cell: CellSize) -> (r: Self)
        ensures
            r == (InputMapper { mode: Mode::Normal, cell }),
    {
        InputMapper { mode: Mode::Normal, cell }
    }

    /// Takes a key.
    pub fn on_key(&mut self, ev: KeyEvent) -> (r: Action)
        ensures
            final(self).cell == old(self).cell,
            (final(self).mode, r@) == key_act(old(self).mode, old(self).cell, ev@),
    {
        match self.mode {
            Mode::Normal => self.on_key_normal(ev),
            Mode::Insert => self.on_key_insert(ev),
            Mode::UrlInput => self.on_key_url(ev),
            Mode::Hint => self.on_key_hint(ev),
        }
    }

    fn on_key_normal(&mut self, ev: KeyEvent) -> (r: Action)
        requires
            old(self).mode == Mode::Normal,
        ensures
            final(self).cell == old(self).cell,
            (final(self).mode, r@) == normal_key(old(self).cell, ev@),
    {
        let line: i32 = 3 * self.cell.h as i32;
        match ev.key {
            Key::Char('i') => {
                self.mode = Mode::Insert;
                Action::EnterInsertMode
            },
            Key::Char(':') => {
                self.mode = Mode::UrlInput;
                Action::EnterUrlMode
            },
            Key::Char('f') => {
                self.mode = Mode::Hint;
                Action::EnterHintMode
            },
            Key::Char('q') => Action::Quit,
            Key::Char('r') => Action::Reload,
            Key::Char('H') | Key::Backspace => Action::GoBack,
            Key::Char('j') => Action::ScrollPixel {
                x: HalfPx::pixels(0),
                y: HalfPx::pixels(0),
                dy: HalfPx::pixels(line),
            },
            Key::Char('k') => Action::ScrollPixel {
                x: HalfPx::pixels(0),
                y: HalfPx::pixels(0),
                dy: HalfPx::pixels(-line),
            },
            Key::Esc | Key::Up | Key::Down | Key::Left | Key::Right => Action::Key(ev.key, ev.mods),
            // Any other key, text or not, is swallowed.
            _ => Action::Nothing,
        }
    }

    fn on_key_insert(&mut self, ev: KeyEvent) -> (r: Action)
        requires
            old(self).mode == Mode::Insert,
        ensures
            final(self).cell == old(self).cell,
            (final(self).mode, r@) == insert_key(ev@),
    {
        match ev.key {
            Key::Esc => {
                self.mode = Mode::Normal;
                Action::ExitInsertMode
            },
            Key::Enter | Key::Backspace | Key::Tab | Key::Delete | Key::Up | Key::Down | Key::Left
            | Key::Right => Action::Key(ev.key, ev.mods),
            _ => match ev.text {
                Some(t) => Action::InsertText(t),
                None => Action::Nothing,
            },
        }
    }

    fn on_key_url(&mut self, ev: KeyEvent) -> (r: Action)
        requires
            old(self).mode == Mode::UrlInput,
        ensures
            final(self).cell == old(self).cell,
            (final(self).mode, r@) == url_key(ev@),
    {
        match ev.key {
            Key::Esc => {
                self.mode = Mode::Normal;
                Action::UrlCancel
            },
            Key::Enter => {
                self.mode = Mode::Normal;
                Action::UrlSubmit
            },
            Key::Backspace => Action::UrlBackspace,
            _ => match ev.text {
                Some(t) => Action::UrlInputChar(t),
                None => Action::Nothing,
            },
        }
    }

    fn on_key_hint(&mut self, ev: KeyEvent) -> (r: Action)
        requires
            old(self).mode == Mode::Hint,
        ensures
            final(self).cell == old(self).cell,
            (final(self).mode, r@) == hint_key(ev@),
    {
        match ev.key {
            Key::Esc => {
                self.mode = Mode::Normal;
                Action::UrlCancel
            },
            Key::Char(c) => if text::letter(c) {
                Action::HintKey(text::lower(c))
            } else {
                Action::Nothing
            },
            _ => Action::Nothing,
        }
    }

    /// Takes a mouse event.
    pub fn on_mouse(&mut self, ev: MouseEvent) -> (r: Action)
        ensures
            *final(self) == *old(self),
            r@ == mouse_act(old(self).cell, ev),
    {
        let wheel: i32 = self.cell.h as i32;
        let (x, y) = geometry::cell_to_pixel(ev.col, ev.row, self.cell);
        match ev.kind {
            MouseKind::Down(b) => Action::ClickPixel { x, y, button: b },
            MouseKind::WheelDown => Action::ScrollPixel { x, y, dy: HalfPx::pixels(wheel) },
            MouseKind::WheelUp => Action::ScrollPixel { x, y, dy: HalfPx::pixels(-wheel) },
            MouseKind::Move => Action::MoveMouse { x, y },
            MouseKind::Up(_) => Action::Nothing,
        }
    }
}

/// Normal mode is for commands: whatever the key, no text reaches the page or
/// the address.
pub proof fn law_normal_types_nothing(cell: CellSize, ev: keyboard::KeyPress)
    ensures
        !(key_act(Mode::Normal, cell, ev).1 is InsertText),
        !(key_act(Mode::Normal, cell, ev).1 is UrlInputChar),
{
}

/// Only insert mode puts text into the page, and only the address mode edits
/// the address.
pub proof fn law_text_goes_by_mode(mode: Mode, cell: CellSize, ev: keyboard::KeyPress)
    ensures
        key_act(mode, cell, ev).1 is InsertText ==> mode == Mode::Insert,
        key_act(mode, cell, ev).1 is UrlInputChar ==> mode == Mode::UrlInput,
        key_act(mode, cell, ev).1 is HintKey ==> mode == Mode::Hint,
        key_act(mode, cell, ev).1 is Quit ==> mode == Mode::Normal,
{
}

/// Esc leads to normal mode from anywhere; in normal mode it goes to the page.
pub proof fn law_esc_to_normal(mode: Mode, cell: CellSize, ev: keyboard::KeyPress)
    requires
        ev.key == Key::Esc,
    ensures
        key_act(mode, cell, ev).0 == Mode::Normal,
        mode == Mode::Normal ==> key_act(mode, cell, ev).1 == Act::Key(Key::Esc, ev.mods),
{
}

/// A mode is entered only from normal mode, and left only to it.
pub proof fn law_modes_meet_in_normal(mode: Mode, cell: CellSize, ev: keyboard::KeyPress)
    ensures
        ({
            let next = key_act(mode, cell, ev).0;
            next == mode || next == Mode::Normal || mode == Mode::Normal
        }),
{
}

/// Typed text arrives as it was typed, in both modes that take text, for every
/// key that is not one of the mode's own.
pub proof fn law_text_arrives(cell: CellSize, c: char, mods: keyboard::Mods, t: Seq<char>)
    ensures
        ({
            let ev = keyboard::KeyPress { key: Key::Char(c), mods, text: Some(t) };
            &&& key_act(Mode::Insert, cell, ev) == (Mode::Insert, Act::InsertText(t))
            &&& key_act(Mode::UrlInput, cell, ev) == (Mode::UrlInput, Act::UrlInputChar(t))
        }),
{
}

} // verus!
