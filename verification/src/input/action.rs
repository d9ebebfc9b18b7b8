//! What a key or a mouse event does.

use crate::geometry::HalfPx;
use crate::terminal::keyboard::{Key, Mods};
use crate::terminal::mouse::MouseButton;
use vstd::prelude::*;

verus! {

/// What a key or a mouse event does. Coordinates are pixels of the page area.
#[derive(Debug)]
pub enum Action {
    Nothing,
    Quit,
    InsertText(String),
    Key(Key, Mods),
    ClickPixel { x: HalfPx, y: HalfPx, button: MouseButton },
    ScrollPixel { x: HalfPx, y: HalfPx, dy: HalfPx },
    MoveMouse { x: HalfPx, y: HalfPx },
    EnterUrlMode,
    EnterInsertMode,
    ExitInsertMode,
    EnterHintMode,
    UrlInputChar(String),
    UrlBackspace,
    UrlSubmit,
    UrlCancel,
    HintKey(char),
    GoBack,
    Reload,
}

/// What an action holds.
pub enum Act {
    Nothing,
    Quit,
    InsertText(Seq<char>),
    Key(Key, Mods),
    ClickPixel { x: HalfPx, y: HalfPx, button: MouseButton },
    ScrollPixel { x: HalfPx, y: HalfPx, dy: HalfPx },
    MoveMouse { x: HalfPx, y: HalfPx },
    EnterUrlMode,
    EnterInsertMode,
    ExitInsertMode,
    EnterHintMode,
    UrlInputChar(Seq<char>),
    UrlBackspace,
    UrlSubmit,
    UrlCancel,
    HintKey(char),
    GoBack,
    Reload,
}

impl View for Action {
    type V = Act;

    open spec fn view(&self) -> Act {
        match *self {
            Action::Nothing => Act::Nothing,
            Action::Quit => Act::Quit,
            Action::InsertText(t) => Act::InsertText(t@),
            Action::Key(k, m) => Act::Key(k, m),
            Action::ClickPixel { x, y, button } => Act::ClickPixel { x, y, button },
            Action::ScrollPixel { x, y, dy } => Act::ScrollPixel { x, y, dy },
            Action::MoveMouse { x, y } => Act::MoveMouse { x, y },
            Action::EnterUrlMode => Act::EnterUrlMode,
            Action::EnterInsertMode => Act::EnterInsertMode,
            Action::ExitInsertMode => Act::ExitInsertMode,
            Action::EnterHintMode => Act::EnterHintMode,
            Action::UrlInputChar(t) => Act::UrlInputChar(t@),
            Action::UrlBackspace => Act::UrlBackspace,
            Action::UrlSubmit => Act::UrlSubmit,
            Action::UrlCancel => Act::UrlCancel,
            Action::HintKey(c) => Act::HintKey(c),
            Action::GoBack => Act::GoBack,
            Action::Reload => Act::Reload,
        }
    }
}

} // verus!
