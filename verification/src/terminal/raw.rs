//! Setting the terminal up and putting it back.

use crate::text;
use vstd::prelude::*;

verus! {

/// Switches to the alternate screen.
pub const ENTER_ALT: &'static str = "\x1b[?1049h";

/// Switches back from the alternate screen.
pub const LEAVE_ALT: &'static str = "\x1b[?1049l";

/// Hides the cursor.
pub const HIDE_CURSOR: &'static str = "\x1b[?25l";

/// Shows the cursor.
pub const SHOW_CURSOR: &'static str = "\x1b[?25h";

/// Asks for keys in the Kitty protocol.
pub const KKBD_PUSH: &'static str = "\x1b[>1u";

/// Goes back to the keys as they came before.
pub const KKBD_POP: &'static str = "\x1b[<u";

/// Asks for every mouse event, in SGR form.
pub const MOUSE_ON: &'static str = "\x1b[?1003h\x1b[?1006h";

/// Asks for no more mouse events.
pub const MOUSE_OFF: &'static str = "\x1b[?1006l\x1b[?1003l";

/// What is written to set the terminal up.
pub open spec fn setup_text() -> Seq<char> {
    ENTER_ALT@ + HIDE_CURSOR@ + KKBD_PUSH@ + MOUSE_ON@
}

/// What is written to put the terminal back: each part of the setup undone, the
/// last one first.
pub open spec fn restore_text() -> Seq<char> {
    MOUSE_OFF@ + KKBD_POP@ + SHOW_CURSOR@ + LEAVE_ALT@
}

/// The escapes that set the terminal up.
pub fn setup_escapes() -> (r: String)
    ensures
        r@ == setup_text(),
{
    let mut out: String = ENTER_ALT.to_string();
    out.push_str(HIDE_CURSOR);
    out.push_str(KKBD_PUSH);
    out.push_str(MOUSE_ON);
    out
}

/// The escapes that put the terminal back.
pub fn restore_escapes() -> (r: String)
    ensures
        r@ == restore_text(),
{
    let mut out: String = MOUSE_OFF.to_string();
    out.push_str(KKBD_POP);
    out.push_str(SHOW_CURSOR);
    out.push_str(LEAVE_ALT);
    out
}

/// Stands for a terminal that was set up, until it is put back.
#[derive(Debug)]
pub struct RestoreGuard {
    pub active: bool,
}

impl RestoreGuard {
    /// A guard for a terminal that is set up.
    pub fn for_test() -> (r: RestoreGuard)
        ensures
            r.active,
    {
        RestoreGuard { active: true }
    }

    /// A guard for a terminal in raw mode, with what is to be written to set the
    /// rest up. The guard comes first: where writing fails, it still puts the
    /// terminal back.
    pub fn entered() -> (r: (RestoreGuard, String))
        ensures
            r.0.active,
            r.1@ == setup_text(),
    {
        (RestoreGuard { active: true }, setup_escapes())
    }

    /// Puts the terminal back: the first call says what to write, any other that
    /// there is nothing left to do.
    pub fn restore(&mut self) -> (r: Option<String>)
        ensures
            !final(self).active,
            text::opt_view(r) == if old(self).active {
                Some(restore_text())
            } else {
                None
            },
    {
        if !self.active {
            return None;
        }
        self.active = false;
        Some(restore_escapes())
    }
}

/// The parts of the terminal's state that the escapes change.
pub struct Switches {
    pub alt_screen: bool,
    pub hidden_cursor: bool,
    pub kitty_keys: int,
    pub mouse_events: bool,
    pub sgr_mouse: bool,
}

/// What one of the escapes does to the state.
pub open spec fn switched(s: Switches, escape: Seq<char>) -> Switches {
    if escape == ENTER_ALT@ {
        Switches { alt_screen: true, ..s }
    } else if escape == LEAVE_ALT@ {
        Switches { alt_screen: false, ..s }
    } else if escape == HIDE_CURSOR@ {
        Switches { hidden_cursor: true, ..s }
    } else if escape == SHOW_CURSOR@ {
        Switches { hidden_cursor: false, ..s }
    } else if escape == KKBD_PUSH@ {
        Switches { kitty_keys: s.kitty_keys + 1, ..s }
    } else if escape == KKBD_POP@ {
        Switches { kitty_keys: s.kitty_keys - 1, ..s }
    } else if escape == MOUSE_ON@ {
        Switches { mouse_events: true, sgr_mouse: true, ..s }
    } else if escape == MOUSE_OFF@ {
        Switches { mouse_events: false, sgr_mouse: false, ..s }
    } else {
        s
    }
}

/// The parts of the setup, in order.
pub open spec fn setup_parts() -> Seq<Seq<char>> {
    seq![ENTER_ALT@, HIDE_CURSOR@, KKBD_PUSH@, MOUSE_ON@]
}

/// The parts of the restoration, in order.
pub open spec fn restore_parts() -> Seq<Seq<char>> {
    seq![MOUSE_OFF@, KKBD_POP@, SHOW_CURSOR@, LEAVE_ALT@]
}

/// What a row of escapes does to the state.
pub open spec fn all_switched(s: Switches, parts: Seq<Seq<char>>) -> Switches
    decreases parts.len(),
{
    if parts.len() == 0 {
        s
    } else {
        switched(all_switched(s, parts.drop_last()), parts.last())
    }
}

/// The row of escapes, written out.
pub open spec fn written(parts: Seq<Seq<char>>) -> Seq<char>
    decreases parts.len(),
{
    if parts.len() == 0 {
        Seq::empty()
    } else {
        written(parts.drop_last()) + parts.last()
    }
}

/// Putting the terminal back undoes all of the setup.
pub proof fn law_restore_undoes_setup(s: Switches)
    requires
        !s.alt_screen,
        !s.hidden_cursor,
        !s.mouse_events,
        !s.sgr_mouse,
    ensures
        written(setup_parts()) == setup_text(),
        written(restore_parts()) == restore_text(),
        all_switched(all_switched(s, setup_parts()), restore_parts()) == s,
{
    reveal_strlit("\x1b[?1049h");
    reveal_strlit("\x1b[?1049l");
    reveal_strlit("\x1b[?25l");
    reveal_strlit("\x1b[?25h");
    reveal_strlit("\x1b[>1u");
    reveal_strlit("\x1b[<u");
    reveal_strlit("\x1b[?1003h\x1b[?1006h");
    reveal_strlit("\x1b[?1006l\x1b[?1003l");
    reveal_with_fuel(written, 5);
    reveal_with_fuel(all_switched, 5);
    let a = setup_parts();
    let b = restore_parts();
    assert(a.drop_last() =~= seq![ENTER_ALT@, HIDE_CURSOR@, KKBD_PUSH@]);
    assert(a.drop_last().drop_last() =~= seq![ENTER_ALT@, HIDE_CURSOR@]);
    assert(a.drop_last().drop_last().drop_last() =~= seq![ENTER_ALT@]);
    assert(b.drop_last() =~= seq![MOUSE_OFF@, KKBD_POP@, SHOW_CURSOR@]);
    assert(b.drop_last().drop_last() =~= seq![MOUSE_OFF@, KKBD_POP@]);
    assert(b.drop_last().drop_last().drop_last() =~= seq![MOUSE_OFF@]);
    assert(written(a) =~= setup_text());
    assert(written(b) =~= restore_text());
    assert(ENTER_ALT@[7] == 'h' && LEAVE_ALT@[7] == 'l');
    assert(HIDE_CURSOR@.len() == 6 && HIDE_CURSOR@[5] == 'l' && SHOW_CURSOR@[5] == 'h');
    assert(KKBD_PUSH@.len() == 5 && KKBD_POP@.len() == 4);
    assert(MOUSE_ON@[7] == 'h' && MOUSE_OFF@[7] == 'l' && MOUSE_ON@.len() == 16);
}

} // verus!
