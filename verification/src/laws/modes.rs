//! What keys and the mouse do.

use crate::geometry::CellSize;
use crate::input;
use crate::input::action::Act;
use crate::input::hints;
use crate::input::{InputMapper, Mode};
use crate::terminal::keyboard::{Key, KeyPress};
use crate::terminal::mouse::{MouseButton, MouseEvent, MouseKind};
use vstd::prelude::*;

verus! {

/// The commands of normal mode, whatever modifiers are held: `i` types into the
/// page, `:` types an address, `f` shows the hints, `q` quits, `r` reloads, `H`
/// and Backspace go back.
pub proof fn law_commands(cell: CellSize, ev: KeyPress)
    ensures
        ({
            let r = input::key_act(Mode::Normal, cell, ev);
            &&& ev.key == Key::Char('i') ==> r == (Mode::Insert, Act::EnterInsertMode)
            &&& ev.key == Key::Char(':') ==> r == (Mode::UrlInput, Act::EnterUrlMode)
            &&& ev.key == Key::Char('f') ==> r == (Mode::Hint, Act::EnterHintMode)
            &&& ev.key == Key::Char('q') ==> r == (Mode::Normal, Act::Quit)
            &&& ev.key == Key::Char('r') ==> r == (Mode::Normal, Act::Reload)
            &&& ev.key == Key::Char('H') ==> r == (Mode::Normal, Act::GoBack)
            &&& ev.key == Key::Backspace ==> r == (Mode::Normal, Act::GoBack)
        }),
{
}

/// `j` scrolls down by three cells' height and `k` up by as much, and neither has
/// a place of its own.
pub proof fn law_scroll_keys(cell: CellSize, ev: KeyPress)
    requires
        ev.key == Key::Char('j') || ev.key == Key::Char('k'),
    ensures
        ({
            let (mode, act) = input::key_act(Mode::Normal, cell, ev);
            &&& mode == Mode::Normal
            &&& act is ScrollPixel
            &&& act->ScrollPixel_x.halves == 0
            &&& act->ScrollPixel_y.halves == 0
            &&& ev.key == Key::Char('j') ==> act->dy.halves == 2 * (3 * cell.h)
            &&& ev.key == Key::Char('k') ==> act->dy.halves == -2 * (3 * cell.h)
        }),
{
}

/// The arrows and Esc go to the page as they are, from normal mode.
pub proof fn law_page_keys(cell: CellSize, ev: KeyPress)
    requires
        ev.key is Esc || ev.key is Up || ev.key is Down || ev.key is Left || ev.key is Right,
    ensures
        input::key_act(Mode::Normal, cell, ev) == (Mode::Normal, Act::Key(ev.key, ev.mods)),
{
}

/// Every other key is swallowed in normal mode.
pub proof fn law_no_other_commands(cell: CellSize, ev: KeyPress)
    requires
        match ev.key {
            Key::Char(c) => c != 'i' && c != ':' && c != 'f' && c != 'q' && c != 'r' && c != 'H' && c
                != 'j' && c != 'k',
            Key::Enter | Key::Tab | Key::Home | Key::End | Key::PageUp | Key::PageDown | Key::Delete
            | Key::F(_) => true,
            _ => false,
        },
    ensures
        input::key_act(Mode::Normal, cell, ev) == (Mode::Normal, Act::Nothing),
{
}

/// In insert mode Esc leaves the mode, the keys that edit and the arrows go to the
/// page as keys with their modifiers, and every other key as the text it types, if
/// it types any.
pub proof fn law_insert_mode(cell: CellSize, ev: KeyPress)
    ensures
        ({
            let r = input::key_act(Mode::Insert, cell, ev);
            let edits = ev.key is Enter || ev.key is Backspace || ev.key is Tab || ev.key is Delete
                || ev.key is Up || ev.key is Down || ev.key is Left || ev.key is Right;
            &&& ev.key is Esc ==> r == (Mode::Normal, Act::ExitInsertMode)
            &&& edits ==> r == (Mode::Insert, Act::Key(ev.key, ev.mods))
            &&& !edits && !(ev.key is Esc) && ev.text is Some ==> r == (
                Mode::Insert,
                Act::InsertText(ev.text->0),
            )
            &&& !edits && !(ev.key is Esc) && ev.text is None ==> r == (Mode::Insert, Act::Nothing)
        }),
{
}

/// While an address is typed, Enter opens it, Esc gives it up, Backspace takes the
/// last character off, and every other key adds the text it types, if any.
pub proof fn law_address_mode(cell: CellSize, ev: KeyPress)
    ensures
        ({
            let r = input::key_act(Mode::UrlInput, cell, ev);
            let own = ev.key is Enter || ev.key is Esc || ev.key is Backspace;
            &&& ev.key is Enter ==> r == (Mode::Normal, Act::UrlSubmit)
            &&& ev.key is Esc ==> r == (Mode::Normal, Act::UrlCancel)
            &&& ev.key is Backspace ==> r == (Mode::UrlInput, Act::UrlBackspace)
            &&& !own && ev.text is Some ==> r == (Mode::UrlInput, Act::UrlInputChar(ev.text->0))
            &&& !own && ev.text is None ==> r == (Mode::UrlInput, Act::Nothing)
        }),
{
}

/// While a hint is picked, a letter counts in either case, Esc gives up, and
/// nothing else does anything.
pub proof fn law_hint_mode(cell: CellSize, ev: KeyPress)
    ensures
        ({
            let r = input::key_act(Mode::Hint, cell, ev);
            &&& ev.key is Esc ==> r == (Mode::Normal, Act::UrlCancel)
            &&& ev.key matches Key::Char(c) ==> 'a' <= c <= 'z' ==> r == (
                Mode::Hint,
                Act::HintKey(c),
            )
            &&& ev.key matches Key::Char(c) ==> 'A' <= c <= 'Z' ==> r == (
                Mode::Hint,
                Act::HintKey((c as int + 32) as char),
            )
            &&& ev.key matches Key::Char(c) ==> !('a' <= c <= 'z') && !('A' <= c <= 'Z') ==> r == (
                Mode::Hint,
                Act::Nothing,
            )
            &&& !(ev.key is Esc) && !(ev.key is Char) ==> r == (Mode::Hint, Act::Nothing)
        }),
{
}

proof fn lemma_place(n: u16, size: u16)
    ensures
        crate::geometry::cell_center(n, size).halves == (2 * n + 1) * size,
{
    assert(0 <= (2 * n + 1) * size <= 0x2_0000_0000) by (nonlinear_arith)
        requires
            0 <= n <= 0xffff,
            0 <= size <= 0xffff,
    ;
}

/// A press clicks with its button in the middle of its cell; a release does
/// nothing more; a move moves the pointer there.
pub proof fn law_mouse_places(cell: CellSize, ev: MouseEvent, b: MouseButton)
    ensures
        ({
            let act = input::mouse_act(cell, ev);
            let x = (2 * ev.col + 1) * cell.w;
            let y = (2 * ev.row + 1) * cell.h;
            &&& ev.kind == MouseKind::Down(b) ==> act is ClickPixel && act->ClickPixel_x.halves == x
                && act->ClickPixel_y.halves == y && act->button == b
            &&& ev.kind == MouseKind::Up(b) ==> act is Nothing
            &&& ev.kind is Move ==> act is MoveMouse && act->MoveMouse_x.halves == x
                && act->MoveMouse_y.halves == y
        }),
{
    lemma_place(ev.col, cell.w);
    lemma_place(ev.row, cell.h);
}

/// The wheel scrolls what is under the pointer, down or up by the height of a
/// cell.
pub proof fn law_wheel_scrolls(cell: CellSize, ev: MouseEvent)
    requires
        ev.kind is WheelDown || ev.kind is WheelUp,
    ensures
        ({
            let act = input::mouse_act(cell, ev);
            &&& act is ScrollPixel
            &&& act->ScrollPixel_x.halves == (2 * ev.col + 1) * cell.w
            &&& act->ScrollPixel_y.halves == (2 * ev.row + 1) * cell.h
            &&& ev.kind is WheelDown ==> act->dy.halves == 2 * cell.h
            &&& ev.kind is WheelUp ==> act->dy.halves == -2 * cell.h
        }),
{
    lemma_place(ev.col, cell.w);
    lemma_place(ev.row, cell.h);
}

/// The browser starts in normal mode.
pub proof fn law_starts_in_normal_mode(cell: CellSize, r: InputMapper)
    requires
        call_ensures(InputMapper::new, (cell,), r),
    ensures
        r.mode == Mode::Normal,
        r.cell == cell,
{
}

/// The letters of the home row come first, then those above it, then those below.
pub proof fn law_home_row_first()
    ensures
        hints::ALPHA@.take(9) == "asdfghjkl"@,
        hints::ALPHA@.subrange(9, 19) == "qwertyuiop"@,
        hints::ALPHA@.skip(19) == "zxcvbnm"@,
{
    reveal_strlit("asdfghjklqwertyuiopzxcvbnm");
    reveal_strlit("asdfghjkl");
    reveal_strlit("qwertyuiop");
    reveal_strlit("zxcvbnm");
    assert(hints::ALPHA@.take(9) =~= "asdfghjkl"@);
    assert(hints::ALPHA@.subrange(9, 19) =~= "qwertyuiop"@);
    assert(hints::ALPHA@.skip(19) =~= "zxcvbnm"@);
}

/// Labels have no more letters than it takes: a letter more only where the
/// elements are more than the labels of one letter less could name.
pub proof fn law_fewest_letters(n: nat, k: nat)
    requires
        k >= 1,
        n > vstd::arithmetic::power::pow(26, k),
    ensures
        hints::label_len(n) > k,
    decreases k,
{
    reveal(vstd::arithmetic::power::pow);
    let m = (n + 25) / 26;
    if k == 1 {
        assert(vstd::arithmetic::power::pow(26, 1) == 26) by {
            reveal_with_fuel(vstd::arithmetic::power::pow, 2);
        }
        assert(hints::label_len(n) == 1 + hints::label_len(m));
        reveal_with_fuel(hints::label_len, 2);
    } else {
        let p = vstd::arithmetic::power::pow(26, (k - 1) as nat);
        assert(vstd::arithmetic::power::pow(26, k) == 26 * p);
        vstd::arithmetic::power::lemma_pow_positive(26, (k - 1) as nat);
        assert(n > 26);
        assert(m > p);
        law_fewest_letters(m, (k - 1) as nat);
    }
}

/// The labels count through the letters: the last letter of a label goes round
/// with every element, and what stands before it is the label of the element's
/// twenty-sixth.
pub proof fn law_labels_count(i: int, k: nat)
    requires
        i >= 0,
        k > 0,
    ensures
        hints::spelled(i, k).last() == hints::ALPHA@[i % 26],
        hints::spelled(i, k).drop_last() == hints::spelled(i / 26, (k - 1) as nat),
{
    assert(hints::spelled(i, k).drop_last() =~= hints::spelled(i / 26, (k - 1) as nat));
}

} // verus!
