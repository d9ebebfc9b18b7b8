//! What is written over the frame.

use crate::geometry::GridSize;
use crate::text;
use crate::ui;
use crate::ui::Tag;
use vstd::prelude::*;

verus! {

/// The cursor goes to a row and a column, in that order, both counted from one.
pub proof fn law_cursor(row: nat, col: nat)
    ensures
        ui::cursor_to(row, col) == seq!['\x1b', '['] + text::dec(row).push(';') + text::dec(col).push(
            'H',
        ),
{
    reveal_strlit("\x1b[");
    reveal_strlit(";");
    reveal_strlit("H");
    assert(ui::cursor_to(row, col) =~= seq!['\x1b', '['] + text::dec(row).push(';') + text::dec(
        col,
    ).push('H'));
}

/// A text is cut at the end, and only where it is too long.
pub proof fn law_clipped(s: Seq<char>, width: nat)
    ensures
        ui::clipped(s, width).is_prefix_of(s),
        ui::clipped(s, width).len() == (if s.len() <= width {
            s.len()
        } else {
            width
        }),
{
}

/// On a line that is wide enough the status is whole, behind a spinner while the
/// page loads and behind two blanks when it does not.
pub proof fn law_status_is_whole(s: Seq<char>, width: nat)
    requires
        s.len() + 2 <= width,
    ensures
        ui::status_text(s, true, width) == seq!['⟳', ' '] + s,
        ui::status_text(s, false, width) == seq![' ', ' '] + s,
{
    reveal_strlit("⟳ ");
    reveal_strlit("  ");
    assert("⟳ "@ =~= seq!['⟳', ' ']);
    assert("  "@ =~= seq![' ', ' ']);
}

/// The status of a page that has loaded stands in reverse on the last row, which
/// is cleared first, and nothing of its style is left behind.
pub proof fn law_status_line(grid: GridSize, s: Seq<char>, phase: u16)
    ensures
        ui::status_line(grid, s, false, phase) == ui::cursor_to(grid.rows as nat, 1) + "\x1b[2K"@
            + "\x1b[7m"@ + ui::status_text(s, false, grid.cols as nat) + "\x1b[0m"@,
{
}

/// The status of a page that loads stands on the last row too, one column after
/// the other, each in white on the wave's colour, and blank behind the text.
pub proof fn law_loading_line(grid: GridSize, s: Seq<char>, phase: u16)
    ensures
        ({
            let shown = ui::status_text(s, true, grid.cols as nat);
            ui::status_line(grid, s, true, phase) == ui::cursor_to(grid.rows as nat, 1) + "\x1b[2K"@
                + ui::loading_cells(shown, grid.cols as nat, grid.cols, phase) + "\x1b[0m"@
        }),
{
    let t = ui::status_text(s, true, grid.cols as nat);
    assert(ui::clipped(t, grid.cols as nat) == t);
}

/// Column `i` of the loading line holds the text's character there, or a blank.
pub proof fn law_loading_column(s: Seq<char>, i: nat, width: u16, phase: u16)
    requires
        i < width,
    ensures
        ({
            let c = if i < s.len() {
                s[i as int]
            } else {
                ' '
            };
            let (r, g, b) = ui::loading_color(i as u16, width, phase);
            ui::loading_cells(s, i + 1, width, phase) == ui::loading_cells(s, i, width, phase)
                + "\x1b[38;2;255;255;255m\x1b[48;2;"@ + text::dec(r).push(';') + text::dec(g).push(
                ';',
            ) + text::dec(b).push('m').push(c)
        }),
        ui::loading_cells(s, 0, width, phase).len() == 0,
{
    reveal_strlit(";");
    reveal_strlit("m");
    let c = if i < s.len() {
        s[i as int]
    } else {
        ' '
    };
    let (r, g, b) = ui::loading_color(i as u16, width, phase);
    let head = "\x1b[38;2;255;255;255m\x1b[48;2;"@;
    assert(";"@ =~= seq![';']);
    assert("m"@ =~= seq!['m']);
    assert(ui::loading_cells(s, i + 1, width, phase) =~= ui::loading_cells(s, i, width, phase) + head
        + text::dec(r).push(';') + text::dec(g).push(';') + text::dec(b).push('m').push(c));
}

/// The prompt is a colon and a blank in front of what was typed, on the last row,
/// which is cleared first; it is whole where the line is wide enough.
pub proof fn law_prompt_line(grid: GridSize, buffer: Seq<char>)
    ensures
        ui::prompt_line(grid, buffer) == ui::cursor_to(grid.rows as nat, 1) + "\x1b[2K"@
            + ui::clipped(seq![':', ' '] + buffer, grid.cols as nat),
        buffer.len() + 2 <= grid.cols ==> ui::prompt_line(grid, buffer) == ui::cursor_to(
            grid.rows as nat,
            1,
        ) + "\x1b[2K"@ + (seq![':', ' '] + buffer),
{
    reveal_strlit(": ");
    assert(": "@ =~= seq![':', ' ']);
}

/// Labels are written one after the other, each in bold and dark at its own cell;
/// cells count from zero, and the terminal's from one.
pub proof fn law_labels_are_written(t: Seq<Tag>, label: Seq<char>, col: u16, row: u16)
    ensures
        ui::overlay_text(t.push((label, col, row))) == ui::overlay_text(t) + ui::cursor_to(
            (row + 1) as nat,
            (col + 1) as nat,
        ) + "\x1b[1;30m"@ + label + "\x1b[0m"@,
        ui::overlay_text(Seq::empty()).len() == 0,
{
    assert(t.push((label, col, row)).drop_last() =~= t);
}

/// Labels are taken away one after the other, each by as many blanks as it has
/// characters, at its own cell.
pub proof fn law_labels_are_erased(t: Seq<Tag>, label: Seq<char>, col: u16, row: u16, i: int)
    requires
        0 <= i < label.len(),
    ensures
        ({
            let before = ui::erase_text(t) + ui::cursor_to((row + 1) as nat, (col + 1) as nat);
            let all = ui::erase_text(t.push((label, col, row)));
            &&& all.len() == before.len() + label.len()
            &&& before.is_prefix_of(all)
            &&& all[before.len() + i] == ' '
        }),
        ui::erase_text(Seq::empty()).len() == 0,
{
    assert(t.push((label, col, row)).drop_last() =~= t);
    let before = ui::erase_text(t) + ui::cursor_to((row + 1) as nat, (col + 1) as nat);
    let all = ui::erase_text(t.push((label, col, row)));
    assert(before =~= all.take(before.len() as int));
}

/// The crest of the wave is in the column of the phase, and a column's distance
/// from it is the shorter way round.
pub proof fn law_wave_distance(col: u16, width: u16, phase: u16)
    requires
        col < width,
    ensures
        ({
            let crest = phase as int % width as int;
            let d = if col >= crest {
                col - crest
            } else {
                crest - col
            };
            ui::wave_distance(col, width, phase) == (if d <= width - d {
                d
            } else {
                width - d
            })
        }),
{
    let w = width as int;
    let p = phase as int % w;
    if col >= p {
        vstd::arithmetic::div_mod::lemma_fundamental_div_mod_converse(col + w - p, w, 1, col - p);
    } else {
        vstd::arithmetic::div_mod::lemma_fundamental_div_mod_converse(
            col + w - p,
            w,
            0,
            col + w - p,
        );
    }
}

/// On a line without columns every place is the crest.
pub proof fn law_wave_without_columns(col: u16, phase: u16)
    ensures
        ui::wave_distance(col, 0, phase) == 0,
{
    vstd::arithmetic::div_mod::lemma_fundamental_div_mod_converse(
        col + 1 - phase as int % 1,
        1,
        col + 1 - phase as int % 1,
        0,
    );
}

/// The wave reaches over a third of the line on either side, and over four columns
/// at the least.
pub proof fn law_wave_band(width: u16)
    ensures
        width >= 12 ==> 3 * ui::wave_band(width) <= width < 3 * ui::wave_band(width) + 3,
        width <= 12 ==> ui::wave_band(width) == 4,
{
}

/// `c` is `base` and a part of `amp`, cut to a whole number: all of it at the
/// crest, none from the end of the band on, and in between in proportion.
pub open spec fn falls(c: nat, base: nat, amp: nat, dist: nat, band: nat) -> bool {
    if dist >= band {
        c == base
    } else {
        c >= base && (c - base) * band <= amp * (band - dist) < (c - base + 1) * band
    }
}

proof fn lemma_falls(base: nat, amp: nat, dist: nat, band: nat)
    requires
        band > 0,
    ensures
        falls(ui::channel(base, amp, dist, band), base, amp, dist, band),
{
    if dist < band {
        let n = amp * ((band - dist) as nat);
        let q = n / band;
        vstd::arithmetic::div_mod::lemma_fundamental_div_mod(n as int, band as int);
        assert(q * band <= n < (q + 1) * band) by (nonlinear_arith)
            requires
                n == band * q + n % band,
                0 <= n % band < band,
        ;
    }
}

/// The wave falls off in proportion to the distance from its crest, from a light
/// blue to a dark one, in green and in blue exactly and in red but for the one
/// place at which it is one less.
pub proof fn law_wave_falls_off(col: u16, width: u16, phase: u16)
    ensures
        ({
            let d = ui::wave_distance(col, width, phase);
            let band = ui::wave_band(width);
            let (r, g, b) = ui::loading_color(col, width, phase);
            &&& 11 * d != 10 * band ==> falls(r, 28, 44, d, band)
            &&& 11 * d == 10 * band ==> r == 31
            &&& falls(g, 102, 98, d, band)
            &&& falls(b, 142, 85, d, band)
        }),
{
    let d = ui::wave_distance(col, width, phase);
    let band = ui::wave_band(width);
    lemma_falls(28, 44, d, band);
    lemma_falls(102, 98, d, band);
    lemma_falls(142, 85, d, band);
    if 11 * d == 10 * band {
        assert(44 * ((band - d) as nat) == 4 * band);
        assert((4 * band) / band == 4) by (nonlinear_arith)
            requires
                band > 0,
        ;
    }
}

/// The wave moves to the right by one column with each phase.
pub proof fn law_wave_moves(col: u16, width: u16, phase: u16)
    requires
        col + 1 < width,
        phase < u16::MAX,
    ensures
        ui::loading_color((col + 1) as u16, width, (phase + 1) as u16) == ui::loading_color(
            col,
            width,
            phase,
        ),
{
    let w = width as int;
    let p = phase as int % w;
    law_wave_distance(col, width, phase);
    law_wave_distance((col + 1) as u16, width, (phase + 1) as u16);
    vstd::arithmetic::div_mod::lemma_fundamental_div_mod(phase as int, w);
    let k = phase as int / w;
    if p + 1 < w {
        vstd::arithmetic::div_mod::lemma_fundamental_div_mod_converse(phase + 1, w, k, p + 1);
    } else {
        assert(w * (k + 1) == w * k + w) by (nonlinear_arith);
        assert((k + 1) * w == w * (k + 1)) by (nonlinear_arith);
        vstd::arithmetic::div_mod::lemma_fundamental_div_mod_converse(phase + 1, w, k + 1, 0);
    }
}

} // verus!
