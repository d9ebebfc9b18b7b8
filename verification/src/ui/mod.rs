//! The text over the frame: the status line, the address prompt and the hint
//! labels.

use crate::geometry::GridSize;
use crate::text;
use vstd::prelude::*;
use vstd::utf8::*;

verus! {

/// Swaps foreground and background.
pub const REVERSE: &'static str = "\x1b[7m";

/// Ends all styles.
pub const RESET: &'static str = "\x1b[0m";

/// Clears the cursor's line.
pub const CLEAR_LINE: &'static str = "\x1b[2K";

/// The style of a hint label: bold and dark, to be read on its box.
pub const HINT_STYLE: &'static str = "\x1b[1;30m";

/// A hint label with the column and the row of its first cell.
pub type Label = (String, u16, u16);

/// What a hint label holds.
pub type Tag = (Seq<char>, u16, u16);

/// What a row of labels holds.
pub open spec fn tags(labels: Seq<Label>) -> Seq<Tag> {
    labels.map_values(|l: Label| (l.0@, l.1, l.2))
}

/// The escape that moves the cursor; rows and columns count from one.
pub open spec fn cursor_to(row: nat, col: nat) -> Seq<char> {
    "\x1b["@ + text::dec(row) + ";"@ + text::dec(col) + "H"@
}

/// Appends the escape that moves the cursor.
fn push_cursor(out: &mut String, row: u32, col: u32)
    ensures
        final(out)@ == old(out)@ + cursor_to(row as nat, col as nat),
{
    out.push_str("\x1b[");
    text::push_dec(out, row as u64);
    out.push_str(";");
    text::push_dec(out, col as u64);
    out.push_str("H");
    assert(out@ =~= old(out)@ + cursor_to(row as nat, col as nat));
}

/// The text, cut to `width` characters.
pub open spec fn clipped(s: Seq<char>, width: nat) -> Seq<char> {
    if s.len() <= width {
        s
    } else {
        s.take(width as int)
    }
}

/// Cuts a text to `width` characters.
fn clip(s: &str, width: usize) -> (r: Vec<char>)
    ensures
        r@ == clipped(s@, width as nat),
{
    let mut chars: Vec<char> = text::chars_of(s);
    if chars.len() > width {
        chars.truncate(width);
        assert(chars@ =~= s@.take(width as int));
    }
    chars
}

/// What the status line says: a spinner while the page loads, then the text,
/// cut to the width.
pub open spec fn status_text(text: Seq<char>, loading: bool, width: nat) -> Seq<char> {
    clipped(
        (if loading {
            "⟳ "@
        } else {
            "  "@
        }) + text,
        width,
    )
}

/// How far `col` is from the crest of the wave, which moves right by one column
/// with each phase and comes in again on the left.
pub open spec fn wave_distance(col: u16, width: u16, phase: u16) -> nat {
    let w: int = if width >= 1 {
        width as int
    } else {
        1
    };
    let pos = (col + w - phase as int % w) % w;
    (if pos <= w - pos {
        pos
    } else {
        w - pos
    }) as nat
}

/// How far the wave reaches on either side of its crest.
pub open spec fn wave_band(width: u16) -> nat {
    (if width >= 12 {
        width as nat
    } else {
        12
    }) / 3
}

/// A colour channel that falls from `base + amp` at the crest to `base` at the
/// end of the band.
pub open spec fn channel(base: nat, amp: nat, dist: nat, band: nat) -> nat {
    if dist >= band {
        base
    } else {
        base + amp * ((band - dist) as nat) / band
    }
}

/// The background of a column while the page loads. Where red is exactly four
/// above its base, single precision falls just short of it.
pub open spec fn loading_color(col: u16, width: u16, phase: u16) -> (nat, nat, nat) {
    let dist = wave_distance(col, width, phase);
    let band = wave_band(width);
    let red = channel(28, 44, dist, band);
    (
        if 11 * dist == 10 * band {
            (red - 1) as nat
        } else {
            red
        },
        channel(102, 98, dist, band),
        channel(142, 85, dist, band),
    )
}

/// One column of the loading line: white on the wave's colour.
pub open spec fn loading_cell(c: char, col: u16, width: u16, phase: u16) -> Seq<char> {
    let (r, g, b) = loading_color(col, width, phase);
    ("\x1b[38;2;255;255;255m\x1b[48;2;"@ + text::dec(r) + ";"@ + text::dec(g) + ";"@ + text::dec(b)
        + "m"@).push(c)
}

/// The first `n` columns of the loading line; behind the text it is blank.
pub open spec fn loading_cells(s: Seq<char>, n: nat, width: u16, phase: u16) -> Seq<char>
    decreases n,
{
    if n == 0 {
        Seq::empty()
    } else {
        let i = (n - 1) as nat;
        loading_cells(s, i, width, phase) + loading_cell(
            if i < s.len() {
                s[i as int]
            } else {
                ' '
            },
            i as u16,
            width,
            phase,
        )
    }
}

/// The loading line.
pub open spec fn loading_line(grid: GridSize, s: Seq<char>, phase: u16) -> Seq<char> {
    cursor_to(grid.rows as nat, 1) + CLEAR_LINE@ + loading_cells(
        clipped(s, grid.cols as nat),
        grid.cols as nat,
        grid.cols,
        phase,
    ) + RESET@
}

/// The status line: on the last row, in reverse, or as a moving wave while the
/// page loads.
pub open spec fn status_line(grid: GridSize, s: Seq<char>, loading: bool, phase: u16) -> Seq<char> {
    let t = status_text(s, loading, grid.cols as nat);
    if loading {
        loading_line(grid, t, phase)
    } else {
        cursor_to(grid.rows as nat, 1) + CLEAR_LINE@ + REVERSE@ + t + RESET@
    }
}

/// The address prompt: on the last row, cut to the width.
pub open spec fn prompt_line(grid: GridSize, buffer: Seq<char>) -> Seq<char> {
    cursor_to(grid.rows as nat, 1) + CLEAR_LINE@ + clipped(": "@ + buffer, grid.cols as nat)
}

/// The labels, each in its place.
pub open spec fn overlay_text(t: Seq<Tag>) -> Seq<char>
    decreases t.len(),
{
    if t.len() == 0 {
        Seq::empty()
    } else {
        let (label, col, row) = t.last();
        overlay_text(t.drop_last()) + cursor_to((row + 1) as nat, (col + 1) as nat) + HINT_STYLE@
            + label + RESET@
    }
}

/// Blanks over the labels, as many as each has characters.
pub open spec fn erase_text(t: Seq<Tag>) -> Seq<char>
    decreases t.len(),
{
    if t.len() == 0 {
        Seq::empty()
    } else {
        let (label, col, row) = t.last();
        erase_text(t.drop_last()) + cursor_to((row + 1) as nat, (col + 1) as nat) + Seq::new(
            label.len(),
            |i: int| ' ',
        )
    }
}

/// Draws text over the frame.
#[derive(Debug, Clone, Copy, PartialEq, Eq, Structural)]
pub struct Ui {
    pub grid: GridSize,
}

impl Ui {
    /// For a terminal of the given size.
    pub fn new(grid: GridSize) -> (r: Self)
        ensures
            r.grid == grid,
    {
        Ui { grid }
    }

    /// Takes over a new size: the status line moves to the new last row.
    pub fn resize(&mut self, grid: GridSize)
        ensures
            final(self).grid == grid,
    {
        self.grid = grid;
    }

    /// The last row, counted from one.
    pub fn bottom_row(&self) -> (r: u16)
        ensures
            r == self.grid.rows,
    {
        self.grid.rows
    }

    /// The status line at the start of the wave.
    pub fn status_bar(&self, url: &str, loading: bool) -> (r: Vec<u8>)
        ensures
            r@ == encode_utf8(status_line(self.grid, url@, loading, 0)),
    {
        self.status_bar_frame(url, loading, 0)
    }

    /// The status line.
    pub fn status_bar_frame(&self, url: &str, loading: bool, phase: u16) -> (r: Vec<u8>)
        ensures
            r@ == encode_utf8(status_line(self.grid, url@, loading, phase)),
    {
        let prefix: &str = if loading {
            "⟳ "
        } else {
            "  "
        };
        let width: usize = self.grid.cols as usize;
        let mut whole: String = prefix.to_string();
        whole.push_str(url);
        let shown: Vec<char> = clip(whole.as_str(), width);
        let t: String = text::string_of(shown.as_slice());
        if loading {
            return self.animated_status_bar(t.as_str(), phase);
        }
        let mut out: String = String::new();
        push_cursor(&mut out, self.bottom_row() as u32, 1);
        out.push_str(CLEAR_LINE);
        out.push_str(REVERSE);
        out.push_str(t.as_str());
        out.push_str(RESET);
        assert(out@ =~= status_line(self.grid, url@, loading, phase));
        out.into_bytes()
    }

    /// The loading line.
    pub fn animated_status_bar(&self, text: &str, phase: u16) -> (r: Vec<u8>)
        ensures
            r@ == encode_utf8(loading_line(self.grid, text@, phase)),
    {
        let width: u16 = self.grid.cols;
        let chars: Vec<char> = clip(text, width as usize);
        let mut out: String = String::new();
        push_cursor(&mut out, self.bottom_row() as u32, 1);
        out.push_str(CLEAR_LINE);
        let ghost head = out@;
        let mut i: u16 = 0;
        assert(head + loading_cells(chars@, 0, width, phase) =~= head);
        while i < width
            invariant
                i <= width,
                out@ == head + loading_cells(chars@, i as nat, width, phase),
            decreases width - i,
        {
            let c: char = if (i as usize) < chars.len() {
                chars[i as usize]
            } else {
                ' '
            };
            let rgb: [u8; 3] = loading_bg(i, width, phase);
            let ghost before = out@;
            out.push_str("\x1b[38;2;255;255;255m\x1b[48;2;");
            text::push_dec(&mut out, rgb[0] as u64);
            out.push_str(";");
            text::push_dec(&mut out, rgb[1] as u64);
            out.push_str(";");
            text::push_dec(&mut out, rgb[2] as u64);
            out.push_str("m");
            out.push(c);
            assert(out@ =~= before + loading_cell(c, i, width, phase));
            i += 1;
            assert(out@ =~= head + loading_cells(chars@, i as nat, width, phase));
        }
        out.push_str(RESET);
        assert(out@ =~= loading_line(self.grid, text@, phase));
        out.into_bytes()
    }

    /// The address prompt with what has been typed.
    pub fn url_prompt(&self, buffer: &str) -> (r: Vec<u8>)
        ensures
            r@ == encode_utf8(prompt_line(self.grid, buffer@)),
    {
        let mut whole: String = ": ".to_string();
        whole.push_str(buffer);
        let shown: Vec<char> = clip(whole.as_str(), self.grid.cols as usize);
        let t: String = text::string_of(shown.as_slice());
        let mut out: String = String::new();
        push_cursor(&mut out, self.bottom_row() as u32, 1);
        out.push_str(CLEAR_LINE);
        out.push_str(t.as_str());
        assert(out@ =~= prompt_line(self.grid, buffer@));
        out.into_bytes()
    }

    /// Writes the hint labels.
    pub fn hint_overlay(&self, hints: &[Label]) -> (r: Vec<u8>)
        ensures
            r@ == encode_utf8(overlay_text(tags(hints@))),
    {
        let mut out: String = String::new();
        let mut i: usize = 0;
        assert(tags(hints@).take(0) =~= Seq::<Tag>::empty());
        while i < hints.len()
            invariant
                i <= hints@.len(),
                out@ == overlay_text(tags(hints@).take(i as int)),
            decreases hints@.len() - i,
        {
            let (label, col, row) = &hints[i];
            push_cursor(&mut out, *row as u32 + 1, *col as u32 + 1);
            out.push_str(HINT_STYLE);
            out.push_str(label.as_str());
            out.push_str(RESET);
            proof {
                let now = tags(hints@).take(i + 1);
                assert(now.drop_last() =~= tags(hints@).take(i as int));
                assert(now.last() == (label@, *col, *row));
                assert(out@ =~= overlay_text(now));
            }
            i += 1;
        }
        assert(tags(hints@).take(hints@.len() as int) =~= tags(hints@));
        out.into_bytes()
    }

    /// Takes the hint labels away: blanks let the frame show through again.
    pub fn clear_hints(&self, hints: &[Label]) -> (r: Vec<u8>)
        ensures
            r@ == encode_utf8(erase_text(tags(hints@))),
    {
        let mut out: String = String::new();
        let mut i: usize = 0;
        assert(tags(hints@).take(0) =~= Seq::<Tag>::empty());
        while i < hints.len()
            invariant
                i <= hints@.len(),
                out@ == erase_text(tags(hints@).take(i as int)),
            decreases hints@.len() - i,
        {
            let (label, col, row) = &hints[i];
            push_cursor(&mut out, *row as u32 + 1, *col as u32 + 1);
            let n: usize = label.as_str().unicode_len();
            let ghost before = out@;
            let mut k: usize = 0;
            while k < n
                invariant
                    k <= n,
                    out@ == before + Seq::new(k as nat, |j: int| ' '),
                decreases n - k,
            {
                out.push(' ');
                k += 1;
                assert(out@ =~= before + Seq::new(k as nat, |j: int| ' '));
            }
            proof {
                let now = tags(hints@).take(i + 1);
                assert(now.drop_last() =~= tags(hints@).take(i as int));
                assert(now.last() == (label@, *col, *row));
                assert(out@ =~= erase_text(now));
            }
            i += 1;
        }
        assert(tags(hints@).take(hints@.len() as int) =~= tags(hints@));
        out.into_bytes()
    }
}

/// One channel of the wave's colour.
fn channel_value(base: u32, amp: u32, dist: u32, band: u32) -> (r: u32)
    requires
        base <= 142,
        amp <= 98,
        0 < band <= 0xffff,
        dist <= 0xffff,
    ensures
        r == channel(base as nat, amp as nat, dist as nat, band as nat),
        base <= r <= base + amp,
{
    if dist >= band {
        base
    } else {
        proof {
            assert(0 <= amp * (band - dist) <= 98 * 0xffff) by (nonlinear_arith)
                requires
                    amp <= 98,
                    0 < band - dist <= 0xffff,
                    amp >= 0,
            ;
            assert((amp * (band - dist)) / band as int <= amp) by (nonlinear_arith)
                requires
                    0 <= amp,
                    0 < band - dist <= band,
            ;
            assert((amp * (band - dist)) / band as int >= 0) by (nonlinear_arith)
                requires
                    0 <= amp * (band - dist),
                    band > 0,
            ;
        }
        base + amp * (band - dist) / band
    }
}

/// The background of a column while the page loads, red, green and blue.
pub fn loading_bg(col: u16, width: u16, phase: u16) -> (r: [u8; 3])
    ensures
        (r[0] as nat, r[1] as nat, r[2] as nat) == loading_color(col, width, phase),
{
    let w: u32 = if width >= 1 {
        width as u32
    } else {
        1
    };
    let pos: u32 = (col as u32 + w - phase as u32 % w) % w;
    let dist: u32 = if pos <= w - pos {
        pos
    } else {
        w - pos
    };
    let band: u32 = (if width >= 12 {
        width as u32
    } else {
        12
    }) / 3;
    assert(dist == wave_distance(col, width, phase));
    assert(band == wave_band(width));
    let exact: u32 = channel_value(28, 44, dist, band);
    let red: u32 = if 11 * dist == 10 * band {
        exact - 1
    } else {
        exact
    };
    let green: u32 = channel_value(102, 98, dist, band);
    let blue: u32 = channel_value(142, 85, dist, band);
    [red as u8, green as u8, blue as u8]
}

/// The wave keeps to its colours: it is never darker than at the end of the band
/// nor brighter than at the crest.
pub proof fn law_wave_range(col: u16, width: u16, phase: u16)
    ensures
        28 <= loading_color(col, width, phase).0 <= 72,
        102 <= loading_color(col, width, phase).1 <= 200,
        142 <= loading_color(col, width, phase).2 <= 227,
{
    let dist = wave_distance(col, width, phase);
    let band = wave_band(width);
    lemma_channel(28, 44, dist, band);
    lemma_channel(102, 98, dist, band);
    lemma_channel(142, 85, dist, band);
    if 11 * dist == 10 * band {
        assert(44 * ((band - dist) as nat) == 4 * band);
        assert((4 * band) / band == 4) by (nonlinear_arith)
            requires
                band > 0,
        ;
    }
}

/// A channel lies between its base and its crest.
proof fn lemma_channel(base: nat, amp: nat, dist: nat, band: nat)
    requires
        band > 0,
    ensures
        base <= channel(base, amp, dist, band) <= base + amp,
{
    if dist < band {
        assert(0 <= (amp * ((band - dist) as nat)) / band <= amp) by (nonlinear_arith)
            requires
                band > 0,
                dist < band,
        ;
    }
}

/// The wave comes round again: a phase later by the width shows the same colours.
pub proof fn law_wave_repeats(col: u16, width: u16, phase: u16)
    requires
        width >= 1,
        phase + width <= u16::MAX,
    ensures
        loading_color(col, width, (phase + width) as u16) == loading_color(col, width, phase),
{
    vstd::arithmetic::div_mod::lemma_mod_add_multiples_vanish(phase as int, width as int);
}

/// No status line is wider than the terminal.
pub proof fn law_status_fits(s: Seq<char>, loading: bool, width: nat)
    ensures
        status_text(s, loading, width).len() <= width,
{
}

} // verus!
