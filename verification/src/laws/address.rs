//! What becomes of what is typed as an address, and the small decisions around
//! the browser.

use crate::app;
use crate::app::{Conflict, TypedPath};
use crate::geometry::{CellSize, HalfPx, Viewport};
use crate::input::Mode;
use crate::text;
use crate::ui;
use vstd::prelude::*;
use vstd::utf8::*;

verus! {

/// `t` is an address as it stands: it holds `://`, or begins with `about:`.
pub open spec fn names_scheme(t: Seq<char>) -> bool {
    ||| exists|i: int|
        0 <= i && i + 2 < t.len() && #[trigger] t[i] == ':' && t[i + 1] == '/' && t[i + 2] == '/'
    ||| t.len() >= 6 && t[0] == 'a' && t[1] == 'b' && t[2] == 'o' && t[3] == 'u' && t[4] == 't' && t[5]
        == ':'
}

proof fn lemma_names_scheme(t: Seq<char>)
    ensures
        names_scheme(t) <==> text::occurs(t, "://"@) || "about:"@.is_prefix_of(t),
{
    reveal_strlit("://");
    reveal_strlit("about:");
    if text::occurs(t, "://"@) {
        let i = choose|i: int| text::occurs_at(t, "://"@, i);
        let s = t.subrange(i, i + 3);
        assert(s[0] == t[i] && s[1] == t[i + 1] && s[2] == t[i + 2]);
        assert(t[i] == ':');
    }
    if exists|i: int|
        0 <= i && i + 2 < t.len() && #[trigger] t[i] == ':' && t[i + 1] == '/' && t[i + 2] == '/' {
        let i = choose|i: int|
            0 <= i && i + 2 < t.len() && #[trigger] t[i] == ':' && t[i + 1] == '/' && t[i + 2] == '/';
        assert(t.subrange(i, i + 3) =~= "://"@);
        assert(text::occurs_at(t, "://"@, i));
    }
    if "about:"@.is_prefix_of(t) {
        let s = t.subrange(0, 6);
        assert("about:"@ =~= s);
        assert(s[0] == t[0] && s[1] == t[1] && s[2] == t[2] && s[3] == t[3] && s[4] == t[4] && s[5]
            == t[5]);
    } else if t.len() >= 6 && t[0] == 'a' && t[1] == 'b' && t[2] == 'o' && t[3] == 'u' && t[4] == 't'
        && t[5] == ':' {
        assert("about:"@ =~= t.subrange(0, 6));
    }
}

/// An address is opened as it was typed, without the white space around it, even
/// where a file has that name.
pub proof fn law_address_is_kept(input: Seq<char>, canonical: Option<Seq<char>>)
    requires
        names_scheme(text::trimmed(input)),
    ensures
        app::normalized(input, canonical) == text::trimmed(input),
{
    lemma_names_scheme(text::trimmed(input));
}

/// A word with a dot in it is a host, with or without a path behind it: it is
/// opened over HTTPS, unless it is an address already or names a file.
pub proof fn law_host_is_opened(input: Seq<char>)
    requires
        !names_scheme(text::trimmed(input)),
        exists|i: int| 0 <= i < text::trimmed(input).len() && text::trimmed(input)[i] == '.',
        forall|i: int| 0 <= i < text::trimmed(input).len() ==> text::trimmed(input)[i] != ' ',
    ensures
        app::normalized(input, None) == "https://"@ + text::trimmed(input),
{
    let t = text::trimmed(input);
    lemma_names_scheme(t);
    assert(t.contains('.'));
    assert(!t.contains(' '));
}

/// Only text without a dot, or with a space, is searched for, and the query
/// stands for that very text.
pub proof fn law_text_is_searched(input: Seq<char>)
    requires
        !names_scheme(text::trimmed(input)),
        (forall|i: int| 0 <= i < text::trimmed(input).len() ==> text::trimmed(input)[i] != '.') || (
        exists|i: int| 0 <= i < text::trimmed(input).len() && text::trimmed(input)[i] == ' '),
    ensures
        ({
            let n = app::normalized(input, None);
            let site = "https://www.google.com/search?q="@;
            &&& site.is_prefix_of(n)
            &&& app::decoded(n.skip(site.len() as int), true) == encode_utf8(text::trimmed(input))
        }),
{
    let t = text::trimmed(input);
    lemma_names_scheme(t);
    let site = "https://www.google.com/search?q="@;
    let e = app::encoded(encode_utf8(t), true);
    assert(!(t.contains('.') && !t.contains(' ')));
    assert((site + e).skip(site.len() as int) =~= e);
    assert(site.is_prefix_of(site + e));
    app::law_encoding_roundtrip(encode_utf8(t), true);
}

/// A file is opened by its canonical path, whatever dots and spaces were typed.
pub proof fn law_file_is_opened(input: Seq<char>, path: Seq<char>)
    requires
        !names_scheme(text::trimmed(input)),
        text::trimmed(input).len() > 0,
    ensures
        ({
            let n = app::normalized(input, Some(path));
            &&& "file://"@.is_prefix_of(n)
            &&& app::decoded(n.skip("file://"@.len() as int), false) == encode_utf8(path)
            &&& app::file_url(text::trimmed(input), Some(path)) == Some(n)
        }),
{
    lemma_names_scheme(text::trimmed(input));
    let scheme = "file://"@;
    let e = app::encoded(encode_utf8(path), false);
    assert((scheme + e).skip(scheme.len() as int) =~= e);
    assert(scheme.is_prefix_of(scheme + e));
    app::law_encoding_roundtrip(encode_utf8(path), false);
}

/// Nothing is no file, and neither is a name without one.
pub proof fn law_no_file(input: Seq<char>, canonical: Option<Seq<char>>)
    requires
        input.len() == 0 || canonical is None,
    ensures
        app::file_url(input, canonical) is None,
{
}

/// The white space around what was typed does not matter.
pub proof fn law_white_space_around(a: Seq<char>, b: Seq<char>, canonical: Option<Seq<char>>)
    requires
        text::trimmed(a) == text::trimmed(b),
    ensures
        app::normalized(a, canonical) == app::normalized(b, canonical),
{
}

/// A byte in an address: letters, digits and `-_.~` stay; a slash stays in a path
/// alone; a space is a plus sign in a query; every other byte is a percent sign
/// and its two digits in base sixteen, the high one first.
pub proof fn law_byte_in_address(b: u8, query: bool)
    ensures
        ({
            let c = b as char;
            let r = app::encoded_byte(b, query);
            let plain = ('a' <= c <= 'z') || ('A' <= c <= 'Z') || ('0' <= c <= '9') || c == '-' || c
                == '_' || c == '.' || c == '~';
            &&& plain ==> r == seq![c]
            &&& c == '/' && !query ==> r == seq!['/']
            &&& c == ' ' && query ==> r == seq!['+']
            &&& !plain && !(c == '/' && !query) && !(c == ' ' && query) ==> r == seq![
                '%',
                "0123456789ABCDEF"@[b as int / 16],
                "0123456789ABCDEF"@[b as int % 16],
            ]
        }),
{
    reveal_strlit("0123456789ABCDEF");
}

/// Bytes are encoded one by one.
pub proof fn law_bytes_in_address(a: Seq<u8>, b: Seq<u8>, query: bool)
    ensures
        app::encoded(a + b, query) == app::encoded(a, query) + app::encoded(b, query),
        app::encoded(Seq::empty(), query).len() == 0,
        b.len() == 1 ==> app::encoded(b, query) == app::encoded_byte(b[0], query),
    decreases a.len(),
{
    if b.len() == 1 {
        assert(app::encoded(b.skip(1), query) =~= Seq::<char>::empty());
        assert(app::encoded(b, query) =~= app::encoded_byte(b[0], query));
    }
    if a.len() == 0 {
        assert(a + b =~= b);
        assert(app::encoded(a, query) + app::encoded(b, query) =~= app::encoded(b, query));
    } else {
        assert((a + b).skip(1) =~= a.skip(1) + b);
        law_bytes_in_address(a.skip(1), b, query);
        assert(app::encoded(a + b, query) =~= app::encoded(a, query) + app::encoded(b, query));
    }
}

/// `~` alone is the home directory, `~/` and something is that under it, and
/// every other path is itself: a name that begins with a tilde, too.
pub proof fn law_home_is_told_apart(input: &str, rest: Seq<char>, r: TypedPath)
    requires
        call_ensures(app::expand_home, (input,), r),
    ensures
        input@ == seq!['~'] <==> r is Home,
        input@ == seq!['~', '/'] + rest ==> (r matches TypedPath::UnderHome(p) && p@ == rest),
        input@.len() == 0 || input@[0] != '~' || (input@.len() > 1 && input@[1] != '/') ==> (
        r matches TypedPath::Plain(p) && p@ == input@),
{
    reveal_strlit("~");
    reveal_strlit("~/");
    assert("~"@ =~= seq!['~']);
    assert("~/"@ =~= seq!['~', '/']);
    if input@ == seq!['~', '/'] + rest {
        assert("~/"@ =~= input@.subrange(0, 2));
        if let TypedPath::UnderHome(p) = r {
            assert((seq!['~', '/'] + p@).skip(2) =~= p@);
            assert((seq!['~', '/'] + rest).skip(2) =~= rest);
        }
    }
}

/// The size of a PNG picture is the two numbers behind its first chunk's name,
/// the width and then the height, each with its highest byte first.
pub proof fn law_png_size(b: Seq<u8>)
    requires
        b.len() >= 24,
        b[0] == 0x89 && b[1] == 'P' as u8 && b[2] == 'N' as u8 && b[3] == 'G' as u8,
        b[4] == 13 && b[5] == 10 && b[6] == 26 && b[7] == 10,
    ensures
        app::picture_size(b) == Some(
            (
                (((b[16] * 256 + b[17]) * 256 + b[18]) * 256 + b[19]) as u32,
                (((b[20] * 256 + b[21]) * 256 + b[22]) * 256 + b[23]) as u32,
            ),
        ),
{
    assert(b.take(8) =~= seq![0x89u8, 0x50, 0x4e, 0x47, 0x0d, 0x0a, 0x1a, 0x0a]);
}

/// A JPEG picture begins with its mark, and its segments follow at once.
pub proof fn law_jpeg_begins(b: Seq<u8>)
    requires
        b.len() >= 4,
        b[0] == 0xff,
        b[1] == 0xd8,
    ensures
        app::picture_size(b) == app::jpeg_size(b, 2),
{
    if app::is_png(b) {
        assert(b.take(8)[0] == 0x89);
    }
}

/// The size of a JPEG picture is in its first segment of a frame header: the
/// height and then the width, behind the length and the precision.
pub proof fn law_jpeg_size(b: Seq<u8>, i: int, m: u8)
    requires
        0 <= i,
        i + 9 < b.len(),
        b[i] == 0xff,
        b[i + 1] == m,
        0xc0 <= m <= 0xc3 || 0xc5 <= m <= 0xc7 || 0xc9 <= m <= 0xcb || 0xcd <= m <= 0xcf,
    ensures
        app::jpeg_size(b, i) == Some(
            ((b[i + 7] * 256 + b[i + 8]) as u32, (b[i + 5] * 256 + b[i + 6]) as u32),
        ),
{
}

/// Any other segment is skipped by its length, and what is no segment byte by
/// byte; where too little is left there is no size.
pub proof fn law_jpeg_skips(b: Seq<u8>, i: int)
    requires
        0 <= i,
    ensures
        i + 9 >= b.len() ==> app::jpeg_size(b, i) is None,
        i + 9 < b.len() && b[i] != 0xff ==> app::jpeg_size(b, i) == app::jpeg_size(b, i + 1),
        i + 9 < b.len() && b[i] == 0xff && (b[i + 1] == 0xc4 || b[i + 1] == 0xc8 || b[i + 1] == 0xcc
            || b[i + 1] <= 0xbf || b[i + 1] >= 0xd0) ==> app::jpeg_size(b, i) == app::jpeg_size(
            b,
            i + 2 + b[i + 2] * 256 + b[i + 3],
        ),
{
}

/// What begins as neither has no size.
pub proof fn law_no_picture_no_size(b: Seq<u8>)
    requires
        b.len() < 2 || (b[0] != 0x89 && b[0] != 0xff),
    ensures
        app::picture_size(b) is None,
{
    if app::is_png(b) {
        assert(b.take(8)[0] == 0x89);
    }
}

/// The box behind a label begins at the label's cell, reaches over as many cells
/// as the label has letters, and is one cell high.
pub proof fn law_box_is_behind_its_label(label: Seq<char>, col: u16, row: u16, cell: CellSize)
    requires
        label.len() * cell.w <= u32::MAX,
    ensures
        ({
            let b = app::box_of((label, col, row), cell);
            &&& b.x == col * cell.w
            &&& b.y == row * cell.h
            &&& b.w == label.len() * cell.w
            &&& b.h == cell.h
        }),
{
    assert(0 <= col * cell.w <= 0xfffe_0001) by (nonlinear_arith)
        requires
            0 <= col <= 0xffff,
            0 <= cell.w <= 0xffff,
    ;
    assert(0 <= row * cell.h <= 0xfffe_0001) by (nonlinear_arith)
        requires
            0 <= row <= 0xffff,
            0 <= cell.h <= 0xffff,
    ;
    assert(0 <= label.len() * cell.w) by (nonlinear_arith)
        requires
            0 <= label.len(),
            0 <= cell.w,
    ;
}

/// The status line always holds the address; insert mode is named in front of it,
/// and control by an agent behind it, each only where it is so.
pub proof fn law_status_tells(mode: Mode, url: Seq<char>, control: bool)
    ensures
        mode != Mode::Insert && !control ==> app::status_content(mode, url, control) == url,
        app::status_content(Mode::Insert, url, control) == "-- INSERT --  "@ + app::status_content(
            Mode::Normal,
            url,
            control,
        ),
        app::status_content(mode, url, true) == app::status_content(mode, url, false)
            + "  MCP control active"@,
{
    assert("-- INSERT --  "@ + url + "  MCP control active"@ =~= "-- INSERT --  "@ + (url
        + "  MCP control active"@));
}

/// The prompt with what was typed so far stands over the status line while an
/// address is typed, and at no other time.
pub proof fn law_prompt_while_typing(
    u: ui::Ui,
    mode: Mode,
    url: Seq<char>,
    buffer: Seq<char>,
    control: bool,
    loading: bool,
    phase: u16,
)
    ensures
        ({
            let line = ui::status_line(
                u.grid,
                app::status_content(mode, url, control),
                loading,
                phase,
            );
            let out = app::status_output(u, mode, url, buffer, control, loading, phase);
            &&& mode == Mode::UrlInput ==> out == line + ui::prompt_line(u.grid, buffer)
            &&& mode != Mode::UrlInput ==> out == line
        }),
{
}

/// The window is larger than the page by the same margin on both sides.
pub proof fn law_window_margin(dev: Viewport, r: (u32, u32))
    requires
        dev.width_px <= u32::MAX - 600,
        dev.height_px <= u32::MAX - 600,
        call_ensures(app::window_for, (dev,), r),
    ensures
        r.0 - dev.width_px == 600,
        r.1 - dev.height_px == 600,
{
}

/// A scroll with a place of its own happens there; one without happens where the
/// mouse was last, and where it never was, halfway across and halfway down the
/// page.
pub proof fn law_scroll_finds_its_place(
    x: HalfPx,
    y: HalfPx,
    last: Option<(HalfPx, HalfPx)>,
    vp: Viewport,
)
    ensures
        ({
            let r = app::scroll_place(x, y, last, vp);
            &&& x.halves != 0 || y.halves != 0 ==> r == (x, y)
            &&& x.halves == 0 && y.halves == 0 && last is Some ==> r == last->0
            &&& x.halves == 0 && y.halves == 0 && last is None ==> r.0.halves == vp.width_px
                && r.1.halves == vp.height_px
        }),
{
}

/// Nobody is asked where the profile is free, nor where nobody can answer.
pub proof fn law_asked_only_where_it_helps(holder: Option<i32>, terminal: bool, r: Conflict)
    requires
        call_ensures(app::conflict_start, (holder, terminal), r),
    ensures
        r == Conflict::Ask <==> (holder is Some && terminal),
        r != Conflict::Ask ==> r == Conflict::Proceed,
{
}

/// An answer counts in either case and whatever white space is around it.
pub proof fn law_answers_are_read(line: Seq<char>)
    ensures
        ({
            let t = text::trimmed(line);
            let r = app::answered(Some(line));
            &&& spells(t, "k"@) || spells(t, "kill"@) <==> r == Conflict::Kill
            &&& spells(t, "a"@) || spells(t, "anon"@) || spells(t, "anonymous"@) <==> r
                == Conflict::Anonymous
            &&& spells(t, "q"@) || spells(t, "quit"@) <==> r == Conflict::Quit
            &&& r == Conflict::Kill || r == Conflict::Anonymous || r == Conflict::Quit || r
                == Conflict::AskAgain
        }),
        app::answered(None) == Conflict::Quit,
{
    let t = text::trimmed(line);
    lemma_spells(t, "k"@);
    lemma_spells(t, "kill"@);
    lemma_spells(t, "a"@);
    lemma_spells(t, "anon"@);
    lemma_spells(t, "anonymous"@);
    lemma_spells(t, "q"@);
    lemma_spells(t, "quit"@);
    reveal_strlit("k");
    reveal_strlit("kill");
    reveal_strlit("a");
    reveal_strlit("anon");
    reveal_strlit("anonymous");
    reveal_strlit("q");
    reveal_strlit("quit");
    assert("k"@[0] == 'k' && "kill"@[0] == 'k');
    assert("a"@[0] == 'a' && "anon"@[0] == 'a' && "anonymous"@[0] == 'a');
    assert("q"@[0] == 'q' && "quit"@[0] == 'q');
}

/// `t` is `word`, letter by letter, in either case.
pub open spec fn spells(t: Seq<char>, word: Seq<char>) -> bool {
    &&& t.len() == word.len()
    &&& forall|i: int| 0 <= i < t.len() ==> text::ascii_lower(#[trigger] t[i]) == word[i]
}

proof fn lemma_spells(t: Seq<char>, word: Seq<char>)
    ensures
        spells(t, word) <==> t.map_values(|c: char| text::ascii_lower(c)) == word,
{
    let m = t.map_values(|c: char| text::ascii_lower(c));
    if spells(t, word) {
        assert(m =~= word);
    }
    if m == word {
        assert forall|i: int| 0 <= i < t.len() implies text::ascii_lower(#[trigger] t[i])
            == word[i] by {
            assert(m[i] == text::ascii_lower(t[i]));
        }
    }
}

/// A process number is shown in decimal, a negative one with its sign, so that it
/// can be read back.
pub proof fn law_pid_is_shown(pid: i32)
    ensures
        text::parsed_i32(app::pid_text(pid)) == Some(pid as int),
{
    crate::laws::words::law_signed_number_is_read_back(pid);
}

/// The question names the process and the three choices.
pub proof fn law_question_is_asked(pid: i32, r: String)
    requires
        call_ensures(app::conflict_prompt, (pid,), r),
    ensures
        r@ == "\nwebcat: a previous browser (pid "@ + app::pid_text(pid)
            + ") is still running and holds your profile.\n  [k] kill it and reuse your profile (history, logins)\n  [a] open anonymously in a temporary profile\n  [q] quit\nchoice [k/a/q]: "@,
{
}

/// The user is told which process was ended, and where it was not, that the
/// browser opens anonymously.
pub proof fn law_end_is_told(pid: i32, killed: bool, r: String)
    requires
        call_ensures(app::conflict_killed, (pid, killed), r),
    ensures
        killed ==> r@ == "killed "@ + app::pid_text(pid) + "; reusing your profile."@,
        !killed ==> r@ == "could not kill "@ + app::pid_text(pid)
            + "; opening anonymously instead."@,
        app::ANONYMOUS_NOTE@ == "opening anonymously."@,
        app::CHOICE_NOTE@ == "please type k, a, or q."@,
{
}

} // verus!
