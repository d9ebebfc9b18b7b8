//! The small decisions around the browser: addresses, frame headers, the status
//! line and the question about a profile that is still held.

use crate::geometry::{CellSize, HalfPx, Viewport};
use crate::input::Mode;
use crate::renderer::HintBox;
use crate::text;
use crate::ui;
use crate::ui::{Label, Ui};
use vstd::prelude::*;
use vstd::slice::slice_subrange;
use vstd::utf8::*;

verus! {

/// The digit of `n` in base sixteen, in upper case.
pub open spec fn hex_digit(n: int) -> char {
    if n < 10 {
        (48 + n) as char
    } else {
        (55 + n) as char
    }
}

/// What the digit `c` stands for in base sixteen.
pub open spec fn hex_value(c: char) -> int {
    if c <= '9' {
        c as int - 48
    } else {
        c as int - 55
    }
}

/// `b` is one of the bytes that an address may hold as they are.
pub open spec fn unreserved(b: u8) -> bool {
    ||| 97 <= b <= 122
    ||| 65 <= b <= 90
    ||| 48 <= b <= 57
    ||| b == 45
    ||| b == 95
    ||| b == 46
    ||| b == 126
}

/// One byte in an address. In a query a space becomes a plus sign; in a path a
/// slash stays.
pub open spec fn encoded_byte(b: u8, query: bool) -> Seq<char> {
    if unreserved(b) || (!query && b == 47) {
        seq![b as char]
    } else if query && b == 32 {
        seq!['+']
    } else {
        seq!['%', hex_digit(b as int / 16), hex_digit(b as int % 16)]
    }
}

/// Bytes in an address.
pub open spec fn encoded(bytes: Seq<u8>, query: bool) -> Seq<char>
    decreases bytes.len(),
{
    if bytes.len() == 0 {
        Seq::empty()
    } else {
        encoded_byte(bytes[0], query) + encoded(bytes.skip(1), query)
    }
}

/// The bytes that a part of an address stands for.
pub open spec fn decoded(s: Seq<char>, query: bool) -> Seq<u8>
    decreases s.len(),
{
    if s.len() == 0 {
        Seq::empty()
    } else if s[0] == '%' && s.len() >= 3 {
        seq![(16 * hex_value(s[1]) + hex_value(s[2])) as u8] + decoded(s.skip(3), query)
    } else if query && s[0] == '+' {
        seq![32u8] + decoded(s.skip(1), query)
    } else {
        seq![s[0] as u8] + decoded(s.skip(1), query)
    }
}

/// What was encoded can be decoded: nothing typed is lost on the way.
pub proof fn law_encoding_roundtrip(bytes: Seq<u8>, query: bool)
    ensures
        decoded(encoded(bytes, query), query) == bytes,
    decreases bytes.len(),
{
    if bytes.len() > 0 {
        let rest = bytes.skip(1);
        law_encoding_roundtrip(rest, query);
        let b = bytes[0];
        let s = encoded(bytes, query);
        if unreserved(b) || (!query && b == 47) || (query && b == 32) {
            assert(s.skip(1) =~= encoded(rest, query));
        } else {
            assert(s.skip(3) =~= encoded(rest, query));
            assert(16 * (b as int / 16) + b as int % 16 == b);
        }
        assert(decoded(s, query) =~= bytes);
    }
}

/// What was encoded holds nothing but unreserved characters, percent signs and
/// plus signs (in a query) or slashes (in a path): it is one word.
pub proof fn law_encoding_is_plain(bytes: Seq<u8>, query: bool, i: int)
    requires
        0 <= i < encoded(bytes, query).len(),
    ensures
        ({
            let c = encoded(bytes, query)[i];
            ||| c as int <= 255 && unreserved(c as u8)
            ||| c == '%'
            ||| query && c == '+'
            ||| !query && c == '/'
        }),
    decreases bytes.len(),
{
    let head = encoded_byte(bytes[0], query);
    let rest = encoded(bytes.skip(1), query);
    if i >= head.len() {
        law_encoding_is_plain(bytes.skip(1), query, i - head.len());
        assert(encoded(bytes, query)[i] == rest[i - head.len()]);
    } else {
        assert(encoded(bytes, query)[i] == head[i]);
    }
}

/// The digit of `n` in base sixteen, in upper case.
fn hex(n: u8) -> (r: char)
    requires
        n < 16,
    ensures
        r == hex_digit(n as int),
{
    if n < 10 {
        (48 + n) as char
    } else {
        (55 + n) as char
    }
}

/// Encodes bytes for an address.
fn percent_encode(bytes: &[u8], query: bool) -> (r: String)
    ensures
        r@ == encoded(bytes@, query),
{
    let mut out: String = String::new();
    let mut i: usize = 0;
    assert(bytes@.skip(0) =~= bytes@);
    while i < bytes.len()
        invariant
            i <= bytes@.len(),
            out@ + encoded(bytes@.skip(i as int), query) == encoded(bytes@, query),
        decreases bytes@.len() - i,
    {
        let b: u8 = bytes[i];
        let ghost before = out@;
        let ghost tail = bytes@.skip(i as int);
        if (97 <= b && b <= 122) || (65 <= b && b <= 90) || (48 <= b && b <= 57) || b == 45 || b
            == 95 || b == 46 || b == 126 || (!query && b == 47) {
            out.push(b as char);
        } else if query && b == 32 {
            out.push('+');
        } else {
            out.push('%');
            out.push(hex(b / 16));
            out.push(hex(b % 16));
        }
        proof {
            assert(out@ =~= before + encoded_byte(b, query));
            assert(tail.skip(1) =~= bytes@.skip(i + 1));
            assert(before + encoded(tail, query) =~= out@ + encoded(bytes@.skip(i + 1), query));
        }
        i += 1;
    }
    assert(bytes@.skip(i as int).len() == 0);
    assert(out@ =~= encoded(bytes@, query));
    out
}

/// Encodes a text for a query.
pub fn urlencode(s: &str) -> (r: String)
    ensures
        r@ == encoded(encode_utf8(s@), true),
{
    percent_encode(s.as_bytes(), true)
}

/// Encodes a path.
pub fn encode_file_path(path: &str) -> (r: String)
    ensures
        r@ == encoded(encode_utf8(path@), false),
{
    percent_encode(path.as_bytes(), false)
}

/// The address of a file: of the canonical path that stands behind what was
/// typed, where there is one.
pub open spec fn file_url(input: Seq<char>, canonical: Option<Seq<char>>) -> Option<Seq<char>> {
    match canonical {
        Some(path) => if input.len() == 0 {
            None
        } else {
            Some("file://"@ + encoded(encode_utf8(path), false))
        },
        None => None,
    }
}

/// What an optional string slice holds.
pub open spec fn str_view(s: Option<&str>) -> Option<Seq<char>> {
    match s {
        Some(s) => Some(s@),
        None => None,
    }
}

/// The address of the file that `input` names, given the canonical path of that
/// file, if it exists.
pub fn file_url_if_path(input: &str, canonical: Option<&str>) -> (r: Option<String>)
    ensures
        text::opt_view(r) == file_url(input@, str_view(canonical)),
{
    if input.is_empty() {
        return None;
    }
    match canonical {
        Some(path) => {
            let mut url: String = "file://".to_string();
            url.push_str(encode_file_path(path).as_str());
            Some(url)
        },
        None => None,
    }
}

/// The address for what was typed: an address as it stands, a file, a host, or
/// else a search.
pub open spec fn normalized(input: Seq<char>, canonical: Option<Seq<char>>) -> Seq<char> {
    let t = text::trimmed(input);
    if text::occurs(t, "://"@) || "about:"@.is_prefix_of(t) {
        t
    } else {
        match file_url(t, canonical) {
            Some(url) => url,
            None => if t.contains('.') && !t.contains(' ') {
                "https://"@ + t
            } else {
                "https://www.google.com/search?q="@ + encoded(encode_utf8(t), true)
            },
        }
    }
}

/// What was typed, without the white space around it: the text whose canonical
/// path `normalize_url` is to be given.
pub fn typed_path(input: &str) -> (r: String)
    ensures
        r@ == text::trimmed(input@),
{
    let chars: Vec<char> = text::chars_of(input);
    text::string_of(text::trim(chars.as_slice()))
}

/// Whether `c` stands in `s`.
fn has_char(s: &[char], c: char) -> (r: bool)
    ensures
        r == s@.contains(c),
{
    let mut i: usize = 0;
    while i < s.len()
        invariant
            i <= s@.len(),
            forall|k: int| 0 <= k < i ==> s@[k] != c,
        decreases s@.len() - i,
    {
        if s[i] == c {
            assert(s@[i as int] == c);
            return true;
        }
        i += 1;
    }
    false
}

/// The address for what was typed, given the canonical path of the file that it
/// names, if there is such a file.
pub fn normalize_url(input: &str, canonical: Option<&str>) -> (r: String)
    ensures
        r@ == normalized(input@, str_view(canonical)),
{
    let t: String = typed_path(input);
    let chars: Vec<char> = text::chars_of(t.as_str());
    let about: Vec<char> = text::chars_of("about:");
    if text::contains_str(t.as_str(), "://") || text::begins_with(
        chars.as_slice(),
        about.as_slice(),
    ) {
        return t;
    }
    if let Some(url) = file_url_if_path(t.as_str(), canonical) {
        return url;
    }
    if has_char(chars.as_slice(), '.') && !has_char(chars.as_slice(), ' ') {
        let mut url: String = "https://".to_string();
        url.push_str(t.as_str());
        url
    } else {
        let mut url: String = "https://www.google.com/search?q=".to_string();
        url.push_str(urlencode(t.as_str()).as_str());
        url
    }
}

/// What was normalised is an address: normalising it again changes nothing,
/// whatever files there are by then.
pub proof fn law_normalized_is_url(
    input: Seq<char>,
    canonical: Option<Seq<char>>,
    later: Option<Seq<char>>,
)
    ensures
        text::occurs(normalized(input, canonical), "://"@) || "about:"@.is_prefix_of(
            normalized(input, canonical),
        ),
        normalized(normalized(input, canonical), later) == normalized(input, canonical),
{
    let n = normalized(input, canonical);
    let t = text::trimmed(input);
    reveal_strlit("://");
    reveal_strlit("about:");
    reveal_strlit("file://");
    reveal_strlit("https://");
    reveal_strlit("https://www.google.com/search?q=");
    text::lemma_trimmed_ends(input);
    if text::occurs(t, "://"@) || "about:"@.is_prefix_of(t) {
        if t.len() == 0 {
            assert(!"about:"@.is_prefix_of(t));
            let i = choose|i: int| text::occurs_at(t, "://"@, i);
            assert(t.subrange(i, i + 3).len() == 3);
        }
    } else {
        match file_url(t, canonical) {
            Some(url) => {
                assert(url.subrange(4, 7) =~= "://"@);
                assert(text::occurs_at(n, "://"@, 4));
                let e = encoded(encode_utf8(canonical->0), false);
                if e.len() > 0 {
                    law_encoding_is_plain(encode_utf8(canonical->0), false, e.len() - 1);
                    assert(n.last() == e.last());
                }
            },
            None => {
                assert(n.subrange(5, 8) =~= "://"@);
                assert(text::occurs_at(n, "://"@, 5));
                if t.contains('.') && !t.contains(' ') {
                    assert(n.last() == t.last());
                } else {
                    let e = encoded(encode_utf8(t), true);
                    if e.len() > 0 {
                        law_encoding_is_plain(encode_utf8(t), true, e.len() - 1);
                        assert(n.last() == e.last());
                    }
                }
            },
        }
    }
    assert(n.len() > 0 && !text::is_white(n[0]) && !text::is_white(n.last()));
    assert(text::trimmed(n) == n);
}

/// A path as it was typed, with its home directory told apart.
#[derive(Debug)]
pub enum TypedPath {
    /// The home directory.
    Home,
    /// A path under the home directory.
    UnderHome(String),
    /// Any other path.
    Plain(String),
}

/// Tells a path's home directory apart: `~` is the home directory, and `~/`
/// stands for a path under it. Where there is no home directory the whole
/// input is the path.
pub fn expand_home(input: &str) -> (r: TypedPath)
    ensures
        match r {
            TypedPath::Home => input@ == "~"@,
            TypedPath::UnderHome(rest) => input@ == "~/"@ + rest@,
            TypedPath::Plain(p) => p@ == input@ && input@ != "~"@ && !"~/"@.is_prefix_of(input@),
        },
{
    let chars: Vec<char> = text::chars_of(input);
    proof {
        reveal_strlit("~");
        reveal_strlit("~/");
    }
    if text::spells(chars.as_slice(), "~") {
        return TypedPath::Home;
    }
    let n: usize = chars.len();
    if n >= 2 && chars[0] == '~' && chars[1] == '/' {
        let rest: String = text::string_of(slice_subrange(chars.as_slice(), 2, n));
        assert("~/"@ + rest@ =~= input@);
        return TypedPath::UnderHome(rest);
    }
    proof {
        if "~/"@.is_prefix_of(input@) {
            assert(input@[0] == "~/"@[0] && input@[1] == "~/"@[1]);
        }
    }
    TypedPath::Plain(input.to_string())
}

/// Four bytes, the highest first.
pub open spec fn be32(b: Seq<u8>, i: int) -> u32 {
    (b[i] * 0x100_0000 + b[i + 1] * 0x1_0000 + b[i + 2] * 0x100 + b[i + 3]) as u32
}

/// Two bytes, the high one first.
pub open spec fn be16(b: Seq<u8>, i: int) -> u32 {
    (b[i] * 0x100 + b[i + 1]) as u32
}

/// `b` begins as a PNG file does.
pub open spec fn is_png(b: Seq<u8>) -> bool {
    b.len() >= 24 && b.take(8) == seq![0x89u8, 0x50, 0x4e, 0x47, 0x0d, 0x0a, 0x1a, 0x0a]
}

/// `m` marks a JPEG segment that holds the picture's size.
pub open spec fn is_size_marker(m: u8) -> bool {
    0xc0 <= m <= 0xcf && m != 0xc4 && m != 0xc8 && m != 0xcc
}

/// Width and height in the first JPEG segment, from `i` on, that holds them;
/// other segments are skipped by their length, stray bytes one by one.
pub open spec fn jpeg_size(b: Seq<u8>, i: int) -> Option<(u32, u32)>
    decreases (if i < b.len() { b.len() - i } else { 0 }),
{
    if i < 0 || i + 9 >= b.len() {
        None
    } else if b[i] != 0xff {
        jpeg_size(b, i + 1)
    } else if is_size_marker(b[i + 1]) {
        Some((be16(b, i + 7), be16(b, i + 5)))
    } else {
        jpeg_size(b, i + 2 + be16(b, i + 2))
    }
}

/// Width and height of a PNG or JPEG picture, by its header.
pub open spec fn picture_size(b: Seq<u8>) -> Option<(u32, u32)> {
    if is_png(b) {
        Some((be32(b, 16), be32(b, 20)))
    } else if b.len() >= 4 && b[0] == 0xff && b[1] == 0xd8 {
        jpeg_size(b, 2)
    } else {
        None
    }
}

/// Reads the width and the height of a picture from its header.
pub fn jpeg_dims(b: &[u8]) -> (r: Option<(u32, u32)>)
    ensures
        r == picture_size(b@),
{
    let n: usize = b.len();
    if n >= 24 && b[0] == 0x89 && b[1] == 0x50 && b[2] == 0x4e && b[3] == 0x47 && b[4] == 0x0d && b[5]
        == 0x0a && b[6] == 0x1a && b[7] == 0x0a {
        assert(b@.take(8) =~= seq![0x89u8, 0x50, 0x4e, 0x47, 0x0d, 0x0a, 0x1a, 0x0a]);
        let w: u32 = b[16] as u32 * 0x100_0000 + b[17] as u32 * 0x1_0000 + b[18] as u32 * 0x100
            + b[19] as u32;
        let h: u32 = b[20] as u32 * 0x100_0000 + b[21] as u32 * 0x1_0000 + b[22] as u32 * 0x100
            + b[23] as u32;
        return Some((w, h));
    }
    proof {
        if is_png(b@) {
            let head = b@.take(8);
            assert(head[0] == 0x89 && head[1] == 0x50 && head[2] == 0x4e && head[3] == 0x47);
            assert(head[4] == 0x0d && head[5] == 0x0a && head[6] == 0x1a && head[7] == 0x0a);
        }
    }
    if n >= 4 && b[0] == 0xff && b[1] == 0xd8 {
        let mut i: usize = 2;
        while n - i > 9
            invariant
                n == b@.len(),
                i <= n,
                picture_size(b@) == jpeg_size(b@, i as int),
            decreases n - i,
        {
            if b[i] != 0xff {
                i += 1;
                continue;
            }
            let m: u8 = b[i + 1];
            if 0xc0 <= m && m <= 0xcf && m != 0xc4 && m != 0xc8 && m != 0xcc {
                let h: u32 = b[i + 5] as u32 * 0x100 + b[i + 6] as u32;
                let w: u32 = b[i + 7] as u32 * 0x100 + b[i + 8] as u32;
                return Some((w, h));
            }
            let len: usize = b[i + 2] as usize * 0x100 + b[i + 3] as usize;
            if 2 + len > n - i {
                assert(jpeg_size(b@, i + 2 + len) is None);
                return None;
            }
            i += 2 + len;
        }
    }
    None
}

/// The box behind a label: as wide as its letters, as high as a cell.
pub open spec fn box_of(t: ui::Tag, cell: CellSize) -> HintBox {
    HintBox {
        x: (t.1 * cell.w) as u32,
        y: (t.2 * cell.h) as u32,
        w: (t.0.len() * cell.w) as u32,
        h: cell.h as u32,
    }
}

/// The boxes behind the labels, in pixels of the page area.
pub fn hint_boxes(overlay: &[Label], cell: CellSize) -> (r: Vec<HintBox>)
    requires
        forall|i: int|
            0 <= i < overlay@.len() ==> (#[trigger] overlay@[i]).0@.len() * cell.w <= u32::MAX,
    ensures
        r@ == ui::tags(overlay@).map_values(|t: ui::Tag| box_of(t, cell)),
{
    let mut out: Vec<HintBox> = Vec::new();
    let ghost want = ui::tags(overlay@).map_values(|t: ui::Tag| box_of(t, cell));
    let mut i: usize = 0;
    while i < overlay.len()
        invariant
            i <= overlay@.len(),
            forall|k: int|
                0 <= k < overlay@.len() ==> (#[trigger] overlay@[k]).0@.len() * cell.w <= u32::MAX,
            want == ui::tags(overlay@).map_values(|t: ui::Tag| box_of(t, cell)),
            out@ =~= want.take(i as int),
        decreases overlay@.len() - i,
    {
        let (label, col, row) = &overlay[i];
        let n: usize = label.as_str().unicode_len();
        proof {
            assert(overlay@[i as int].0@.len() == n);
            assert(*col * cell.w <= 0xfffe_0001 && 0 <= *col * cell.w) by (nonlinear_arith)
                requires
                    *col <= 0xffff,
                    cell.w <= 0xffff,
            ;
            assert(*row * cell.h <= 0xfffe_0001 && 0 <= *row * cell.h) by (nonlinear_arith)
                requires
                    *row <= 0xffff,
                    cell.h <= 0xffff,
            ;
            assert(0 <= n * cell.w) by (nonlinear_arith);
        }
        out.push(
            HintBox {
                x: *col as u32 * cell.w as u32,
                y: *row as u32 * cell.h as u32,
                w: (n as u128 * cell.w as u128) as u32,
                h: cell.h as u32,
            },
        );
        assert(want[i as int] == box_of((label@, *col, *row), cell));
        i += 1;
    }
    assert(want.take(overlay@.len() as int) =~= want);
    out
}

/// What the status line says: the mode where it is insert mode, the address, and
/// whether an agent may control the browser.
pub open spec fn status_content(mode: Mode, current_url: Seq<char>, control: bool) -> Seq<char> {
    let s = if mode == Mode::Insert {
        "-- INSERT --  "@ + current_url
    } else {
        current_url
    };
    if control {
        s + "  MCP control active"@
    } else {
        s
    }
}

/// The status line, and the prompt over it while the address is typed.
pub open spec fn status_output(
    ui: Ui,
    mode: Mode,
    current_url: Seq<char>,
    url_buffer: Seq<char>,
    control: bool,
    loading: bool,
    phase: u16,
) -> Seq<char> {
    let line = ui::status_line(ui.grid, status_content(mode, current_url, control), loading, phase);
    if mode == Mode::UrlInput {
        line + ui::prompt_line(ui.grid, url_buffer)
    } else {
        line
    }
}

/// Draws the status line, and the prompt over it while the address is typed.
/// Each clears its line first, so nothing is left of a longer text.
pub fn write_status(
    ui: &Ui,
    mode: Mode,
    current_url: &str,
    url_buffer: &str,
    mcp_control_active: bool,
    loading: bool,
    loading_phase: u16,
) -> (r: Vec<u8>)
    ensures
        r@ == encode_utf8(
            status_output(
                *ui,
                mode,
                current_url@,
                url_buffer@,
                mcp_control_active,
                loading,
                loading_phase,
            ),
        ),
{
    let mut status: String = match mode {
        Mode::Insert => {
            let mut s: String = "-- INSERT --  ".to_string();
            s.push_str(current_url);
            s
        },
        _ => current_url.to_string(),
    };
    if mcp_control_active {
        status.push_str("  MCP control active");
    }
    assert(status@ =~= status_content(mode, current_url@, mcp_control_active));
    let mut out: Vec<u8> = ui.status_bar_frame(status.as_str(), loading, loading_phase);
    if let Mode::UrlInput = mode {
        let prompt: Vec<u8> = ui.url_prompt(url_buffer);
        proof {
            text::lemma_encode_concat(
                ui::status_line(ui.grid, status@, loading, loading_phase),
                ui::prompt_line(ui.grid, url_buffer@),
            );
        }
        out.extend_from_slice(prompt.as_slice());
        assert(out@ =~= encode_utf8(
            status_output(
                *ui,
                mode,
                current_url@,
                url_buffer@,
                mcp_control_active,
                loading,
                loading_phase,
            ),
        ));
    }
    out
}

/// The browser's window: the page area and a margin, so that the capture does
/// not crop the page.
pub fn window_for(dev: Viewport) -> (r: (u32, u32))
    requires
        dev.width_px <= u32::MAX - 600,
        dev.height_px <= u32::MAX - 600,
    ensures
        r.0 == dev.width_px + 600,
        r.1 == dev.height_px + 600,
{
    (dev.width_px + 600, dev.height_px + 600)
}

/// Where a scroll happens: at its own place, else where the mouse was last, else
/// in the middle of the page.
pub open spec fn scroll_place(
    x: HalfPx,
    y: HalfPx,
    last: Option<(HalfPx, HalfPx)>,
    vp: Viewport,
) -> (HalfPx, HalfPx) {
    if x.halves != 0 || y.halves != 0 {
        (x, y)
    } else {
        match last {
            Some(p) => p,
            None => (
                HalfPx { halves: vp.width_px as i64 },
                HalfPx { halves: vp.height_px as i64 },
            ),
        }
    }
}

/// Where a scroll happens. Keyboard scrolls have no place of their own; they
/// reach the pane that the user last pointed at.
pub fn scroll_target(
    x: HalfPx,
    y: HalfPx,
    last_mouse_pos: Option<(HalfPx, HalfPx)>,
    vp: Viewport,
) -> (r: (HalfPx, HalfPx))
    ensures
        r == scroll_place(x, y, last_mouse_pos, vp),
{
    if x.halves != 0 || y.halves != 0 {
        return (x, y);
    }
    match last_mouse_pos {
        Some(p) => p,
        None => (
            HalfPx { halves: vp.width_px as i64 },
            HalfPx { halves: vp.height_px as i64 },
        ),
    }
}

/// How a profile that another process may hold is dealt with.
#[derive(Debug, Clone, Copy, PartialEq, Eq, Structural)]
pub enum Conflict {
    /// Ask the user.
    Ask,
    /// Ask again: the answer was none of the choices.
    AskAgain,
    /// End the process that holds the profile, then go on.
    Kill,
    /// Say that the browser opens anonymously, then go on.
    Anonymous,
    /// Go on.
    Proceed,
    /// End.
    Quit,
}

/// What to do at first: nobody is asked where the profile is free, nor where
/// nobody is there to answer.
pub fn conflict_start(holder: Option<i32>, terminal: bool) -> (r: Conflict)
    ensures
        r == if holder is Some && terminal {
            Conflict::Ask
        } else {
            Conflict::Proceed
        },
{
    if holder.is_some() && terminal {
        Conflict::Ask
    } else {
        Conflict::Proceed
    }
}

/// An answer in lower case, without the white space around it.
pub open spec fn plain_answer(line: Seq<char>) -> Seq<char> {
    text::trimmed(line).map_values(|c: char| text::ascii_lower(c))
}

/// What an answer asks for; the end of the input ends the program.
pub open spec fn answered(line: Option<Seq<char>>) -> Conflict {
    match line {
        None => Conflict::Quit,
        Some(line) => {
            let a = plain_answer(line);
            if a == "k"@ || a == "kill"@ {
                Conflict::Kill
            } else if a == "a"@ || a == "anon"@ || a == "anonymous"@ {
                Conflict::Anonymous
            } else if a == "q"@ || a == "quit"@ {
                Conflict::Quit
            } else {
                Conflict::AskAgain
            }
        },
    }
}

/// Reads the user's answer.
pub fn conflict_answer(line: Option<&str>) -> (r: Conflict)
    ensures
        r == answered(str_view(line)),
{
    let line: &str = match line {
        None => return Conflict::Quit,
        Some(l) => l,
    };
    let chars: Vec<char> = text::chars_of(line);
    let core: &[char] = text::trim(chars.as_slice());
    let mut a: Vec<char> = Vec::new();
    let mut i: usize = 0;
    while i < core.len()
        invariant
            i <= core@.len(),
            a@ == core@.take(i as int).map_values(|c: char| text::ascii_lower(c)),
        decreases core@.len() - i,
    {
        a.push(text::lower(core[i]));
        i += 1;
        assert(a@ =~= core@.take(i as int).map_values(|c: char| text::ascii_lower(c)));
    }
    assert(core@.take(core@.len() as int) =~= core@);
    let s: &[char] = a.as_slice();
    if text::spells(s, "k") || text::spells(s, "kill") {
        Conflict::Kill
    } else if text::spells(s, "a") || text::spells(s, "anon") || text::spells(s, "anonymous") {
        Conflict::Anonymous
    } else if text::spells(s, "q") || text::spells(s, "quit") {
        Conflict::Quit
    } else {
        Conflict::AskAgain
    }
}

/// The process number as it is shown.
pub open spec fn pid_text(pid: i32) -> Seq<char> {
    if pid < 0 {
        seq!['-'] + text::dec((-pid) as nat)
    } else {
        text::dec(pid as nat)
    }
}

/// Appends a process number.
pub fn push_pid(out: &mut String, pid: i32)
    ensures
        final(out)@ == old(out)@ + pid_text(pid),
{
    if pid < 0 {
        out.push('-');
        let n: i64 = -(pid as i64);
        text::push_dec(out, n as u64);
    } else {
        text::push_dec(out, pid as u64);
    }
    assert(out@ =~= old(out)@ + pid_text(pid));
}

/// The question about a profile that the process `pid` holds.
pub fn conflict_prompt(pid: i32) -> (r: String)
    ensures
        r@ == "\nwebcat: a previous browser (pid "@ + pid_text(pid)
            + ") is still running and holds your profile.\n  [k] kill it and reuse your profile (history, logins)\n  [a] open anonymously in a temporary profile\n  [q] quit\nchoice [k/a/q]: "@,
{
    let mut out: String = "\nwebcat: a previous browser (pid ".to_string();
    push_pid(&mut out, pid);
    out.push_str(
        ") is still running and holds your profile.\n  [k] kill it and reuse your profile (history, logins)\n  [a] open anonymously in a temporary profile\n  [q] quit\nchoice [k/a/q]: ",
    );
    out
}

/// What is said after an attempt to end the process `pid`.
pub fn conflict_killed(pid: i32, killed: bool) -> (r: String)
    ensures
        r@ == if killed {
            "killed "@ + pid_text(pid) + "; reusing your profile."@
        } else {
            "could not kill "@ + pid_text(pid) + "; opening anonymously instead."@
        },
{
    if killed {
        let mut out: String = "killed ".to_string();
        push_pid(&mut out, pid);
        out.push_str("; reusing your profile.");
        out
    } else {
        let mut out: String = "could not kill ".to_string();
        push_pid(&mut out, pid);
        out.push_str("; opening anonymously instead.");
        out
    }
}

/// What is said when the browser opens anonymously.
pub const ANONYMOUS_NOTE: &'static str = "opening anonymously.";

/// What is said when the answer was none of the choices.
pub const CHOICE_NOTE: &'static str = "please type k, a, or q.";

} // verus!
