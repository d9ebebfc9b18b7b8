//! From bytes to input: tokens, then keys and mouse events.

use crate::terminal::keyboard;
use crate::terminal::keyboard::{Key, KeyEvent, Mods};
use crate::terminal::mouse;
use crate::terminal::mouse::MouseEvent;
use crate::text;
use crate::utf8;
use vstd::prelude::*;
use vstd::slice::slice_subrange;
use vstd::utf8::*;

verus! {

/// One piece of input.
#[derive(Debug)]
pub enum RawInput {
    Key(KeyEvent),
    Mouse(MouseEvent),
    /// The terminal changed its size.
    Resize,
    /// The terminal has processed a transmitted frame.
    GfxAck,
}

/// What a piece of input holds.
pub enum Input {
    Key(keyboard::KeyPress),
    Mouse(MouseEvent),
    Resize,
    GfxAck,
}

impl View for RawInput {
    type V = Input;

    open spec fn view(&self) -> Input {
        match *self {
            RawInput::Key(ev) => Input::Key(ev@),
            RawInput::Mouse(ev) => Input::Mouse(ev),
            RawInput::Resize => Input::Resize,
            RawInput::GfxAck => Input::GfxAck,
        }
    }
}

/// What an optional piece of input holds.
pub open spec fn input_view(r: Option<RawInput>) -> Option<Input> {
    match r {
        Some(i) => Some(i@),
        None => None,
    }
}

/// The key that a legacy control character stands for.
pub open spec fn control_key(c: char) -> Option<Key> {
    if c == '\r' || c == '\n' {
        Some(Key::Enter)
    } else if c == '\x7f' || c == '\x08' {
        Some(Key::Backspace)
    } else if c == '\t' {
        Some(Key::Tab)
    } else {
        None
    }
}

/// What one token means. `ESC [ <` starts a mouse report and `ESC [` with a
/// final `u` is a key report; any other escape means nothing. A control
/// character alone is its key; all other text is typed as it stands.
pub open spec fn meaning(seq: Seq<char>) -> Option<Input> {
    if seq.len() >= 3 && seq[0] == '\x1b' && seq[1] == '[' && seq[2] == '<' {
        match mouse::sgr_mouse(seq) {
            Some(ev) => Some(Input::Mouse(ev)),
            None => None,
        }
    } else if keyboard::is_csi(seq, 'u') {
        match keyboard::kitty_key(seq) {
            Some(ev) => Some(Input::Key(ev)),
            None => None,
        }
    } else if seq.len() == 0 || seq[0] == '\x1b' {
        None
    } else if seq.len() == 1 && control_key(seq[0]) is Some {
        Some(
            Input::Key(
                keyboard::KeyPress {
                    key: control_key(seq[0])->0,
                    mods: keyboard::no_mods(),
                    text: None,
                },
            ),
        )
    } else {
        Some(
            Input::Key(
                keyboard::KeyPress {
                    key: Key::Char(seq[0]),
                    mods: keyboard::no_mods(),
                    text: Some(seq),
                },
            ),
        )
    }
}

/// Routes one token, a full escape or plain text, to what it means.
pub fn classify(seq: &str) -> (r: Option<RawInput>)
    ensures
        input_view(r) == meaning(seq@),
{
    let s: Vec<char> = text::chars_of(seq);
    let n: usize = s.len();
    if n >= 3 && s[0] == '\x1b' && s[1] == '[' && s[2] == '<' {
        return match mouse::parse_sgr_mouse(seq) {
            Some(ev) => Some(RawInput::Mouse(ev)),
            None => None,
        };
    }
    if n >= 3 && s[0] == '\x1b' && s[1] == '[' && s[n - 1] == 'u' {
        return match keyboard::parse_kitty_key(seq) {
            Some(ev) => Some(RawInput::Key(ev)),
            None => None,
        };
    }
    if n == 0 || s[0] == '\x1b' {
        return None;
    }
    let first: char = s[0];
    if n == 1 {
        // Enter, Backspace and Tab still come as their control bytes.
        let key: Option<Key> = if first == '\r' || first == '\n' {
            Some(Key::Enter)
        } else if first == '\x7f' || first == '\x08' {
            Some(Key::Backspace)
        } else if first == '\t' {
            Some(Key::Tab)
        } else {
            None
        };
        if let Some(key) = key {
            return Some(RawInput::Key(KeyEvent { key, mods: Mods::none(), text: None }));
        }
    }
    Some(
        RawInput::Key(
            KeyEvent { key: Key::Char(first), mods: Mods::none(), text: Some(seq.to_string()) },
        ),
    )
}

/// The text between escapes is typed as it stands: no text is lost and none is
/// made up, whatever characters it holds.
pub proof fn law_text_is_typed(s: Seq<char>)
    requires
        s.len() > 0,
        s[0] != '\x1b',
    ensures
        s.len() == 1 && control_key(s[0]) is Some || meaning(s) == Some(
            Input::Key(
                keyboard::KeyPress {
                    key: Key::Char(s[0]),
                    mods: keyboard::no_mods(),
                    text: Some(s),
                },
            ),
        ),
{
}

/// `b` ends a control sequence.
pub open spec fn is_final_byte(b: u8) -> bool {
    0x40 <= b <= 0x7e
}

/// The offset of the first final byte at or behind `from`, or the length.
pub open spec fn final_at(b: Seq<u8>, from: int) -> int
    decreases b.len() - from,
{
    if from < 0 || from >= b.len() || is_final_byte(b[from]) {
        from
    } else {
        final_at(b, from + 1)
    }
}

/// The offset of the first escape at or behind `from`, or the length.
pub open spec fn escape_at(b: Seq<u8>, from: int) -> int
    decreases b.len() - from,
{
    if from < 0 || from >= b.len() || b[from] == 0x1b {
        from
    } else {
        escape_at(b, from + 1)
    }
}

/// The text of a complete escape: what its bytes encode, with replacements where
/// they are not UTF-8.
pub open spec fn escape_text(b: Seq<u8>) -> Seq<char> {
    if valid_utf8(b) {
        decode_utf8(b)
    } else {
        utf8::utf8_lossy(b)
    }
}

/// What the beginning of a buffer yields: a token or none, the number of bytes
/// used up, and whether the rest has to wait for more.
pub struct Scan {
    pub token: Option<Seq<char>>,
    pub used: int,
    pub wait: bool,
}

/// What the beginning of a non-empty buffer yields.
///
/// An escape yields a token once it is complete: `ESC [` up to a final byte, or
/// `ESC` and one byte. Anything else is text up to the next escape. Of text that
/// is not UTF-8 the valid beginning is yielded. Behind it the rest of the buffer
/// waits where it is the beginning of a character cut in two; else the byte that
/// belongs to no character is skipped.
pub open spec fn scan(b: Seq<u8>) -> Scan {
    if b[0] == 0x1b {
        if b.len() == 1 {
            Scan { token: None, used: 0, wait: true }
        } else if b[1] == 0x5b {
            let j = final_at(b, 2);
            if j < b.len() {
                Scan { token: Some(escape_text(b.take(j + 1))), used: j + 1, wait: false }
            } else {
                Scan { token: None, used: 0, wait: true }
            }
        } else {
            Scan { token: Some(escape_text(b.take(2))), used: 2, wait: false }
        }
    } else {
        let j = escape_at(b, 0);
        let run = b.take(j);
        let v = utf8::valid_prefix(run) as int;
        let token = if v > 0 {
            Some(decode_utf8(run.take(v)))
        } else {
            None
        };
        if v == j {
            Scan { token, used: j, wait: false }
        } else if j == b.len() && utf8::is_cut(run.skip(v)) {
            Scan { token, used: v, wait: true }
        } else {
            Scan { token, used: v + 1, wait: false }
        }
    }
}

/// A token as a row of none or one.
pub open spec fn as_row(t: Option<Seq<char>>) -> Seq<Seq<char>> {
    match t {
        Some(s) => seq![s],
        None => Seq::empty(),
    }
}

/// The complete tokens of a buffer, in order.
pub open spec fn tokens(b: Seq<u8>) -> Seq<Seq<char>>
    decreases b.len(),
{
    if b.len() == 0 {
        Seq::empty()
    } else {
        let s = scan(b);
        if s.wait || !(0 < s.used <= b.len()) {
            as_row(s.token)
        } else {
            as_row(s.token) + tokens(b.skip(s.used))
        }
    }
}

/// How many bytes the complete tokens of a buffer take up.
pub open spec fn consumed(b: Seq<u8>) -> int
    decreases b.len(),
{
    if b.len() == 0 {
        0
    } else {
        let s = scan(b);
        if s.wait || !(0 < s.used <= b.len()) {
            s.used
        } else {
            s.used + consumed(b.skip(s.used))
        }
    }
}

/// `b` is what may be left over: nothing, a lone escape, a control sequence
/// without its final byte, or the beginning of one character.
pub open spec fn incomplete(b: Seq<u8>) -> bool {
    ||| b.len() == 0
    ||| b == seq![0x1bu8]
    ||| b.len() >= 2 && b[0] == 0x1b && b[1] == 0x5b && final_at(b, 2) == b.len()
    ||| utf8::is_cut(b)
}

/// A search stops at a final byte or at the end, with none before.
proof fn lemma_final_at(b: Seq<u8>, from: int)
    requires
        0 <= from <= b.len(),
    ensures
        from <= final_at(b, from) <= b.len(),
        final_at(b, from) < b.len() ==> is_final_byte(b[final_at(b, from)]),
        forall|k: int| from <= k < final_at(b, from) ==> !is_final_byte(#[trigger] b[k]),
    decreases b.len() - from,
{
    if from < b.len() && !is_final_byte(b[from]) {
        lemma_final_at(b, from + 1);
    }
}

/// A search stops at an escape or at the end, with none before.
proof fn lemma_escape_at(b: Seq<u8>, from: int)
    requires
        0 <= from <= b.len(),
    ensures
        from <= escape_at(b, from) <= b.len(),
        escape_at(b, from) < b.len() ==> b[escape_at(b, from)] == 0x1b,
        forall|k: int| from <= k < escape_at(b, from) ==> #[trigger] b[k] != 0x1b,
    decreases b.len() - from,
{
    if from < b.len() && b[from] != 0x1b {
        lemma_escape_at(b, from + 1);
    }
}

/// Where the first final byte is, the search finds it.
pub proof fn lemma_final_found(b: Seq<u8>, from: int, j: int)
    requires
        0 <= from <= j <= b.len(),
        j < b.len() ==> is_final_byte(b[j]),
        forall|k: int| from <= k < j ==> !is_final_byte(#[trigger] b[k]),
    ensures
        final_at(b, from) == j,
    decreases j - from,
{
    if from < j {
        lemma_final_found(b, from + 1, j);
    }
}

/// Where the first escape is, the search finds it.
pub proof fn lemma_escape_found(b: Seq<u8>, from: int, j: int)
    requires
        0 <= from <= j <= b.len(),
        j < b.len() ==> b[j] == 0x1b,
        forall|k: int| from <= k < j ==> #[trigger] b[k] != 0x1b,
    ensures
        escape_at(b, from) == j,
    decreases j - from,
{
    if from < j {
        lemma_escape_found(b, from + 1, j);
    }
}

/// A scan uses up no more than there is, and something unless it waits.
proof fn lemma_scan(b: Seq<u8>)
    requires
        b.len() > 0,
    ensures
        0 <= scan(b).used <= b.len(),
        !scan(b).wait ==> scan(b).used > 0,
{
    if b[0] == 0x1b {
        if b.len() > 1 && b[1] == 0x5b {
            lemma_final_at(b, 2);
        }
    } else {
        lemma_escape_at(b, 0);
        lemma_escape_at(b, 1);
        utf8::lemma_valid_prefix(b.take(escape_at(b, 0)));
    }
}

/// What the beginning of `b` at `at` yields, found in the bytes from there on.
struct Found {
    token: Option<String>,
    used: usize,
    wait: bool,
}

/// Scans the beginning of a buffer.
fn scan_front(b: &[u8]) -> (r: Found)
    requires
        b@.len() > 0,
    ensures
        text::opt_view(r.token) == scan(b@).token,
        r.used == scan(b@).used,
        r.wait == scan(b@).wait,
{
    let n: usize = b.len();
    if b[0] == 0x1b {
        if n == 1 {
            // A lone escape waits for what follows it.
            return Found { token: None, used: 0, wait: true };
        }
        if b[1] == 0x5b {
            let mut j: usize = 2;
            while j < n && !(0x40 <= b[j] && b[j] <= 0x7e)
                invariant
                    2 <= j <= n,
                    n == b@.len(),
                    forall|k: int| 2 <= k < j ==> !is_final_byte(#[trigger] b@[k]),
                decreases n - j,
            {
                j += 1;
            }
            proof {
                lemma_final_found(b@, 2, j as int);
            }
            if j < n {
                let piece: &[u8] = slice_subrange(b, 0, j + 1);
                assert(piece@ =~= b@.take(j + 1));
                return Found { token: Some(utf8::decode_lossy(piece)), used: j + 1, wait: false };
            }
            return Found { token: None, used: 0, wait: true };
        }
        let piece: &[u8] = slice_subrange(b, 0, 2);
        assert(piece@ =~= b@.take(2));
        return Found { token: Some(utf8::decode_lossy(piece)), used: 2, wait: false };
    }
    let mut j: usize = 0;
    while j < n && b[j] != 0x1b
        invariant
            j <= n,
            n == b@.len(),
            forall|k: int| 0 <= k < j ==> #[trigger] b@[k] != 0x1b,
        decreases n - j,
    {
        j += 1;
    }
    proof {
        lemma_escape_found(b@, 0, j as int);
        if j == 0 {
            assert(b@[0] == 0x1b);
        }
    }
    let run: &[u8] = slice_subrange(b, 0, j);
    assert(run@ =~= b@.take(j as int));
    match utf8::decode_strict(run) {
        Ok(s) => {
            proof {
                assert(run@.take(j as int) =~= run@);
            }
            Found { token: Some(s), used: j, wait: false }
        },
        Err(valid) => {
            proof {
                utf8::lemma_valid_prefix_unique(run@, valid as int);
                assert(run@.take(j as int) =~= run@);
            }
            let token: Option<String> = if valid > 0 {
                let good: &[u8] = slice_subrange(run, 0, valid);
                assert(good@ =~= run@.take(valid as int));
                Some(utf8::decode_lossy(good))
            } else {
                None
            };
            let bad: &[u8] = slice_subrange(run, valid, j);
            assert(bad@ =~= run@.skip(valid as int));
            if j == n && utf8::cut(bad) {
                // The tail is a character cut in two: keep it.
                Found { token, used: valid, wait: true }
            } else {
                Found { token, used: valid + 1, wait: false }
            }
        },
    }
}

/// Drains all complete tokens from `buf`, leaving only a trailing incomplete
/// escape sequence or partial character in place for the next read.
pub fn drain_tokens(buf: &mut Vec<u8>) -> (r: Vec<String>)
    ensures
        text::views(r@) == tokens(old(buf)@),
        0 <= consumed(old(buf)@) <= old(buf)@.len(),
        final(buf)@ == old(buf)@.skip(consumed(old(buf)@)),
        incomplete(final(buf)@),
{
    let ghost all = buf@;
    let mut out: Vec<String> = Vec::new();
    let n: usize = buf.len();
    let mut i: usize = 0;
    let mut waiting: bool = false;
    assert(all.skip(0) =~= all);
    assert(text::views(out@) + tokens(all) =~= tokens(all));
    while i < n && !waiting
        invariant
            buf@ == all,
            n == all.len(),
            i <= n,
            !waiting ==> text::views(out@) + tokens(all.skip(i as int)) == tokens(all),
            !waiting ==> i + consumed(all.skip(i as int)) == consumed(all),
            waiting ==> text::views(out@) == tokens(all),
            waiting ==> i == consumed(all),
        decreases n - i, (if waiting { 0int } else { 1int }),
    {
        let rest: &[u8] = slice_subrange(buf.as_slice(), i, n);
        assert(rest@ =~= all.skip(i as int));
        proof {
            lemma_scan(rest@);
        }
        let found: Found = scan_front(rest);
        let ghost before = text::views(out@);
        if let Some(t) = found.token {
            out.push(t);
            assert(text::views(out@) =~= before + as_row(scan(rest@).token));
        } else {
            assert(text::views(out@) =~= before + as_row(scan(rest@).token));
        }
        proof {
            assert(rest@.skip(scan(rest@).used) =~= all.skip(i + scan(rest@).used));
            if !scan(rest@).wait {
                assert(before + tokens(rest@) =~= text::views(out@) + tokens(
                    all.skip(i + scan(rest@).used),
                ));
            }
        }
        i += found.used;
        waiting = found.wait;
    }
    assert(all.skip(n as int).len() == 0);
    assert(i == n && !waiting ==> text::views(out@) =~= tokens(all));
    let tail: Vec<u8> = buf.split_off(i);
    *buf = tail;
    assert(buf@ =~= all.skip(i as int));
    proof {
        law_kept_tail(all);
    }
    out
}

/// The characters of a row of tokens, one after the other.
pub open spec fn all_text(rows: Seq<Seq<char>>) -> Seq<char>
    decreases rows.len(),
{
    if rows.len() == 0 {
        Seq::empty()
    } else {
        rows[0] + all_text(rows.skip(1))
    }
}

/// The characters of a token put before others come before theirs.
proof fn lemma_text_of_row(t: Option<Seq<char>>, rows: Seq<Seq<char>>)
    ensures
        all_text(as_row(t) + rows) == (match t {
            Some(s) => s + all_text(rows),
            None => all_text(rows),
        }),
        all_text(as_row(t)) == (match t {
            Some(s) => s,
            None => Seq::empty(),
        }),
{
    match t {
        Some(s) => {
            assert((as_row(t) + rows).skip(1) =~= rows);
            assert(as_row(t).skip(1) =~= Seq::<Seq<char>>::empty());
            reveal_with_fuel(all_text, 2);
            assert(all_text(as_row(t)) =~= s);
        },
        None => {
            assert(as_row(t) + rows =~= rows);
        },
    }
}

/// UTF-8 at the beginning of a text run can be taken off: what is left yields
/// the rest of the characters.
proof fn lemma_take_text(c: Seq<u8>, v: int)
    requires
        0 <= v <= escape_at(c, 0),
        v <= c.len(),
        valid_utf8(c.take(v)),
    ensures
        all_text(tokens(c)) == decode_utf8(c.take(v)) + all_text(tokens(c.skip(v))),
        consumed(c) == v + consumed(c.skip(v)),
{
    if v == 0 {
        assert(c.skip(0) =~= c);
        assert(decode_utf8(c.take(0)) =~= Seq::<char>::empty());
        assert(all_text(tokens(c)) =~= decode_utf8(c.take(v)) + all_text(tokens(c.skip(v))));
    } else {
        lemma_escape_at(c, 0);
        let j = escape_at(c, 0);
        let run = c.take(j);
        let d = c.skip(v);
        let head = c.take(v);
        let run_d = run.skip(v);
        assert(head + run_d =~= run);
        utf8::lemma_valid_prefix_concat(head, run_d);
        let w = utf8::valid_prefix(run_d) as int;
        utf8::lemma_valid_prefix(run_d);
        utf8::lemma_valid_concat(head, run_d.take(w));
        assert(run.take(v + w) =~= head + run_d.take(w));
        lemma_scan(c);
        let sc = scan(c);
        assert(sc.token == Some(decode_utf8(head) + decode_utf8(run_d.take(w))));
        if j == v {
            assert(run_d.take(w) =~= Seq::<u8>::empty());
            assert(sc.token->0 =~= decode_utf8(head));
            lemma_text_of_row(sc.token, tokens(c.skip(j)));
        } else {
            assert forall|k: int| 0 <= k < j - v implies #[trigger] d[k] != 0x1b by {
                assert(c[k + v] != 0x1b);
            }
            lemma_escape_found(d, 0, j - v);
            assert(d[0] != 0x1b);
            assert(d.take(j - v) =~= run_d);
            assert(run.skip(v + w) =~= run_d.skip(w));
            lemma_scan(d);
            let sd = scan(d);
            assert(sc.used == v + sd.used);
            assert(sc.wait == sd.wait);
            assert(c.skip(sc.used) =~= d.skip(sd.used));
            assert(w == 0 ==> run_d.take(w) =~= Seq::<u8>::empty());
            assert(w == 0 ==> decode_utf8(run_d.take(w)) =~= Seq::<char>::empty());
            let text_d = match sd.token {
                Some(s) => s,
                None => Seq::<char>::empty(),
            };
            assert(text_d =~= decode_utf8(run_d.take(w)));
            if sc.wait {
                lemma_text_of_row(sc.token, Seq::empty());
                lemma_text_of_row(sd.token, Seq::empty());
            } else {
                lemma_text_of_row(sc.token, tokens(c.skip(sc.used)));
                lemma_text_of_row(sd.token, tokens(d.skip(sd.used)));
            }
            assert(all_text(tokens(c)) =~= decode_utf8(head) + all_text(tokens(d)));
        }
    }
}

/// `a` is text up to its end, whole or with its last character cut in two.
pub open spec fn open_text(a: Seq<u8>) -> bool {
    a.len() > 0 && a[0] != 0x1b && escape_at(a, 0) >= a.len() && (scan(a).wait
        || utf8::valid_prefix(a) == a.len())
}

/// What a scan of `a` finds complete, a scan of `a` with more behind it finds
/// too, unless it is text that goes on behind `a`.
proof fn lemma_scan_more(a: Seq<u8>, b: Seq<u8>)
    requires
        a.len() > 0,
        !scan(a).wait,
        !open_text(a),
    ensures
        scan(a + b) == scan(a),
{
    let c = a + b;
    if a[0] == 0x1b {
        if a[1] == 0x5b {
            lemma_final_at(a, 2);
            let j = final_at(a, 2);
            assert(is_final_byte(c[j]));
            assert forall|k: int| 2 <= k < j implies !is_final_byte(#[trigger] c[k]) by {
                assert(!is_final_byte(a[k]));
            }
            lemma_final_found(c, 2, j);
            assert(c.take(j + 1) =~= a.take(j + 1));
        } else {
            assert(c.take(2) =~= a.take(2));
        }
    } else if escape_at(a, 0) < a.len() {
        lemma_escape_at(a, 0);
        let j = escape_at(a, 0);
        assert forall|k: int| 0 <= k < j implies #[trigger] c[k] != 0x1b by {
            assert(a[k] != 0x1b);
        }
        assert(c[j] == 0x1b);
        lemma_escape_found(c, 0, j);
        assert(c.take(j) =~= a.take(j));
    } else {
        // The byte that belongs to no character does so with more behind it.
        lemma_escape_at(a, 0);
        lemma_escape_at(c, 0);
        let n = a.len() as int;
        assert(a.take(n) =~= a);
        let j = escape_at(c, 0);
        assert(j >= n) by {
            if j < n {
                assert(a[j] == c[j]);
                assert(a[j] != 0x1b);
            }
        }
        let run = c.take(j);
        utf8::lemma_valid_prefix(a);
        let v = utf8::valid_prefix(a) as int;
        let head = a.take(v);
        let bad = a.skip(v);
        let more = run.skip(n);
        assert(head + bad =~= a);
        utf8::lemma_valid_prefix_concat(head, bad);
        utf8::lemma_stays_invalid(bad, more);
        assert(head + (bad + more) =~= run);
        utf8::lemma_valid_prefix_concat(head, bad + more);
        assert(run.skip(v) =~= bad + more);
        assert(run.take(v) =~= a.take(v));
    }
}

/// However the input is cut into reads, the same characters come out in the
/// same order, and the same bytes are left over: an escape sequence or a
/// character that falls on the cut waits for its rest.
pub proof fn law_split_reads(a: Seq<u8>, b: Seq<u8>)
    ensures
        0 <= consumed(a) <= a.len(),
        all_text(tokens(a + b)) == all_text(tokens(a)) + all_text(
            tokens(a.skip(consumed(a)) + b),
        ),
        (a + b).skip(consumed(a + b)) == (a.skip(consumed(a)) + b).skip(
            consumed(a.skip(consumed(a)) + b),
        ),
{
    lemma_split_reads(a, b);
    let rest = a.skip(consumed(a));
    lemma_consumed(a + b);
    lemma_consumed(rest + b);
    assert((a + b).skip(consumed(a + b)) =~= (rest + b).skip(consumed(rest + b)));
}

/// The complete tokens take up no more than there is.
proof fn lemma_consumed(b: Seq<u8>)
    ensures
        0 <= consumed(b) <= b.len(),
    decreases b.len(),
{
    if b.len() > 0 {
        lemma_scan(b);
        let s = scan(b);
        if !s.wait {
            lemma_consumed(b.skip(s.used));
        }
    }
}

/// The law of split reads, with the byte counts.
proof fn lemma_split_reads(a: Seq<u8>, b: Seq<u8>)
    ensures
        0 <= consumed(a) <= a.len(),
        all_text(tokens(a + b)) == all_text(tokens(a)) + all_text(
            tokens(a.skip(consumed(a)) + b),
        ),
        consumed(a + b) == consumed(a) + consumed(a.skip(consumed(a)) + b),
    decreases a.len(),
{
    lemma_consumed(a);
    let c = a + b;
    let rest = a.skip(consumed(a));
    if a.len() == 0 {
        assert(rest + b =~= c);
        assert(all_text(tokens(c)) =~= all_text(tokens(a)) + all_text(tokens(rest + b)));
    } else {
        lemma_scan(a);
        let s = scan(a);
        if open_text(a) {
            // The text goes on behind `a`.
            lemma_escape_at(a, 0);
            lemma_escape_at(c, 0);
            let j = a.len() as int;
            assert(a.take(j) =~= a);
            assert(escape_at(c, 0) >= j) by {
                if escape_at(c, 0) < j {
                    assert(a[escape_at(c, 0)] == c[escape_at(c, 0)]);
                    assert(a[escape_at(c, 0)] != 0x1b);
                }
            }
            utf8::lemma_valid_prefix(a);
            let v = utf8::valid_prefix(a) as int;
            assert(c.take(v) =~= a.take(v));
            lemma_take_text(c, v);
            assert(c.skip(v) =~= a.skip(v) + b);
            assert(v == 0 ==> decode_utf8(a.take(v)) =~= Seq::<char>::empty());
            if s.wait {
                lemma_text_of_row(s.token, Seq::empty());
            } else {
                assert(a.skip(v).len() == 0);
                assert(tokens(a.skip(v)) =~= Seq::<Seq<char>>::empty());
                lemma_text_of_row(s.token, tokens(a.skip(v)));
            }
            assert(all_text(tokens(a)) =~= decode_utf8(a.take(v)));
        } else if s.wait {
            assert(rest =~= a);
            assert(tokens(a) =~= Seq::<Seq<char>>::empty());
            assert(all_text(tokens(c)) =~= all_text(tokens(a)) + all_text(tokens(rest + b)));
        } else {
            lemma_scan_more(a, b);
            let d = a.skip(s.used);
            lemma_split_reads(d, b);
            assert(c.skip(s.used) =~= d + b);
            assert(d.skip(consumed(d)) =~= rest);
            lemma_text_of_row(s.token, tokens(d));
            lemma_text_of_row(s.token, tokens(d + b));
            assert(all_text(tokens(c)) =~= all_text(tokens(a)) + all_text(tokens(rest + b)));
        }
    }
}

/// A cut behind `a` falls into text that `a` yields: the text comes in two tokens
/// then.
pub open spec fn text_at_end(a: Seq<u8>) -> bool
    decreases a.len(),
{
    if a.len() == 0 {
        false
    } else {
        let s = scan(a);
        ||| open_text(a) && utf8::valid_prefix(a) > 0
        ||| !s.wait && 0 < s.used <= a.len() && text_at_end(a.skip(s.used))
    }
}

/// A cut that does not fall into text changes no token: the same tokens come out
/// in the same order.
pub proof fn law_split_tokens(a: Seq<u8>, b: Seq<u8>)
    requires
        !text_at_end(a),
    ensures
        0 <= consumed(a) <= a.len(),
        tokens(a + b) == tokens(a) + tokens(a.skip(consumed(a)) + b),
    decreases a.len(),
{
    lemma_consumed(a);
    let c = a + b;
    let rest = a.skip(consumed(a));
    if a.len() == 0 {
        assert(rest + b =~= c);
        assert(tokens(c) =~= tokens(a) + tokens(rest + b));
    } else {
        lemma_scan(a);
        let s = scan(a);
        if s.wait {
            if a[0] != 0x1b {
                lemma_escape_at(a, 0);
                assert(a.take(a.len() as int) =~= a);
            }
            assert(rest =~= a);
            assert(tokens(c) =~= tokens(a) + tokens(rest + b));
        } else {
            if open_text(a) {
                lemma_escape_at(a, 0);
                assert(a.take(a.len() as int) =~= a);
            }
            lemma_scan_more(a, b);
            let d = a.skip(s.used);
            law_split_tokens(d, b);
            assert(c.skip(s.used) =~= d + b);
            assert(d.skip(consumed(d)) =~= rest);
            assert(tokens(c) =~= tokens(a) + tokens(rest + b));
        }
    }
}

/// `b` is a row of escapes; the last one may be incomplete.
pub open spec fn all_escapes(b: Seq<u8>) -> bool
    decreases b.len(),
{
    if b.len() == 0 {
        true
    } else {
        let s = scan(b);
        b[0] == 0x1b && (s.wait || (0 < s.used <= b.len() && all_escapes(b.skip(s.used))))
    }
}

/// The beginning of a row of escapes does not end in text.
proof fn lemma_escapes_no_text(a: Seq<u8>, b: Seq<u8>)
    requires
        all_escapes(a + b),
    ensures
        !text_at_end(a),
    decreases a.len(),
{
    if a.len() > 0 {
        assert((a + b)[0] == a[0]);
        lemma_scan(a);
        let s = scan(a);
        if !s.wait {
            lemma_scan_more(a, b);
            assert((a + b).skip(s.used) =~= a.skip(s.used) + b);
            lemma_escapes_no_text(a.skip(s.used), b);
        }
    }
}

/// However a row of escapes is cut into reads, the same tokens come out: no
/// report of a key or of the mouse is lost, split or made up.
pub proof fn law_split_escapes(a: Seq<u8>, b: Seq<u8>)
    requires
        all_escapes(a + b),
    ensures
        0 <= consumed(a) <= a.len(),
        tokens(a + b) == tokens(a) + tokens(a.skip(consumed(a)) + b),
{
    lemma_escapes_no_text(a, b);
    law_split_tokens(a, b);
}

/// A byte that can begin no character is skipped, and costs nothing of what
/// follows it.
pub proof fn law_stray_byte_skipped(x: u8, rest: Seq<u8>)
    requires
        x >= 0x80,
        !utf8::is_cut(seq![x]),
    ensures
        tokens(seq![x] + rest) == tokens(rest),
        consumed(seq![x] + rest) == 1 + consumed(rest),
{
    let one = seq![x];
    let c = one + rest;
    lemma_escape_at(c, 0);
    lemma_escape_at(c, 1);
    let run = c.take(escape_at(c, 0));
    utf8::lemma_valid_start(one);
    utf8::lemma_stays_invalid(one, run.skip(1));
    assert(one + run.skip(1) =~= run);
    assert(run.skip(0) =~= run);
    assert(c.skip(1) =~= rest);
    assert(tokens(c) =~= tokens(rest));
}

/// What is left over is incomplete: drained again, it yields nothing and stays.
pub proof fn law_kept_tail(b: Seq<u8>)
    ensures
        0 <= consumed(b) <= b.len(),
        incomplete(b.skip(consumed(b))),
        tokens(b.skip(consumed(b))) == Seq::<Seq<char>>::empty(),
        consumed(b.skip(consumed(b))) == 0,
    decreases b.len(),
{
    lemma_consumed(b);
    let rest = b.skip(consumed(b));
    if b.len() == 0 {
    } else {
        lemma_scan(b);
        let s = scan(b);
        if !s.wait {
            law_kept_tail(b.skip(s.used));
            assert(b.skip(s.used).skip(consumed(b.skip(s.used))) =~= rest);
        } else if b[0] == 0x1b {
            assert(rest =~= b);
            if b.len() == 1 {
                assert(b =~= seq![0x1bu8]);
            } else {
                lemma_final_at(b, 2);
            }
        } else {
            lemma_escape_at(b, 0);
            let j = b.len() as int;
            assert(b.take(j) =~= b);
            utf8::lemma_valid_prefix(b);
            let v = utf8::valid_prefix(b) as int;
            assert(b.take(v) + rest =~= b);
            utf8::lemma_valid_prefix_concat(b.take(v), rest);
            assert forall|k: int| 0 <= k < rest.len() implies #[trigger] rest[k] != 0x1b by {
                assert(b[k + v] != 0x1b);
            }
            lemma_escape_found(rest, 0, rest.len() as int);
            assert(rest.take(rest.len() as int) =~= rest);
            assert(rest.skip(0) =~= rest);
            assert(tokens(rest) =~= Seq::<Seq<char>>::empty());
        }
    }
}

/// Where the router stands in the terminal's reply to a transmitted frame:
/// `ESC _`, text that begins with `G`, `ESC \`.
#[derive(Debug, Clone, Copy, PartialEq, Eq, Structural)]
pub enum ReplyState {
    /// Not in a reply.
    Outside,
    /// `ESC _` has been read.
    Opened,
    /// The text of a graphics reply has begun.
    Inside,
}

/// Tells the terminal's graphics replies from what the user types.
#[derive(Debug, Clone, Copy, PartialEq, Eq, Structural)]
pub struct Router {
    pub state: ReplyState,
}

/// The next state and what a token means in a state. A graphics reply is
/// swallowed up to its end, which is the acknowledgement; a token that cannot
/// belong to a reply ends it and means what it means anywhere.
pub open spec fn routed(state: ReplyState, token: Seq<char>) -> (ReplyState, Option<Input>) {
    if token == seq!['\x1b', '_'] {
        (ReplyState::Opened, None)
    } else if state == ReplyState::Opened && token.len() > 0 && token[0] == 'G' {
        (ReplyState::Inside, None)
    } else if state == ReplyState::Inside && token == seq!['\x1b', '\\'] {
        (ReplyState::Outside, Some(Input::GfxAck))
    } else if state == ReplyState::Inside && (token.len() == 0 || token[0] != '\x1b') {
        (ReplyState::Inside, None)
    } else {
        (ReplyState::Outside, meaning(token))
    }
}

impl Router {
    /// A router that is not in a reply.
    pub fn new() -> (r: Self)
        ensures
            r.state == ReplyState::Outside,
    {
        Router { state: ReplyState::Outside }
    }

    /// Takes the next token.
    pub fn route(&mut self, token: &str) -> (r: Option<RawInput>)
        ensures
            (final(self).state, input_view(r)) == routed(old(self).state, token@),
    {
        let s: Vec<char> = text::chars_of(token);
        let n: usize = s.len();
        let escape: bool = n > 0 && s[0] == '\x1b';
        if escape && n == 2 && s[1] == '_' {
            assert(token@ =~= seq!['\x1b', '_']);
            self.state = ReplyState::Opened;
            return None;
        }
        proof {
            if token@ == seq!['\x1b', '_'] {
                assert(s@[0] == '\x1b' && s@[1] == '_');
            }
        }
        match self.state {
            ReplyState::Opened => {
                if n > 0 && s[0] == 'G' {
                    self.state = ReplyState::Inside;
                    return None;
                }
            },
            ReplyState::Inside => {
                if escape && n == 2 && s[1] == '\\' {
                    assert(token@ =~= seq!['\x1b', '\\']);
                    self.state = ReplyState::Outside;
                    return Some(RawInput::GfxAck);
                }
                proof {
                    if token@ == seq!['\x1b', '\\'] {
                        assert(s@[0] == '\x1b' && s@[1] == '\\');
                    }
                }
                if !escape {
                    return None;
                }
            },
            ReplyState::Outside => {},
        }
        self.state = ReplyState::Outside;
        classify(token)
    }
}

/// A whole graphics reply, its text in one piece, is one acknowledgement and
/// nothing else; the router is then outside again.
pub proof fn law_reply_is_one_ack(state: ReplyState, body: Seq<char>)
    requires
        body.len() > 0,
        body[0] == 'G',
    ensures
        ({
            let a = routed(state, seq!['\x1b', '_']);
            let b = routed(a.0, body);
            let c = routed(b.0, seq!['\x1b', '\\']);
            a.1 is None && b.1 is None && c == (ReplyState::Outside, Some(Input::GfxAck))
        }),
{
    let open = seq!['\x1b', '_'];
    let close = seq!['\x1b', '\\'];
    assert(open[1] != close[1]);
    assert(body[0] != open[0]);
}

/// Outside a reply every token but the opening of one means what it means by
/// itself.
pub proof fn law_outside_is_plain(token: Seq<char>)
    requires
        token != seq!['\x1b', '_'],
    ensures
        routed(ReplyState::Outside, token) == (ReplyState::Outside, meaning(token)),
{
}

} // verus!
