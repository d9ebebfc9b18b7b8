//! Keys as the Kitty keyboard protocol reports them.

use crate::text;
use vstd::prelude::*;
use vstd::slice::slice_subrange;

verus! {

/// A key.
#[derive(Debug, Clone, Copy, PartialEq, Eq, Structural)]
pub enum Key {
    Char(char),
    Enter,
    Backspace,
    Tab,
    Esc,
    Up,
    Down,
    Left,
    Right,
    Home,
    End,
    PageUp,
    PageDown,
    Delete,
    F(u8),
}

/// The modifiers held with a key.
#[derive(Debug, Clone, Copy, PartialEq, Eq, Structural)]
pub struct Mods {
    pub shift: bool,
    pub ctrl: bool,
    pub alt: bool,
    pub meta: bool,
}

/// The modifiers that the protocol's number `m` stands for: one more than the
/// bits shift, alt, ctrl, meta from the lowest up.
pub open spec fn mods_of(m: u32) -> Mods {
    let bits: u32 = if m >= 1 {
        (m - 1) as u32
    } else {
        0
    };
    Mods {
        shift: bits & 0b0001 != 0,
        alt: bits & 0b0010 != 0,
        ctrl: bits & 0b0100 != 0,
        meta: bits & 0b1000 != 0,
    }
}

/// No modifier.
pub open spec fn no_mods() -> Mods {
    Mods { shift: false, ctrl: false, alt: false, meta: false }
}

impl Default for Mods {
    fn default() -> (r: Self)
        ensures
            r == no_mods(),
    {
        Mods { shift: false, ctrl: false, alt: false, meta: false }
    }
}

impl Mods {
    /// No modifier.
    pub fn none() -> (r: Self)
        ensures
            r == no_mods(),
    {
        Mods { shift: false, ctrl: false, alt: false, meta: false }
    }

    /// Decodes the protocol's modifier number.
    pub fn from_encoded(m: u32) -> (r: Self)
        ensures
            r == mods_of(m),
    {
        let bits: u32 = m.saturating_sub(1);
        Mods {
            shift: bits & 0b0001 != 0,
            alt: bits & 0b0010 != 0,
            ctrl: bits & 0b0100 != 0,
            meta: bits & 0b1000 != 0,
        }
    }
}

/// The number by which the protocol reports a set of modifiers.
pub open spec fn encoded_mods(m: Mods) -> u32 {
    (1 + (if m.shift {
        1int
    } else {
        0
    }) + (if m.alt {
        2int
    } else {
        0
    }) + (if m.ctrl {
        4int
    } else {
        0
    }) + (if m.meta {
        8int
    } else {
        0
    })) as u32
}

/// Every set of modifiers is read back from the number that reports it.
pub proof fn law_mods_roundtrip(m: Mods)
    ensures
        mods_of(encoded_mods(m)) == m,
{
    let bits = (encoded_mods(m) - 1) as u32;
    assert forall|b: u32| b < 16 implies (b & 1u32 != 0) == (b % 2 == 1) && (b & 2u32 != 0) == (b
        / 2 % 2 == 1) && (b & 4u32 != 0) == (b / 4 % 2 == 1) && (#[trigger] (b & 8u32) != 0) == (b / 8
        % 2 == 1) by {
        assert((b & 1u32 != 0) == (b % 2 == 1) && (b & 2u32 != 0) == (b / 2 % 2 == 1) && (b & 4u32
            != 0) == (b / 4 % 2 == 1) && (b & 8u32 != 0) == (b / 8 % 2 == 1)) by (bit_vector)
            requires
                b < 16,
        ;
    }
    assert(bits & 8u32 == bits & 8u32);
}

/// A key press: the key, the modifiers held and the text it types, if any.
#[derive(Debug, Clone, PartialEq, Eq)]
pub struct KeyEvent {
    pub key: Key,
    pub mods: Mods,
    pub text: Option<String>,
}

/// What a key press holds.
pub struct KeyPress {
    pub key: Key,
    pub mods: Mods,
    pub text: Option<Seq<char>>,
}

impl View for KeyEvent {
    type V = KeyPress;

    open spec fn view(&self) -> KeyPress {
        KeyPress { key: self.key, mods: self.mods, text: text::opt_view(self.text) }
    }
}

/// The character whose scalar value `s` spells in decimal.
pub open spec fn codepoint(s: Seq<char>) -> Option<char> {
    match text::parsed_unsigned(s, u32::MAX as nat) {
        Some(n) => text::char_of(n as u32),
        None => None,
    }
}

/// The characters that the pieces spell; a piece that spells none adds none.
pub open spec fn codepoints(pieces: Seq<Seq<char>>) -> Seq<char>
    decreases pieces.len(),
{
    if pieces.len() == 0 {
        Seq::empty()
    } else {
        match codepoint(pieces.last()) {
            Some(c) => codepoints(pieces.drop_last()).push(c),
            None => codepoints(pieces.drop_last()),
        }
    }
}

/// The text field of a key report: none, where it spells no character.
pub open spec fn text_field(field: Seq<char>) -> Option<Seq<char>> {
    let s = codepoints(text::fields(field, ':'));
    if s.len() == 0 {
        None
    } else {
        Some(s)
    }
}

/// The modifiers field of a key report, the event type behind a colon left out.
pub open spec fn mods_field(field: Seq<char>) -> Option<Mods> {
    match text::parsed_unsigned(text::fields(field, ':')[0], u32::MAX as nat) {
        Some(m) => Some(mods_of(m as u32)),
        None => None,
    }
}

/// The key with the protocol's code `code`.
pub open spec fn key_of_code(code: u32) -> Option<Key> {
    if code == 13 {
        Some(Key::Enter)
    } else if code == 9 {
        Some(Key::Tab)
    } else if code == 127 {
        Some(Key::Backspace)
    } else if code == 27 {
        Some(Key::Esc)
    } else {
        match text::char_of(code) {
            Some(c) => Some(Key::Char(c)),
            None => None,
        }
    }
}

/// `seq` is `ESC [`, something, and the character `end`.
pub open spec fn is_csi(seq: Seq<char>, end: char) -> bool {
    &&& seq.len() >= 3
    &&& seq[0] == '\x1b'
    &&& seq[1] == '['
    &&& seq.last() == end
}

/// The key press that `ESC [ code [; mods [: type]] [; text] u` reports, if
/// `seq` is of that form and its numbers can be read.
pub open spec fn kitty_key(seq: Seq<char>) -> Option<KeyPress> {
    if !is_csi(seq, 'u') {
        None
    } else {
        let f = text::fields(seq.subrange(2, seq.len() - 1), ';');
        let mods = if f.len() > 1 {
            mods_field(f[1])
        } else {
            Some(no_mods())
        };
        let typed = if f.len() > 2 {
            text_field(f[2])
        } else {
            None
        };
        match (text::parsed_unsigned(f[0], u32::MAX as nat), mods) {
            (Some(code), Some(mods)) => match key_of_code(code as u32) {
                Some(key) => Some(KeyPress { key, mods, text: typed }),
                None => None,
            },
            _ => None,
        }
    }
}

/// What stands between `ESC [` and the final `end`, if `s` is of that form.
pub fn csi_body(s: &[char], end: char) -> (r: Option<&[char]>)
    ensures
        match r {
            Some(b) => is_csi(s@, end) && b@ == s@.subrange(2, s@.len() - 1),
            None => !is_csi(s@, end),
        },
{
    let n: usize = s.len();
    if n >= 3 && s[0] == '\x1b' && s[1] == '[' && s[n - 1] == end {
        Some(slice_subrange(s, 2, n - 1))
    } else {
        None
    }
}

/// Reads a text field.
fn read_text(field: &[char]) -> (r: Option<String>)
    ensures
        text::opt_view(r) == text_field(field@),
{
    let pieces: Vec<&[char]> = text::split(field, ':');
    let ghost want = text::contents(pieces@);
    let mut out: String = String::new();
    let mut i: usize = 0;
    assert(want.take(0) =~= Seq::<Seq<char>>::empty());
    while i < pieces.len()
        invariant
            i <= pieces@.len(),
            want == text::contents(pieces@),
            out@ == codepoints(want.take(i as int)),
        decreases pieces@.len() - i,
    {
        assert(want.take(i + 1).drop_last() =~= want.take(i as int));
        assert(want[i as int] == pieces@[i as int]@);
        if let Some(n) = text::parse_unsigned(pieces[i], u32::MAX) {
            if let Some(c) = char::from_u32(n) {
                out.push(c);
            }
        }
        i += 1;
    }
    assert(want.take(want.len() as int) =~= want);
    if text::chars_of(out.as_str()).len() == 0 {
        None
    } else {
        Some(out)
    }
}

/// Parses one complete key escape of the form
/// `ESC [ code [; mods [: type]] [; text] u`.
pub fn parse_kitty_key(seq: &str) -> (r: Option<KeyEvent>)
    ensures
        match r {
            Some(ev) => kitty_key(seq@) == Some(ev@),
            None => kitty_key(seq@) is None,
        },
{
    let s: Vec<char> = text::chars_of(seq);
    let body: &[char] = match csi_body(s.as_slice(), 'u') {
        Some(b) => b,
        None => return None,
    };
    let f: Vec<&[char]> = text::split(body, ';');
    let ghost want = text::contents(f@);
    assert(want[0] == f@[0]@);
    let code: u32 = match text::parse_unsigned(f[0], u32::MAX) {
        Some(c) => c,
        None => return None,
    };
    let mods: Mods = if f.len() > 1 {
        assert(want[1] == f@[1]@);
        let parts: Vec<&[char]> = text::split(f[1], ':');
        assert(text::contents(parts@)[0] == parts@[0]@);
        match text::parse_unsigned(parts[0], u32::MAX) {
            Some(m) => Mods::from_encoded(m),
            None => return None,
        }
    } else {
        Mods::none()
    };
    let typed: Option<String> = if f.len() > 2 {
        assert(want[2] == f@[2]@);
        read_text(f[2])
    } else {
        None
    };
    let key: Key = if code == 13 {
        Key::Enter
    } else if code == 9 {
        Key::Tab
    } else if code == 127 {
        Key::Backspace
    } else if code == 27 {
        Key::Esc
    } else {
        match char::from_u32(code) {
            Some(c) => Key::Char(c),
            None => return None,
        }
    };
    Some(KeyEvent { key, mods, text: typed })
}

/// A report of a key code alone is read as that key, without modifiers and
/// without text.
pub proof fn law_bare_code(code: u32)
    ensures
        kitty_key(seq!['\x1b', '['] + text::dec(code as nat) + seq!['u']) == (match key_of_code(
            code,
        ) {
            Some(key) => Some(KeyPress { key, mods: no_mods(), text: None }),
            None => None,
        }),
{
    let d = text::dec(code as nat);
    let seq = seq!['\x1b', '['] + d + seq!['u'];
    text::law_dec_value(code as nat);
    assert(seq.subrange(2, seq.len() - 1) =~= d);
    text::lemma_fields_single(d, ';');
    assert(text::is_digit(d[0]));
}

/// A report of a key code with modifiers is read back as that key with those
/// modifiers.
pub proof fn law_report_roundtrip(code: u32, mods: Mods)
    ensures
        kitty_key(
            seq!['\x1b', '['] + text::dec(code as nat).push(';') + text::dec(
                encoded_mods(mods) as nat,
            ) + seq!['u'],
        ) == (match key_of_code(code) {
            Some(key) => Some(KeyPress { key, mods, text: None }),
            None => None,
        }),
{
    let a = text::dec(code as nat);
    let b = text::dec(encoded_mods(mods) as nat);
    let seq = seq!['\x1b', '['] + a.push(';') + b + seq!['u'];
    text::law_dec_value(code as nat);
    text::law_dec_value(encoded_mods(mods) as nat);
    law_mods_roundtrip(mods);
    assert(seq.subrange(2, seq.len() - 1) =~= a.push(';') + b);
    text::lemma_fields_cons(a, b, ';');
    text::lemma_fields_single(b, ';');
    text::lemma_fields_single(b, ':');
    let f = text::fields(a.push(';') + b, ';');
    assert(f =~= seq![a, b]);
    assert(text::is_digit(a[0]) && text::is_digit(b[0]));
}

} // verus!
