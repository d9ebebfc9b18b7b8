//! What is read from the terminal.

use crate::terminal::capability;
use crate::terminal::input;
use crate::terminal::input::{Input, ReplyState};
use crate::terminal::keyboard;
use crate::terminal::keyboard::{Key, KeyPress, Mods};
use crate::terminal::mouse;
use crate::terminal::mouse::{MouseButton, MouseEvent, MouseKind};
use crate::text;
use crate::utf8;
use vstd::prelude::*;
use vstd::utf8::*;

verus! {

/// The mouse report with the code `cb` for the cell in column `col` of row
/// `row`, both counted from zero.
pub open spec fn mouse_report(cb: u32, col: u16, row: u16, release: bool) -> Seq<char> {
    seq!['\x1b', '[', '<'] + text::dec(cb as nat).push(';') + text::dec((col + 1) as nat).push(';')
        + text::dec((row + 1) as nat).push(if release {
        'm'
    } else {
        'M'
    })
}

/// What a code reports hangs on its bits 64 (wheel), 32 (motion) and the lowest
/// two alone; the bits of the modifiers held do not matter.
proof fn lemma_code_bits(cb: u32)
    ensures
        (cb & 64 != 0) == (cb / 64 % 2 == 1),
        (cb & 32 != 0) == (cb / 32 % 2 == 1),
        cb & 0b11 == cb % 4,
{
    assert((cb & 64 != 0) == (cb / 64 % 2 == 1) && (cb & 32 != 0) == (cb / 32 % 2 == 1) && cb & 0b11
        == cb % 4) by (bit_vector);
}

/// A report of motion without the wheel is a move in its cell, whatever button
/// the low bits name: with a button held, and with none.
pub proof fn law_motion_is_a_move(cb: u32, col: u16, row: u16, release: bool)
    requires
        col < u16::MAX,
        row < u16::MAX,
        cb / 64 % 2 == 0,
        cb / 32 % 2 == 1,
    ensures
        mouse::kind_of(cb, release) == Some(MouseKind::Move),
        mouse::sgr_mouse(mouse_report(cb, col, row, release)) == Some(
            MouseEvent { kind: MouseKind::Move, col, row },
        ),
{
    lemma_code_bits(cb);
    mouse::law_report_roundtrip(cb, col, row, release);
}

/// A report of the wheel is a turn up or down in its cell; the wheel that turns
/// sideways reports nothing, lest the page jitter up and down.
pub proof fn law_wheel_turns(cb: u32, col: u16, row: u16, release: bool)
    requires
        col < u16::MAX,
        row < u16::MAX,
        cb / 64 % 2 == 1,
    ensures
        ({
            let r = mouse::sgr_mouse(mouse_report(cb, col, row, release));
            &&& cb % 4 == 0 ==> r == Some(MouseEvent { kind: MouseKind::WheelUp, col, row })
            &&& cb % 4 == 1 ==> r == Some(MouseEvent { kind: MouseKind::WheelDown, col, row })
            &&& cb % 4 >= 2 ==> r is None
        }),
{
    lemma_code_bits(cb);
    mouse::law_report_roundtrip(cb, col, row, release);
}

/// A report of neither is a button that goes down, or up where the report ends
/// in `m`, and the press and the release of one code name the same button.
pub proof fn law_buttons_go_down_and_up(cb: u32, col: u16, row: u16)
    requires
        col < u16::MAX,
        row < u16::MAX,
        cb / 64 % 2 == 0,
        cb / 32 % 2 == 0,
    ensures
        ({
            let down = mouse::sgr_mouse(mouse_report(cb, col, row, false));
            let up = mouse::sgr_mouse(mouse_report(cb, col, row, true));
            let button = if cb % 4 == 0 {
                MouseButton::Left
            } else if cb % 4 == 1 {
                MouseButton::Middle
            } else {
                MouseButton::Right
            };
            &&& down == Some(MouseEvent { kind: MouseKind::Down(button), col, row })
            &&& up == Some(MouseEvent { kind: MouseKind::Up(button), col, row })
        }),
{
    lemma_code_bits(cb);
    mouse::law_report_roundtrip(cb, col, row, false);
    mouse::law_report_roundtrip(cb, col, row, true);
}

/// Three numbers behind `ESC [ <`, and what ends the report.
pub open spec fn sgr_text(code: Seq<char>, col: Seq<char>, row: Seq<char>, end: char) -> Seq<char> {
    seq!['\x1b', '[', '<'] + code.push(';') + col.push(';') + row.push(end)
}

/// Whatever is read as a mouse event is three numbers behind `ESC [ <`, and the
/// event is in the cell that the last two of them name.
pub proof fn law_only_mouse_reports(s: Seq<char>, ev: MouseEvent)
    requires
        mouse::sgr_mouse(s) == Some(ev),
    ensures
        exists|code: Seq<char>, col: Seq<char>, row: Seq<char>, end: char|
            {
                &&& #[trigger] sgr_text(code, col, row, end) == s
                &&& end == 'M' || end == 'm'
                &&& text::parsed_unsigned(code, u32::MAX as nat) is Some
                &&& text::parsed_unsigned(col, u16::MAX as nat) == Some((ev.col + 1) as nat)
                &&& text::parsed_unsigned(row, u16::MAX as nat) == Some((ev.row + 1) as nat)
            },
{
    let body = s.subrange(3, s.len() - 1);
    text::law_fields_join(body, ';');
    let f = text::fields(body, ';');
    reveal_with_fuel(text::joined, 4);
    let all = sgr_text(f[0], f[1], f[2], s.last());
    assert(f.drop_last().drop_last() =~= seq![f[0]]);
    assert(all.subrange(3, all.len() - 1) =~= f[0].push(';') + f[1].push(';') + f[2]);
    assert(text::joined(f, ';') =~= f[0].push(';') + f[1].push(';') + f[2]);
    assert(s =~= seq!['\x1b', '[', '<'] + body + seq![s.last()]);
    assert(all =~= s);
}

/// Each modifier has its own bit of one less than the number that reports them,
/// from the lowest up shift, alt, ctrl and meta; higher bits do not matter, and
/// zero reports none.
pub proof fn law_modifier_bits(m: u32)
    ensures
        m == 0 ==> keyboard::mods_of(m) == (Mods {
            shift: false,
            ctrl: false,
            alt: false,
            meta: false,
        }),
        m >= 1 ==> {
            let b = m - 1;
            let r = keyboard::mods_of(m);
            &&& r.shift == (b % 2 == 1)
            &&& r.alt == (b / 2 % 2 == 1)
            &&& r.ctrl == (b / 4 % 2 == 1)
            &&& r.meta == (b / 8 % 2 == 1)
        },
{
    let b: u32 = if m >= 1 {
        (m - 1) as u32
    } else {
        0
    };
    assert((b & 0b0001 != 0) == (b % 2 == 1) && (b & 0b0010 != 0) == (b / 2 % 2 == 1) && (b & 0b0100
        != 0) == (b / 4 % 2 == 1) && (b & 0b1000 != 0) == (b / 8 % 2 == 1)) by (bit_vector);
}

/// A character's own code is read as that character, but for the four keys that
/// have a control character's code.
pub proof fn law_code_is_its_character(c: char)
    ensures
        ({
            let r = keyboard::key_of_code(c as u32);
            &&& c == '\r' ==> r == Some(Key::Enter)
            &&& c == '\t' ==> r == Some(Key::Tab)
            &&& c == '\u{7f}' ==> r == Some(Key::Backspace)
            &&& c == '\u{1b}' ==> r == Some(Key::Esc)
            &&& c != '\r' && c != '\t' && c != '\u{7f}' && c != '\u{1b}' ==> r == Some(Key::Char(c))
        }),
{
}

/// A number that is no character's is no key.
pub proof fn law_no_character_no_key(code: u32)
    requires
        0xd800 <= code <= 0xdfff || code > 0x10ffff,
    ensures
        keyboard::key_of_code(code) is None,
{
}

/// The numbers of the characters of a text, with a colon between them.
pub open spec fn numbers(s: Seq<char>) -> Seq<char>
    decreases s.len(),
{
    if s.len() == 0 {
        Seq::empty()
    } else if s.len() == 1 {
        text::dec(s[0] as nat)
    } else {
        text::dec(s[0] as nat).push(':') + numbers(s.skip(1))
    }
}

/// The text of a key is the characters that its pieces spell, in order; a piece
/// that spells none adds none.
pub proof fn law_text_pieces(a: Seq<char>, rest: Seq<Seq<char>>)
    ensures
        keyboard::codepoints(seq![a] + rest) == (match keyboard::codepoint(a) {
            Some(c) => seq![c] + keyboard::codepoints(rest),
            None => keyboard::codepoints(rest),
        }),
    decreases rest.len(),
{
    let all = seq![a] + rest;
    if rest.len() == 0 {
        assert(all.drop_last() =~= Seq::<Seq<char>>::empty());
        assert(keyboard::codepoints(all.drop_last()) =~= Seq::<char>::empty());
        assert(keyboard::codepoints(rest) =~= Seq::<char>::empty());
    } else {
        assert(all.drop_last() =~= seq![a] + rest.drop_last());
        assert(all.last() == rest.last());
        law_text_pieces(a, rest.drop_last());
        if let Some(c) = keyboard::codepoint(a) {
            match keyboard::codepoint(rest.last()) {
                Some(d) => {
                    assert(keyboard::codepoints(all) =~= (seq![c] + keyboard::codepoints(
                        rest.drop_last(),
                    )).push(d));
                    assert((seq![c] + keyboard::codepoints(rest.drop_last())).push(d) =~= seq![c]
                        + keyboard::codepoints(rest.drop_last()).push(d));
                },
                None => {},
            }
        }
    }
}

proof fn lemma_own_number(c: char)
    ensures
        c as nat <= u32::MAX,
        text::char_of((c as nat) as u32) == Some(c),
{
}

proof fn lemma_numbers(s: Seq<char>)
    requires
        s.len() > 0,
    ensures
        keyboard::codepoints(text::fields(numbers(s), ':')) == s,
        !numbers(s).contains(';'),
    decreases s.len(),
{
    let d = text::dec(s[0] as nat);
    text::law_dec_value(s[0] as nat);
    assert(text::is_digit(d[0]));
    lemma_own_number(s[0]);
    assert(keyboard::codepoint(d) == Some(s[0]));
    if s.len() == 1 {
        text::lemma_fields_single(d, ':');
        law_text_pieces(d, Seq::empty());
        assert(seq![d] + Seq::<Seq<char>>::empty() =~= seq![d]);
        assert(keyboard::codepoints(Seq::<Seq<char>>::empty()) =~= Seq::<char>::empty());
        assert(seq![s[0]] + Seq::<char>::empty() =~= s);
    } else {
        let rest = s.skip(1);
        lemma_numbers(rest);
        text::lemma_fields_cons(d, numbers(rest), ':');
        law_text_pieces(d, text::fields(numbers(rest), ':'));
        assert(seq![s[0]] + rest =~= s);
        let all = d.push(':') + numbers(rest);
        assert forall|i: int| 0 <= i < all.len() implies all[i] != ';' by {
            if i > d.len() {
                assert(all[i] == numbers(rest)[i - d.len() - 1]);
            }
        }
    }
}

/// A report of a character key with its modifiers, an event type and the text
/// it types is read as that key with those modifiers and the whole text, whatever
/// the type of the event.
pub proof fn law_key_report_is_read(c: char, m: u32, kind: Seq<char>, typed: Seq<char>)
    requires
        !kind.contains(';'),
        !kind.contains(':'),
        typed.len() > 0,
    ensures
        ({
            let r = keyboard::kitty_key(
                seq!['\x1b', '['] + text::dec(c as nat).push(';') + (text::dec(m as nat).push(':')
                    + kind).push(';') + numbers(typed) + seq!['u'],
            );
            &&& r is Some
            &&& r->0.mods == keyboard::mods_of(m)
            &&& r->0.text == Some(typed)
            &&& keyboard::key_of_code(c as u32) == Some(r->0.key)
        }),
{
    let a = text::dec(c as nat);
    let d = text::dec(m as nat);
    let b = d.push(':') + kind;
    let e = numbers(typed);
    let seq = seq!['\x1b', '['] + a.push(';') + b.push(';') + e + seq!['u'];
    text::law_dec_value(c as nat);
    text::law_dec_value(m as nat);
    lemma_numbers(typed);
    assert(seq.subrange(2, seq.len() - 1) =~= a.push(';') + (b.push(';') + e));
    assert forall|i: int| 0 <= i < b.len() implies b[i] != ';' by {
        if i > d.len() {
            assert(b[i] == kind[i - d.len() - 1]);
        } else if i < d.len() {
            assert(text::is_digit(d[i]));
        }
    }
    text::lemma_fields_cons(a, b.push(';') + e, ';');
    text::lemma_fields_cons(b, e, ';');
    text::lemma_fields_single(e, ';');
    text::lemma_fields_cons(d, kind, ':');
    let f = text::fields(seq.subrange(2, seq.len() - 1), ';');
    assert(f =~= seq![a, b, e]);
    assert(text::is_digit(a[0]) && text::is_digit(d[0]));
}

/// Whatever is read as a key stands between `ESC [` and `u`: a key's number; behind
/// it the modifiers, without which none are held; and behind them the text, which
/// is never empty.
pub proof fn law_only_key_reports(s: Seq<char>, ev: KeyPress)
    requires
        keyboard::kitty_key(s) == Some(ev),
    ensures
        s.len() >= 3,
        s[0] == '\x1b',
        s[1] == '[',
        s.last() == 'u',
        ({
            let f = text::fields(s.subrange(2, s.len() - 1), ';');
            let code = text::parsed_unsigned(f[0], u32::MAX as nat);
            &&& code is Some
            &&& keyboard::key_of_code(code->0 as u32) == Some(ev.key)
            &&& f.len() == 1 ==> ev.mods == (Mods {
                shift: false,
                ctrl: false,
                alt: false,
                meta: false,
            })
            &&& f.len() >= 2 ==> {
                let m = text::parsed_unsigned(text::fields(f[1], ':')[0], u32::MAX as nat);
                m is Some && ev.mods == keyboard::mods_of(m->0 as u32)
            }
            &&& f.len() < 3 ==> ev.text is None
            &&& f.len() >= 3 ==> {
                let typed = keyboard::codepoints(text::fields(f[2], ':'));
                &&& typed.len() > 0 ==> ev.text == Some(typed)
                &&& typed.len() == 0 ==> ev.text is None
            }
        }),
{
}

/// A character that is typed alone comes as itself, but for the control
/// characters of Enter, Backspace and Tab, which come as those keys and type
/// nothing, and for a lone escape, which is nothing yet.
pub proof fn law_typed_character(c: char)
    ensures
        ({
            let r = input::meaning(seq![c]);
            let bare = Mods { shift: false, ctrl: false, alt: false, meta: false };
            if c == '\u{1b}' {
                r is None
            } else if c == '\u{d}' || c == '\u{a}' {
                r == Some(Input::Key(KeyPress { key: Key::Enter, mods: bare, text: None }))
            } else if c == '\u{7f}' || c == '\u{8}' {
                r == Some(Input::Key(KeyPress { key: Key::Backspace, mods: bare, text: None }))
            } else if c == '\u{9}' {
                r == Some(Input::Key(KeyPress { key: Key::Tab, mods: bare, text: None }))
            } else {
                r == Some(
                    Input::Key(KeyPress { key: Key::Char(c), mods: bare, text: Some(seq![c]) }),
                )
            }
        }),
{
}

/// Text of more than one character is typed whole, as one press of its first
/// character without modifiers, even where it begins with a control character.
pub proof fn law_pasted_text(s: Seq<char>)
    requires
        s.len() > 1,
        s[0] != '\u{1b}',
    ensures
        input::meaning(s) == Some(
            Input::Key(
                KeyPress {
                    key: Key::Char(s[0]),
                    mods: Mods { shift: false, ctrl: false, alt: false, meta: false },
                    text: Some(s),
                },
            ),
        ),
{
}

/// An escape means what it reports as a mouse report, where it begins as one,
/// else as a key report; every other escape means nothing.
pub proof fn law_escape_meaning(s: Seq<char>)
    requires
        s.len() > 0,
        s[0] == '\u{1b}',
    ensures
        match input::meaning(s) {
            Some(Input::Mouse(ev)) => mouse::sgr_mouse(s) == Some(ev),
            Some(Input::Key(ev)) => keyboard::kitty_key(s) == Some(ev),
            Some(_) => false,
            None => mouse::sgr_mouse(s) is None && (keyboard::kitty_key(s) is None || s[2] == '<'),
        },
{
}

/// A run of text, up to an escape or to the end of what was read, is one token.
pub proof fn law_text_is_one_token(b: Seq<u8>, rest: Seq<u8>)
    requires
        b.len() > 0,
        valid_utf8(b),
        !b.contains(0x1b),
        rest.len() > 0 ==> rest[0] == 0x1b,
    ensures
        input::tokens(b + rest) == seq![decode_utf8(b)] + input::tokens(rest),
        input::consumed(b + rest) == b.len() + input::consumed(rest),
{
    let c = b + rest;
    assert forall|k: int| 0 <= k < b.len() implies #[trigger] c[k] != 0x1b by {
        assert(b.contains(b[k]));
    }
    input::lemma_escape_found(c, 0, b.len() as int);
    assert(c.take(b.len() as int) =~= b);
    assert(b.take(b.len() as int) =~= b);
    utf8::lemma_valid_prefix_unique(b, b.len() as int);
    assert(c.skip(b.len() as int) =~= rest);
}

/// A control sequence, `ESC [` and what follows up to a byte from `@` to `~`, is
/// one token; nothing behind that byte belongs to it.
pub proof fn law_control_sequence_is_one_token(middle: Seq<u8>, end: u8, rest: Seq<u8>)
    requires
        forall|k: int| 0 <= k < middle.len() ==> !(0x40 <= #[trigger] middle[k] <= 0x7e),
        0x40 <= end <= 0x7e,
        valid_utf8(seq![0x1bu8, 0x5b] + middle + seq![end]),
    ensures
        ({
            let b = seq![0x1bu8, 0x5b] + middle + seq![end];
            &&& input::tokens(b + rest) == seq![decode_utf8(b)] + input::tokens(rest)
            &&& input::consumed(b + rest) == b.len() + input::consumed(rest)
        }),
{
    let b = seq![0x1bu8, 0x5b] + middle + seq![end];
    let c = b + rest;
    let j = b.len() - 1;
    assert forall|k: int| 2 <= k < j implies !input::is_final_byte(#[trigger] c[k]) by {
        assert(c[k] == middle[k - 2]);
    }
    input::lemma_final_found(c, 2, j);
    assert(c.take(j + 1) =~= b);
    assert(c.skip(j + 1) =~= rest);
}

/// An escape and any other byte is one token of the two.
pub proof fn law_short_escape_is_one_token(x: u8, rest: Seq<u8>)
    requires
        x != 0x5b,
        valid_utf8(seq![0x1bu8, x]),
    ensures
        input::tokens(seq![0x1bu8, x] + rest) == seq![decode_utf8(seq![0x1bu8, x])]
            + input::tokens(rest),
        input::consumed(seq![0x1bu8, x] + rest) == 2 + input::consumed(rest),
{
    let b = seq![0x1bu8, x];
    let c = b + rest;
    assert(c.take(2) =~= b);
    assert(c.skip(2) =~= rest);
}

/// A control sequence without its last byte waits whole for the rest of it.
pub proof fn law_cut_escape_waits(middle: Seq<u8>)
    requires
        forall|k: int| 0 <= k < middle.len() ==> !(0x40 <= #[trigger] middle[k] <= 0x7e),
    ensures
        input::tokens(seq![0x1bu8, 0x5b] + middle).len() == 0,
        input::consumed(seq![0x1bu8, 0x5b] + middle) == 0,
        input::tokens(seq![0x1bu8]).len() == 0,
        input::consumed(seq![0x1bu8]) == 0,
{
    let c = seq![0x1bu8, 0x5b] + middle;
    assert forall|k: int| 2 <= k < c.len() implies !input::is_final_byte(#[trigger] c[k]) by {
        assert(c[k] == middle[k - 2]);
    }
    input::lemma_final_found(c, 2, c.len() as int);
}

/// A byte that belongs to no character is skipped, wherever text should go on:
/// what is text before it is kept, and what follows it is read as if it were not
/// there.
pub proof fn law_bad_byte_is_skipped(good: Seq<u8>, bad: Seq<u8>, rest: Seq<u8>)
    requires
        valid_utf8(good),
        !good.contains(0x1b),
        bad.len() > 0,
        !bad.contains(0x1b),
        utf8::valid_prefix(bad) == 0,
        !utf8::is_cut(bad),
        rest.len() > 0 ==> rest[0] == 0x1b,
    ensures
        input::tokens(good + bad + rest) == (if good.len() > 0 {
            seq![decode_utf8(good)]
        } else {
            Seq::empty()
        }) + input::tokens(bad.skip(1) + rest),
        input::consumed(good + bad + rest) == good.len() + 1 + input::consumed(bad.skip(1) + rest),
{
    let c = good + bad + rest;
    let j = (good.len() + bad.len()) as int;
    assert forall|k: int| 0 <= k < j implies #[trigger] c[k] != 0x1b by {
        if k < good.len() {
            assert(good.contains(good[k]));
        } else {
            assert(bad.contains(bad[k - good.len()]));
        }
    }
    input::lemma_escape_found(c, 0, j);
    assert(c.take(j) =~= good + bad);
    utf8::lemma_valid_prefix_concat(good, bad);
    assert((good + bad).take(good.len() as int) =~= good);
    assert((good + bad).skip(good.len() as int) =~= bad);
    assert(c.skip((good.len() + 1) as int) =~= bad.skip(1) + rest);
}

/// In a graphics reply its text means nothing, in however many pieces it comes;
/// only its end is an acknowledgement.
pub proof fn law_reply_text_is_swallowed(piece: Seq<char>)
    requires
        piece.len() == 0 || piece[0] != '\u{1b}',
    ensures
        input::routed(ReplyState::Inside, piece) == (ReplyState::Inside, None::<Input>),
{
    let open = seq!['\x1b', '_'];
    let close = seq!['\x1b', '\\'];
    assert(open[0] == '\x1b' && close[0] == '\x1b');
}

/// A reply that is not about graphics is none: what follows its beginning means
/// what it means anywhere. Likewise an escape that breaks off a reply.
pub proof fn law_broken_reply_is_plain(state: ReplyState, token: Seq<char>)
    requires
        token.len() > 0,
        !(token.len() == 2 && token[0] == '\u{1b}' && token[1] == '_'),
        state == ReplyState::Opened ==> token[0] != 'G',
        state == ReplyState::Inside ==> token[0] == '\u{1b}' && !(token.len() == 2 && token[1]
            == '\\'),
    ensures
        input::routed(state, token) == (ReplyState::Outside, input::meaning(token)),
{
    let open = seq!['\x1b', '_'];
    let close = seq!['\x1b', '\\'];
    assert(open.len() == 2 && open[0] == '\x1b' && open[1] == '_');
    assert(close.len() == 2 && close[0] == '\x1b' && close[1] == '\\');
}

/// Three fields with a semicolon between them.
pub open spec fn three(a: Seq<char>, b: Seq<char>, c: Seq<char>) -> Seq<char> {
    a.push(';') + (b.push(';') + c)
}

/// A report: `ESC [`, its fields, and what ends it.
pub open spec fn report_text(body: Seq<char>, end: char) -> Seq<char> {
    seq!['\x1b', '['] + body + seq![end]
}

proof fn lemma_report_body(body: Seq<char>, end: char)
    ensures
        ({
            let s = report_text(body, end);
            &&& s.len() == body.len() + 3
            &&& s[0] == '\x1b'
            &&& s[1] == '['
            &&& s.last() == end
            &&& s.subrange(2, s.len() - 1) == body
        }),
{
    let s = report_text(body, end);
    assert(s.subrange(2, s.len() - 1) =~= body);
}

proof fn lemma_first_fields(a: Seq<char>, b: Seq<char>, c: Seq<char>, more: Seq<char>)
    requires
        !a.contains(';'),
        !b.contains(';'),
        !c.contains(';'),
    ensures
        ({
            let f = text::fields(three(a, b, c.push(';') + more), ';');
            &&& f.len() >= 4
            &&& f[0] == a
            &&& f[1] == b
            &&& f[2] == c
        }),
        text::fields(three(a, b, c), ';') == seq![a, b, c],
{
    text::lemma_fields_cons(a, b.push(';') + (c.push(';') + more), ';');
    text::lemma_fields_cons(b, c.push(';') + more, ';');
    text::lemma_fields_cons(c, more, ';');
    text::law_fields_join(more, ';');
    text::lemma_fields_cons(a, b.push(';') + c, ';');
    text::lemma_fields_cons(b, c, ';');
    text::lemma_fields_single(c, ';');
    assert(text::fields(three(a, b, c), ';') =~= seq![a, b, c]);
}

/// What a key report holds behind its text does not matter.
pub proof fn law_key_is_read_from_three_fields(
    a: Seq<char>,
    b: Seq<char>,
    c: Seq<char>,
    more: Seq<char>,
)
    requires
        !a.contains(';'),
        !b.contains(';'),
        !c.contains(';'),
    ensures
        keyboard::kitty_key(report_text(three(a, b, c.push(';') + more), 'u'))
            == keyboard::kitty_key(report_text(three(a, b, c), 'u')),
{
    lemma_first_fields(a, b, c, more);
    lemma_report_body(three(a, b, c.push(';') + more), 'u');
    lemma_report_body(three(a, b, c), 'u');
}

/// What a report of a cell's size holds behind the width does not matter.
pub proof fn law_size_is_read_from_three_fields(
    a: Seq<char>,
    b: Seq<char>,
    c: Seq<char>,
    more: Seq<char>,
)
    requires
        !a.contains(';'),
        !b.contains(';'),
        !c.contains(';'),
    ensures
        capability::cell_size_report(report_text(three(a, b, c.push(';') + more), 't'))
            == capability::cell_size_report(report_text(three(a, b, c), 't')),
{
    lemma_first_fields(a, b, c, more);
    lemma_report_body(three(a, b, c.push(';') + more), 't');
    lemma_report_body(three(a, b, c), 't');
}

} // verus!
