//! Mouse reports in SGR form.

use crate::text;
use vstd::prelude::*;
use vstd::slice::slice_subrange;

verus! {

#[derive(Debug, Clone, Copy, PartialEq, Eq, Structural)]
pub enum MouseButton {
    Left,
    Middle,
    Right,
}

#[derive(Debug, Clone, Copy, PartialEq, Eq, Structural)]
pub enum MouseKind {
    Down(MouseButton),
    Up(MouseButton),
    Move,
    WheelUp,
    WheelDown,
}

/// A mouse event in a cell; the upper left cell is column 0 of row 0.
#[derive(Debug, Clone, Copy, PartialEq, Eq, Structural)]
pub struct MouseEvent {
    pub kind: MouseKind,
    pub col: u16,
    pub row: u16,
}

/// The button in the low two bits of a report's code.
pub open spec fn button_of(cb: u32) -> MouseButton {
    if cb & 0b11 == 0 {
        MouseButton::Left
    } else if cb & 0b11 == 1 {
        MouseButton::Middle
    } else {
        MouseButton::Right
    }
}

/// What the code `cb` reports. Bit 64 marks the wheel, whose low bits 0 and 1
/// are up and down; the horizontal wheel reports nothing. Bit 32 marks motion.
pub open spec fn kind_of(cb: u32, release: bool) -> Option<MouseKind> {
    if cb & 64 != 0 {
        if cb & 0b11 == 0 {
            Some(MouseKind::WheelUp)
        } else if cb & 0b11 == 1 {
            Some(MouseKind::WheelDown)
        } else {
            None
        }
    } else if cb & 32 != 0 {
        Some(MouseKind::Move)
    } else if release {
        Some(MouseKind::Up(button_of(cb)))
    } else {
        Some(MouseKind::Down(button_of(cb)))
    }
}

/// `seq` is `ESC [ <`, something, and `M` or `m`.
pub open spec fn is_sgr(seq: Seq<char>) -> bool {
    &&& seq.len() >= 4
    &&& seq[0] == '\x1b'
    &&& seq[1] == '['
    &&& seq[2] == '<'
    &&& (seq.last() == 'M' || seq.last() == 'm')
}

/// The event that `ESC [ < code ; column ; row M` reports (`m` for a release),
/// if `seq` is of that form, its numbers can be read, column and row count from
/// one, and the code reports an event.
pub open spec fn sgr_mouse(seq: Seq<char>) -> Option<MouseEvent> {
    if !is_sgr(seq) {
        None
    } else {
        let f = text::fields(seq.subrange(3, seq.len() - 1), ';');
        if f.len() != 3 {
            None
        } else {
            match (
                text::parsed_unsigned(f[0], u32::MAX as nat),
                text::parsed_unsigned(f[1], u16::MAX as nat),
                text::parsed_unsigned(f[2], u16::MAX as nat),
            ) {
                (Some(cb), Some(cx), Some(cy)) => if cx == 0 || cy == 0 {
                    None
                } else {
                    match kind_of(cb as u32, seq.last() == 'm') {
                        Some(kind) => Some(
                            MouseEvent { kind, col: (cx - 1) as u16, row: (cy - 1) as u16 },
                        ),
                        None => None,
                    }
                },
                _ => None,
            }
        }
    }
}

/// Parses one complete mouse report.
pub fn parse_sgr_mouse(seq: &str) -> (r: Option<MouseEvent>)
    ensures
        r == sgr_mouse(seq@),
{
    let s: Vec<char> = text::chars_of(seq);
    let n: usize = s.len();
    if !(n >= 4 && s[0] == '\x1b' && s[1] == '[' && s[2] == '<') {
        return None;
    }
    let last: char = s[n - 1];
    let is_release: bool = last == 'm';
    if last != 'M' && !is_release {
        return None;
    }
    let parts: Vec<&[char]> = text::split(slice_subrange(s.as_slice(), 3, n - 1), ';');
    if parts.len() != 3 {
        return None;
    }
    let ghost f = text::contents(parts@);
    assert(f[0] == parts@[0]@ && f[1] == parts@[1]@ && f[2] == parts@[2]@);
    let cb: u32 = match text::parse_unsigned(parts[0], u32::MAX) {
        Some(v) => v,
        None => return None,
    };
    let cx: u32 = match text::parse_unsigned(parts[1], 0xffff) {
        Some(v) => v,
        None => return None,
    };
    let cy: u32 = match text::parse_unsigned(parts[2], 0xffff) {
        Some(v) => v,
        None => return None,
    };
    if cx == 0 || cy == 0 {
        return None;
    }
    let kind: MouseKind = if cb & 64 != 0 {
        // The horizontal wheel is not a vertical scroll: a trackpad mixes both
        // into one gesture, and the page would jitter.
        match cb & 0b11 {
            0 => MouseKind::WheelUp,
            1 => MouseKind::WheelDown,
            _ => return None,
        }
    } else if cb & 32 != 0 {
        MouseKind::Move
    } else {
        let button: MouseButton = match cb & 0b11 {
            0 => MouseButton::Left,
            1 => MouseButton::Middle,
            _ => MouseButton::Right,
        };
        if is_release {
            MouseKind::Up(button)
        } else {
            MouseKind::Down(button)
        }
    };
    Some(MouseEvent { kind, col: (cx - 1) as u16, row: (cy - 1) as u16 })
}

/// A report written for a cell is read back in that cell, whatever the code,
/// as long as the code reports an event at all.
pub proof fn law_report_roundtrip(cb: u32, col: u16, row: u16, release: bool)
    requires
        col < u16::MAX,
        row < u16::MAX,
    ensures
        sgr_mouse(
            seq!['\x1b', '[', '<'] + text::dec(cb as nat).push(';') + text::dec(
                (col + 1) as nat,
            ).push(';') + text::dec((row + 1) as nat).push(if release {
                'm'
            } else {
                'M'
            }),
        ) == (match kind_of(cb, release) {
            Some(kind) => Some(MouseEvent { kind, col, row }),
            None => None,
        }),
{
    let end = if release {
        'm'
    } else {
        'M'
    };
    let a = text::dec(cb as nat);
    let b = text::dec((col + 1) as nat);
    let c = text::dec((row + 1) as nat);
    let seq = seq!['\x1b', '[', '<'] + a.push(';') + b.push(';') + c.push(end);
    text::law_dec_value(cb as nat);
    text::law_dec_value((col + 1) as nat);
    text::law_dec_value((row + 1) as nat);
    let body = seq.subrange(3, seq.len() - 1);
    assert(body =~= a.push(';') + (b.push(';') + c));
    text::lemma_fields_cons(a, b.push(';') + c, ';');
    text::lemma_fields_cons(b, c, ';');
    text::lemma_fields_single(c, ';');
    let f = text::fields(body, ';');
    assert(f =~= seq![a, b, c]);
    assert(text::is_digit(a[0]) && text::is_digit(b[0]) && text::is_digit(c[0]));
}

} // verus!
