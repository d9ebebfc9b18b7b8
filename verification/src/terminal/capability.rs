//! What the terminal answers when asked what it can do.

use crate::error::Error;
use crate::geometry::CellSize;
use crate::terminal::keyboard;
use crate::text;
use crate::utf8;
use vstd::prelude::*;

verus! {

/// The cell size that `ESC [ 6 ; height ; width t` reports, if `seq` is of that
/// form; what stands behind the width is not looked at.
pub open spec fn cell_size_report(seq: Seq<char>) -> Option<CellSize> {
    if !keyboard::is_csi(seq, 't') {
        None
    } else {
        let f = text::fields(seq.subrange(2, seq.len() - 1), ';');
        if f[0] != seq!['6'] || f.len() < 3 {
            None
        } else {
            match (
                text::parsed_unsigned(f[1], u16::MAX as nat),
                text::parsed_unsigned(f[2], u16::MAX as nat),
            ) {
                (Some(h), Some(w)) => Some(CellSize { w: w as u16, h: h as u16 }),
                _ => None,
            }
        }
    }
}

/// Parses a `CSI 6 ; height ; width t` cell-size report.
pub fn parse_cell_size_report(seq: &str) -> (r: Option<CellSize>)
    ensures
        r == cell_size_report(seq@),
{
    let s: Vec<char> = text::chars_of(seq);
    let body: &[char] = match keyboard::csi_body(s.as_slice(), 't') {
        Some(b) => b,
        None => return None,
    };
    let f: Vec<&[char]> = text::split(body, ';');
    let ghost want = text::contents(f@);
    assert(want[0] == f@[0]@);
    if !(f[0].len() == 1 && f[0][0] == '6') {
        proof {
            if want[0] == seq!['6'] {
                assert(f@[0]@[0] == '6');
            }
        }
        return None;
    }
    assert(want[0] =~= seq!['6']);
    if f.len() < 3 {
        return None;
    }
    assert(want[1] == f@[1]@ && want[2] == f@[2]@);
    let h: u32 = match text::parse_unsigned(f[1], 0xffff) {
        Some(v) => v,
        None => return None,
    };
    let w: u32 = match text::parse_unsigned(f[2], 0xffff) {
        Some(v) => v,
        None => return None,
    };
    Some(CellSize { w: w as u16, h: h as u16 })
}

/// Asks for the size of a cell.
pub const CELL_SIZE_QUERY: &'static str = "\x1b[16t";

/// Asks whether the terminal takes graphics, with a picture of one pixel.
pub const GRAPHICS_QUERY: &'static str = "\x1b_Gi=31,s=1,v=1,a=q,t=d,f=24;AAAA\x1b\\";

/// The last byte of the answer to `CELL_SIZE_QUERY`.
pub const CELL_SIZE_END: u8 = 0x74;

/// The last byte of the answer to `GRAPHICS_QUERY`.
pub const GRAPHICS_END: u8 = 0x5c;

/// What a read that does not wait can come to.
#[derive(Debug, Clone, Copy, PartialEq, Eq, Structural)]
pub enum ReadEvent {
    /// A byte.
    Byte(u8),
    /// No byte yet.
    Empty,
    /// An error.
    Failed,
}

/// What to do after a read, as long as there is time.
#[derive(Debug, Clone, Copy, PartialEq, Eq, Structural)]
pub enum ReadNext {
    /// Read again at once.
    Again,
    /// Wait a moment, then read again.
    Pause,
    /// The answer is complete, or there will be none.
    Stop,
}

/// Collects an answer up to its last byte.
#[derive(Debug)]
pub struct ReplyReader {
    pub terminator: u8,
    pub bytes: Vec<u8>,
}

impl ReplyReader {
    /// Waits for an answer that ends in `terminator`.
    pub fn new(terminator: u8) -> (r: Self)
        ensures
            r.terminator == terminator,
            r.bytes@ == Seq::<u8>::empty(),
    {
        ReplyReader { terminator, bytes: Vec::new() }
    }

    /// Takes what a read came to.
    pub fn on_read(&mut self, ev: ReadEvent) -> (r: ReadNext)
        ensures
            final(self).terminator == old(self).terminator,
            final(self).bytes@ == (match ev {
                ReadEvent::Byte(b) => old(self).bytes@.push(b),
                _ => old(self).bytes@,
            }),
            r == (match ev {
                ReadEvent::Byte(b) => if b == old(self).terminator {
                    ReadNext::Stop
                } else {
                    ReadNext::Again
                },
                ReadEvent::Empty => ReadNext::Pause,
                ReadEvent::Failed => ReadNext::Stop,
            }),
    {
        match ev {
            ReadEvent::Byte(b) => {
                self.bytes.push(b);
                if b == self.terminator {
                    ReadNext::Stop
                } else {
                    ReadNext::Again
                }
            },
            ReadEvent::Empty => ReadNext::Pause,
            ReadEvent::Failed => ReadNext::Stop,
        }
    }

    /// The answer, as far as it came.
    pub fn reply(&self) -> (r: String)
        ensures
            r@ == utf8::utf8_lossy(self.bytes@),
            vstd::utf8::valid_utf8(self.bytes@) ==> r@ == vstd::utf8::decode_utf8(self.bytes@),
    {
        utf8::decode_lossy(self.bytes.as_slice())
    }
}

/// The size of a cell by the terminal's answer; without a proper answer, eight
/// by sixteen pixels.
pub fn cell_size_from_reply(reply: &str) -> (r: CellSize)
    ensures
        r == (match cell_size_report(reply@) {
            Some(c) => c,
            None => CellSize { w: 8, h: 16 },
        }),
{
    match parse_cell_size_report(reply) {
        Some(c) => c,
        None => CellSize { w: 8, h: 16 },
    }
}

/// Whether the answer is that of a terminal that takes graphics.
pub fn graphics_from_reply(reply: &str) -> (r: bool)
    ensures
        r == (text::occurs(reply@, "\x1b_G"@) && text::occurs(reply@, ";OK"@)),
{
    text::contains_str(reply, "\x1b_G") && text::contains_str(reply, ";OK")
}

/// Whether the browser can run: frames are shown as graphics, and there is no
/// other way to show them.
pub fn check_graphics(graphics: bool) -> (r: Result<(), Error>)
    ensures
        graphics ==> r is Ok,
        !graphics ==> (r matches Err(Error::UnsupportedTerminal(why)) && why@
            == "Kitty graphics protocol not detected"@),
{
    if graphics {
        Ok(())
    } else {
        Err(Error::UnsupportedTerminal("Kitty graphics protocol not detected".to_string()))
    }
}

/// A report of any size is read back as that size.
pub proof fn law_report_read_back(c: CellSize)
    ensures
        cell_size_report(
            seq!['\x1b', '[', '6', ';'] + text::dec(c.h as nat).push(';') + text::dec(
                c.w as nat,
            ).push('t'),
        ) == Some(c),
{
    let h = text::dec(c.h as nat);
    let w = text::dec(c.w as nat);
    let seq = seq!['\x1b', '[', '6', ';'] + h.push(';') + w.push('t');
    text::law_dec_value(c.h as nat);
    text::law_dec_value(c.w as nat);
    let body = seq.subrange(2, seq.len() - 1);
    let six = seq!['6'];
    assert(body =~= six.push(';') + (h.push(';') + w));
    text::lemma_fields_cons(six, h.push(';') + w, ';');
    text::lemma_fields_cons(h, w, ';');
    text::lemma_fields_single(w, ';');
    assert(text::fields(body, ';') =~= seq![six, h, w]);
    assert(text::is_digit(h[0]) && text::is_digit(w[0]));
}

} // verus!
