//! The escapes of the Kitty graphics protocol.

use crate::text;
use vstd::prelude::*;
use vstd::utf8::*;

verus! {

/// The escapes for one image and its one placement.
#[derive(Debug, Clone, Copy, PartialEq, Eq, Structural)]
pub struct KittyGraphics {
    pub image_id: u32,
    pub placement_id: u32,
}

/// The escape that shows a frame from shared memory: 32-bit pixels (`f=32`) of
/// the given size, read from the object named by the payload (`t=s`), displayed
/// at once (`a=T`) under the text (`z=-1`) over a rectangle of cells, with a
/// reply asked for (`q=0`).
pub open spec fn transmit_text(
    g: KittyGraphics,
    name_b64: Seq<char>,
    width: u32,
    height: u32,
    cols: u16,
    rows: u16,
) -> Seq<char> {
    "\x1b_Gf=32,t=s,s="@ + text::dec(width as nat) + ",v="@ + text::dec(height as nat) + ",a=T,i="@
        + text::dec(g.image_id as nat) + ",p="@ + text::dec(g.placement_id as nat) + ",z=-1,c="@
        + text::dec(cols as nat) + ",r="@ + text::dec(rows as nat) + ",q=0;"@ + name_b64
        + "\x1b\\"@
}

/// The escape that deletes the image and its placements, with no reply.
pub open spec fn delete_text(g: KittyGraphics) -> Seq<char> {
    "\x1b_Ga=d,d=i,i="@ + text::dec(g.image_id as nat) + ",q=2;\x1b\\"@
}

impl KittyGraphics {
    /// The escapes for the image `image_id`.
    pub fn new(image_id: u32) -> (r: Self)
        ensures
            r == (KittyGraphics { image_id, placement_id: 1 }),
    {
        KittyGraphics { image_id, placement_id: 1 }
    }

    /// Builds the escape that shows a frame from the shared-memory object whose
    /// name, in base64, is `name_b64`, scaled to `cols` by `rows` cells. Only the
    /// name goes through the terminal; the pixels do not.
    pub fn transmit_shm(
        &self,
        name_b64: &str,
        width: u32,
        height: u32,
        cols: u16,
        rows: u16,
    ) -> (r: Vec<u8>)
        ensures
            r@ == encode_utf8(transmit_text(*self, name_b64@, width, height, cols, rows)),
    {
        let mut out: String = String::new();
        out.push_str("\x1b_Gf=32,t=s,s=");
        text::push_dec(&mut out, width as u64);
        out.push_str(",v=");
        text::push_dec(&mut out, height as u64);
        out.push_str(",a=T,i=");
        text::push_dec(&mut out, self.image_id as u64);
        out.push_str(",p=");
        text::push_dec(&mut out, self.placement_id as u64);
        out.push_str(",z=-1,c=");
        text::push_dec(&mut out, cols as u64);
        out.push_str(",r=");
        text::push_dec(&mut out, rows as u64);
        out.push_str(",q=0;");
        out.push_str(name_b64);
        out.push_str("\x1b\\");
        assert(out@ =~= transmit_text(*self, name_b64@, width, height, cols, rows));
        out.into_bytes()
    }

    /// Builds the escape that deletes the image.
    pub fn delete_all(&self) -> (r: Vec<u8>)
        ensures
            r@ == encode_utf8(delete_text(*self)),
    {
        let mut out: String = String::new();
        out.push_str("\x1b_Ga=d,d=i,i=");
        text::push_dec(&mut out, self.image_id as u64);
        out.push_str(",q=2;\x1b\\");
        assert(out@ =~= delete_text(*self));
        out.into_bytes()
    }
}

} // verus!
