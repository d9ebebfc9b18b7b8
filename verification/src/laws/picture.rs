//! What is shown on the screen.

use crate::encoding;
use crate::geometry;
use crate::geometry::{CellSize, GridSize, Viewport};
use crate::renderer;
use crate::renderer::graphics;
use crate::renderer::graphics::KittyGraphics;
use crate::renderer::scale;
use crate::renderer::shm;
use crate::renderer::shm::ShmCall;
use crate::renderer::{HintBox, Picture, RendererView, Sent};
use crate::text;
use vstd::prelude::*;
use vstd::utf8::*;

verus! {

/// The bytes that go to the terminal for a frame of `width` by `height` pixels
/// in the object with the given payload, on a grid of `cols` by `rows` cells.
pub open spec fn shown(
    g: KittyGraphics,
    payload: Seq<char>,
    width: u32,
    height: u32,
    cols: int,
    rows: int,
) -> Seq<u8> {
    encode_utf8(
        "\x1b[1;1H\x1b_Gf=32,t=s,s="@ + text::dec(width as nat) + ",v="@ + text::dec(height as nat)
            + ",a=T,i="@ + text::dec(g.image_id as nat) + ",p="@ + text::dec(g.placement_id as nat)
            + ",z=-1,c="@ + text::dec(cols as nat) + ",r="@ + text::dec(rows as nat) + ",q=0;"@
            + payload + "\x1b\\"@,
    )
}

/// All rows of the grid but the last.
pub open spec fn rows_above_last(grid: GridSize) -> int {
    if grid.rows >= 1 {
        grid.rows - 1
    } else {
        0
    }
}

/// What is sent is shown.
pub proof fn lemma_shown(s: RendererView, pixels: Seq<u8>, width: u32, height: u32)
    ensures
        s.transmitted(pixels, width, height).escape == shown(
            s.gfx,
            s.payloads[s.slot],
            width,
            height,
            s.grid.cols as int,
            rows_above_last(s.grid),
        ),
{
    reveal_strlit("\x1b[1;1H");
    reveal_strlit("\x1b_Gf=32,t=s,s=");
    reveal_strlit("\x1b[1;1H\x1b_Gf=32,t=s,s=");
    assert("\x1b[1;1H"@ + "\x1b_Gf=32,t=s,s="@ =~= "\x1b[1;1H\x1b_Gf=32,t=s,s="@);
    let rows = rows_above_last(s.grid);
    assert("\x1b[1;1H"@ + graphics::transmit_text(
        s.gfx,
        s.payloads[s.slot],
        width,
        height,
        s.grid.cols,
        s.page_rows(),
    ) =~= "\x1b[1;1H\x1b_Gf=32,t=s,s="@ + text::dec(width as nat) + ",v="@ + text::dec(
        height as nat,
    ) + ",a=T,i="@ + text::dec(s.gfx.image_id as nat) + ",p="@ + text::dec(
        s.gfx.placement_id as nat,
    ) + ",z=-1,c="@ + text::dec(s.grid.cols as nat) + ",r="@ + text::dec(rows as nat) + ",q=0;"@
        + s.payloads[s.slot] + "\x1b\\"@);
}

/// Whatever is sent declares the size that it was sent with: `s=` is the number
/// of its columns and `v=` the number of its rows, over every column of the grid
/// (`c=`) and every row but the last (`r=`). The payload names the very object
/// that the pixels are written to.
pub proof fn law_escape_declares_its_frame(
    s: RendererView,
    pixels: Seq<u8>,
    width: u32,
    height: u32,
)
    requires
        s.wf(),
    ensures
        ({
            let sent = s.transmitted(pixels, width, height);
            let rows = rows_above_last(s.grid);
            &&& sent.pixels == pixels
            &&& exists|payload: Seq<char>|
                {
                    &&& sent.escape == #[trigger] shown(
                        s.gfx,
                        payload,
                        width,
                        height,
                        s.grid.cols as int,
                        rows,
                    )
                    &&& encoding::base64_decoded(payload) == Some(encode_utf8(sent.shm_name))
                }
        }),
{
    lemma_shown(s, pixels, width, height);
    let sent = s.transmitted(pixels, width, height);
    assert(sent.escape == shown(
        s.gfx,
        s.payloads[s.slot],
        width,
        height,
        s.grid.cols as int,
        rows_above_last(s.grid),
    ));
    assert(encoding::base64_decoded(s.payloads[s.slot]) == Some(encode_utf8(s.names[s.slot])));
}

/// A frame that is presented, and a cached frame that is shown again, is declared
/// with its own width and height.
pub proof fn law_frame_keeps_its_size(s: RendererView, f: Picture)
    requires
        s.wf(),
    ensures
        ({
            let rows = rows_above_last(s.grid);
            let want = shown(
                s.gfx,
                s.payloads[s.slot],
                f.width,
                f.height,
                s.grid.cols as int,
                rows,
            );
            let cached = RendererView { last_frame: Some(f), ..s };
            &&& s.presented(Some(f)).1 is Some
            &&& s.presented(Some(f)).1->0.escape == want
            &&& s.presented(Some(f)).1->0.shm_name == s.names[s.slot]
            &&& s.presented(Some(f)).0.last_frame == Some(f)
            &&& cached.rerendered().1 is Some
            &&& cached.rerendered().1->0.escape == want
            &&& cached.rerendered().1->0.shm_name == s.names[s.slot]
            &&& cached.rerendered().0.last_frame == Some(f)
        }),
{
    lemma_shown(s, s.boxed(f), f.width, f.height);
    let cached = RendererView { last_frame: Some(f), ..s };
    lemma_shown(cached, cached.boxed(f), f.width, f.height);
}

/// What cannot be decoded sends nothing and changes nothing, and without a cached
/// frame there is nothing to show again.
pub proof fn law_no_frame_no_escape(s: RendererView)
    ensures
        s.presented(None) == (s, None::<Sent>),
        s.last_frame is None ==> s.rerendered() == (s, None::<Sent>),
{
}

/// Read row by row, the bytes that are sent give each pixel at its place: the
/// frame's own where no box lies, and opaque golden yellow under a box, on a
/// frame of the page area's size.
pub proof fn law_pixel_in_place(s: RendererView, f: Picture, x: int, y: int, c: int)
    requires
        f.wf(),
        f.width == s.page().width_px,
        f.height == s.page().height_px,
        0 <= x < f.width,
        0 <= y < f.height,
        0 <= c < 4,
    ensures
        ({
            let sent = s.presented(Some(f)).1->0;
            let at = 4 * (y * f.width + x) + c;
            let boxed = exists|k: int|
                0 <= k < s.hint_boxes.len() && {
                    let b = #[trigger] s.hint_boxes[k];
                    b.x <= x < b.x + b.w && b.y <= y < b.y + b.h
                };
            &&& sent.pixels.len() == 4 * (f.width * f.height)
            &&& 0 <= at < sent.pixels.len()
            &&& !boxed ==> sent.pixels[at] == f.pixels[at]
            &&& boxed && c == 0 ==> sent.pixels[at] == 255
            &&& boxed && c == 1 ==> sent.pixels[at] == 204
            &&& boxed && c == 2 ==> sent.pixels[at] == 0
            &&& boxed && c == 3 ==> sent.pixels[at] == 255
        }),
{
    let w = f.width;
    let h = f.height;
    let at = 4 * (y * w + x) + c;
    renderer::lemma_in_frame(x, y, w, h);
    renderer::lemma_pixel(at, x, y, w);
    assert(at % 4 == c);
    assert forall|k: int| 0 <= k < s.hint_boxes.len() implies {
        let b = #[trigger] s.hint_boxes[k];
        renderer::covers(b, x, y, w, h, w, h) <==> b.x <= x < b.x + b.w && b.y <= y < b.y + b.h
    } by {
        renderer::law_boxes_in_place(s.hint_boxes[k], x, y, w, h);
    }
    assert(s.boxed(f)[at] == if renderer::covered(s.hint_boxes, x, y, w, h, w, h) {
        renderer::hint_byte(c)
    } else {
        f.pixels[at]
    });
}

/// A pixel along one axis lies in a span of the page area, scaled from `dev`
/// pixels to `size`.
pub open spec fn in_span(at: int, start: u32, len: u32, size: u32, dev: u32) -> bool {
    let a = scale::scaled_down(start as nat, size as nat, dev as nat);
    a <= at < a + scale::scaled_up(len as nat, size as nat, dev as nat)
}

/// On a frame of any size a box covers what it covers on each axis, scaled as the
/// frame is on that axis.
pub proof fn law_box_is_scaled_by_axis(
    b: HintBox,
    x: int,
    y: int,
    w: u32,
    h: u32,
    dev_w: u32,
    dev_h: u32,
)
    ensures
        renderer::covers(b, x, y, w, h, dev_w, dev_h) <==> in_span(x, b.x, b.w, w, dev_w)
            && in_span(y, b.y, b.h, h, dev_h),
{
}

/// On a frame of any size a pixel keeps its own bytes where no box covers it, and
/// has the colour of the boxes where one does; where the page area is empty,
/// nothing is painted.
pub proof fn law_pixel_of_any_frame(s: RendererView, f: Picture, x: int, y: int, c: int)
    requires
        f.wf(),
        0 <= x < f.width,
        0 <= y < f.height,
        0 <= c < 4,
    ensures
        ({
            let sent = s.presented(Some(f)).1->0;
            let page = s.page();
            let at = 4 * (y * f.width + x) + c;
            let boxed = exists|k: int|
                0 <= k < s.hint_boxes.len() && {
                    let b = #[trigger] s.hint_boxes[k];
                    in_span(x, b.x, b.w, f.width, page.width_px) && in_span(
                        y,
                        b.y,
                        b.h,
                        f.height,
                        page.height_px,
                    )
                };
            let empty = page.width_px == 0 || page.height_px == 0;
            &&& sent.pixels.len() == f.pixels.len()
            &&& 0 <= at < sent.pixels.len()
            &&& empty || !boxed ==> sent.pixels[at] == f.pixels[at]
            &&& !empty && boxed ==> sent.pixels[at] == (if c == 1 {
                204u8
            } else if c == 2 {
                0u8
            } else {
                255u8
            })
        }),
{
    let w = f.width;
    let h = f.height;
    let page = s.page();
    let at = 4 * (y * w + x) + c;
    renderer::lemma_in_frame(x, y, w, h);
    renderer::lemma_pixel(at, x, y, w);
    assert(at % 4 == c);
    assert forall|k: int| 0 <= k < s.hint_boxes.len() implies {
        let b = #[trigger] s.hint_boxes[k];
        renderer::covers(b, x, y, w, h, page.width_px, page.height_px) <==> in_span(
            x,
            b.x,
            b.w,
            w,
            page.width_px,
        ) && in_span(y, b.y, b.h, h, page.height_px)
    } by {
        law_box_is_scaled_by_axis(
            s.hint_boxes[k],
            x,
            y,
            w,
            h,
            page.width_px,
            page.height_px,
        );
    }
    if page.width_px != 0 && page.height_px != 0 {
        assert(s.boxed(f)[at] == if renderer::covered(
            s.hint_boxes,
            x,
            y,
            w,
            h,
            page.width_px,
            page.height_px,
        ) {
            renderer::hint_byte(c)
        } else {
            f.pixels[at]
        });
    }
}

/// Boxes are shown at once, on the frame that is cached, and on every frame that
/// comes; the cached frame stays clean.
pub proof fn law_boxes_stay(s: RendererView, boxes: Seq<HintBox>, f: Picture)
    requires
        s.wf(),
        f.wf(),
    ensures
        s.with_boxes(boxes) == (RendererView { hint_boxes: boxes, ..s }),
        s.with_boxes(boxes).rerendered().0.hint_boxes == boxes,
        s.with_boxes(boxes).presented(Some(f)).0.hint_boxes == boxes,
        s.last_frame == Some(f) ==> s.with_boxes(boxes).rerendered().1
            == s.with_boxes(boxes).presented(Some(f)).1,
{
}

/// The slots are written one after the other, round and round, and a frame is
/// written to the slot whose turn it is.
pub proof fn law_slots_take_turns(s: RendererView, f: Picture)
    requires
        s.wf(),
    ensures
        ({
            let (next, sent) = s.presented(Some(f));
            &&& sent->0.slot == s.slot
            &&& sent->0.shm_name == s.names[s.slot]
            &&& s.slot < 3 ==> next.slot == s.slot + 1
            &&& s.slot == 3 ==> next.slot == 0
            &&& next == RendererView { slot: next.slot, last_frame: Some(f), ..s }
            &&& s.last_frame is Some ==> s.rerendered().0 == RendererView { slot: next.slot, ..s }
        }),
{
}

/// The escape that takes an image away names that image and no other, and asks
/// for no reply.
pub proof fn law_delete_names_its_image(a: KittyGraphics, b: KittyGraphics)
    ensures
        graphics::delete_text(a) == "\x1b_Ga=d,d=i,i="@ + text::dec(a.image_id as nat)
            + ",q=2;\x1b\\"@,
        a.image_id != b.image_id ==> graphics::delete_text(a) != graphics::delete_text(b),
{
    if a.image_id != b.image_id && graphics::delete_text(a) == graphics::delete_text(b) {
        let n = "\x1b_Ga=d,d=i,i="@.len() as int;
        let k = ",q=2;\x1b\\"@.len() as int;
        let t = graphics::delete_text(a);
        assert(t.subrange(n, t.len() - k) =~= text::dec(a.image_id as nat));
        assert(t.subrange(n, t.len() - k) =~= text::dec(b.image_id as nat));
        text::law_dec_injective(a.image_id as nat, b.image_id as nat);
    }
}

/// The name of an object holds the process and the slot, in that order.
pub proof fn law_object_names(pid: u32, slot: u8)
    ensures
        shm::process_name(pid) == "/webcat_"@ + text::dec(pid as nat),
        shm::slot_name(pid, slot) == "/webcat_"@ + text::dec(pid as nat) + seq!['_'] + text::dec(
            slot as nat,
        ),
{
    reveal_strlit("_");
    assert("_"@ =~= seq!['_']);
}

/// A write whose calls all succeed takes away what had the name, makes the object
/// anew, gives it its length, copies the pixels and ends with the object written.
pub proof fn law_write_succeeds()
    ensures
        ({
            let a = shm::call_after(ShmCall::UnlinkStale, true);
            let b = shm::call_after(a, true);
            let c = shm::call_after(b, true);
            let d = shm::call_after(c, true);
            let e = shm::call_after(d, true);
            let f = shm::call_after(e, true);
            &&& a == ShmCall::Open
            &&& b == ShmCall::Truncate
            &&& c == ShmCall::MapMemory
            &&& d == ShmCall::CopyPixels
            &&& e == ShmCall::Unmap
            &&& f == ShmCall::Close
            &&& shm::call_after(f, true) == ShmCall::Written
        }),
{
}

/// A write fails where the object cannot be made, cannot be given its length or
/// cannot be mapped, and where nothing of that happens it ends with the object
/// written, whatever came of the other calls.
pub proof fn law_write_fails_only_so(outcomes: Seq<bool>)
    requires
        outcomes.len() == 7,
    ensures
        shm::after_calls(outcomes).0 == (if outcomes[1] && outcomes[2] && outcomes[3] {
            ShmCall::Written
        } else {
            ShmCall::Failed
        }),
{
    reveal_with_fuel(shm::after_calls, 8);
}

/// The page takes every column and every row above the status rows; where there
/// are not that many rows it has none.
pub proof fn law_page_area(grid: GridSize, cell: CellSize, status_rows: u16)
    ensures
        ({
            let v: Viewport = geometry::viewport_of(grid, cell, status_rows);
            &&& v.width_px == grid.cols * cell.w
            &&& grid.rows >= status_rows ==> v.height_px == (grid.rows - status_rows) * cell.h
            &&& grid.rows < status_rows ==> v.height_px == 0
        }),
{
    assert(0 <= grid.cols * cell.w <= 0xfffe_0001) by (nonlinear_arith)
        requires
            0 <= grid.cols <= 0xffff,
            0 <= cell.w <= 0xffff,
    ;
    let n: int = if grid.rows >= status_rows {
        grid.rows - status_rows
    } else {
        0
    };
    assert(0 <= n * cell.h <= 0xfffe_0001) by (nonlinear_arith)
        requires
            0 <= n <= 0xffff,
            0 <= cell.h <= 0xffff,
    ;
    assert(0 * cell.h == 0);
}

/// The renderer's page area is that of its grid, with the last row left to the
/// status line.
pub proof fn law_renderer_page(s: RendererView)
    ensures
        s.page().width_px == s.grid.cols * s.cell.w,
        s.page().height_px == rows_above_last(s.grid) * s.cell.h,
        s.page_rows() == rows_above_last(s.grid),
{
    law_page_area(s.grid, s.cell, 1);
    assert(0 * s.cell.h == 0);
}

/// A click in a cell goes to the cell's centre, as far from its one side as from
/// the other: cell `n` reaches from `n` sizes to `n + 1`.
pub proof fn law_click_hits_the_centre(n: u16, size: u16)
    ensures
        ({
            let at = geometry::cell_center(n, size).halves as int;
            at - 2 * (n * size) == 2 * ((n + 1) * size) - at
        }),
{
    assert(0 <= (2 * n + 1) * size <= 0x2_0000_0000) by (nonlinear_arith)
        requires
            0 <= n <= 0xffff,
            0 <= size <= 0xffff,
    ;
    assert((2 * n + 1) * size == 2 * (n * size) + size) by (nonlinear_arith);
    assert((n + 1) * size == n * size + size) by (nonlinear_arith);
}

} // verus!
