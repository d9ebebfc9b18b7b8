//! Frames on the screen: decoded, given their hint boxes, and handed to the
//! terminal through shared memory.

pub mod graphics;
pub mod scale;
pub mod shm;

use crate::geometry;
use crate::geometry::{CellSize, GridSize};
use crate::renderer::graphics::KittyGraphics;
use crate::renderer::scale::Ratio;
use crate::renderer::shm::Shm;
use vstd::prelude::*;
use vstd::utf8::*;

verus! {

/// The id of the one image on the screen.
pub const IMAGE_ID: u32 = 1;

/// The number of shared-memory objects written in turn. The object that the
/// terminal may still be reading is never the one being written.
pub const SHM_POOL: usize = 4;

/// The colour of a hint box: a golden yellow that reads well under black text.
pub const HINT_RGB: [u8; 3] = [255, 204, 0];

/// A solid rectangle to paint onto the frame as the background of a hint label,
/// in pixels of the page area. The frame lies over the cells' backgrounds, so a
/// label's box has to be part of the frame.
#[derive(Debug, Clone, Copy, PartialEq, Eq, Structural)]
pub struct HintBox {
    pub x: u32,
    pub y: u32,
    pub w: u32,
    pub h: u32,
}

/// A decoded frame: four bytes for each pixel, row by row.
#[derive(Debug)]
pub struct Rgba {
    pub pixels: Vec<u8>,
    pub width: u32,
    pub height: u32,
}

/// What a decoded frame holds.
pub struct Picture {
    pub pixels: Seq<u8>,
    pub width: u32,
    pub height: u32,
}

impl View for Rgba {
    type V = Picture;

    open spec fn view(&self) -> Picture {
        Picture { pixels: self.pixels@, width: self.width, height: self.height }
    }
}

impl Picture {
    /// There are four bytes for each pixel.
    pub open spec fn wf(self) -> bool {
        self.pixels.len() == self.width * self.height * 4
    }
}

/// What an optional decoded frame holds.
pub open spec fn picture(f: Option<Rgba>) -> Option<Picture> {
    match f {
        Some(f) => Some(f@),
        None => None,
    }
}

/// The picture that the `image` crate decodes from `bytes`, or none where it
/// cannot.
pub uninterp spec fn decoded_image(bytes: Seq<u8>) -> Option<Picture>;

/// `image::load_from_memory`, converted by `DynamicImage::into_rgba8`: what it
/// decodes depends on the bytes alone, and holds four bytes for each pixel.
#[verifier::external_body]
pub(crate) fn decode_image(bytes: &[u8]) -> (r: Option<Rgba>)
    ensures
        picture(r) == decoded_image(bytes@),
        r matches Some(f) ==> f@.wf(),
{
    let img = image::load_from_memory(bytes).ok()?.into_rgba8();
    let (width, height) = img.dimensions();
    Some(Rgba { pixels: img.into_raw(), width, height })
}

/// The byte of a hint-coloured, opaque pixel in channel `c`.
pub open spec fn hint_byte(c: int) -> u8 {
    if c < 3 {
        HINT_RGB[c]
    } else {
        255
    }
}

/// The box covers the frame's pixel at column `x` of row `y`, after its corner
/// and its size have been scaled from the page area to the frame.
pub open spec fn covers(
    b: HintBox,
    x: int,
    y: int,
    w: u32,
    h: u32,
    dev_w: u32,
    dev_h: u32,
) -> bool {
    let bx = scale::scaled_down(b.x as nat, w as nat, dev_w as nat);
    let by = scale::scaled_down(b.y as nat, h as nat, dev_h as nat);
    let bw = scale::scaled_up(b.w as nat, w as nat, dev_w as nat);
    let bh = scale::scaled_up(b.h as nat, h as nat, dev_h as nat);
    bx <= x < bx + bw && by <= y < by + bh
}

/// One of the boxes covers the pixel.
pub open spec fn covered(
    boxes: Seq<HintBox>,
    x: int,
    y: int,
    w: u32,
    h: u32,
    dev_w: u32,
    dev_h: u32,
) -> bool {
    exists|k: int|
        0 <= k < boxes.len() && covers(#[trigger] boxes[k], x, y, w, h, dev_w, dev_h)
}

/// The column of the pixel to which byte `i` belongs.
pub open spec fn column_of(i: int, w: u32) -> int {
    (i / 4) % (w as int)
}

/// The row of the pixel to which byte `i` belongs.
pub open spec fn row_of(i: int, w: u32) -> int {
    (i / 4) / (w as int)
}

/// The frame with the boxes painted on it: a covered pixel has the hint colour,
/// any other keeps its own. Where the page area is empty nothing is painted.
pub open spec fn baked(
    rgba: Seq<u8>,
    w: u32,
    h: u32,
    dev_w: u32,
    dev_h: u32,
    boxes: Seq<HintBox>,
) -> Seq<u8> {
    if dev_w == 0 || dev_h == 0 {
        rgba
    } else {
        Seq::new(
            rgba.len(),
            |i: int|
                if covered(boxes, column_of(i, w), row_of(i, w), w, h, dev_w, dev_h) {
                    hint_byte(i % 4)
                } else {
                    rgba[i]
                },
        )
    }
}

/// Without boxes a frame stays as it is.
pub proof fn law_no_boxes(rgba: Seq<u8>, w: u32, h: u32, dev_w: u32, dev_h: u32)
    ensures
        baked(rgba, w, h, dev_w, dev_h, Seq::empty()) == rgba,
{
    assert(baked(rgba, w, h, dev_w, dev_h, Seq::empty()) =~= rgba);
}

/// Boxes that are painted already change nothing when they are painted again.
pub proof fn law_bake_idempotent(
    rgba: Seq<u8>,
    w: u32,
    h: u32,
    dev_w: u32,
    dev_h: u32,
    boxes: Seq<HintBox>,
)
    ensures
        baked(baked(rgba, w, h, dev_w, dev_h, boxes), w, h, dev_w, dev_h, boxes) == baked(
            rgba,
            w,
            h,
            dev_w,
            dev_h,
            boxes,
        ),
{
    let once = baked(rgba, w, h, dev_w, dev_h, boxes);
    assert(baked(once, w, h, dev_w, dev_h, boxes) =~= once);
}

/// On a frame of the page area's size, a box is painted where it lies.
pub proof fn law_boxes_in_place(b: HintBox, x: int, y: int, w: u32, h: u32)
    requires
        w > 0,
        h > 0,
    ensures
        covers(b, x, y, w, h, w, h) <==> b.x <= x < b.x + b.w && b.y <= y < b.y + b.h,
{
    scale::law_equal_sizes(b.x, w as nat);
    scale::law_equal_sizes(b.w, w as nat);
    scale::law_equal_sizes(b.y, h as nat);
    scale::law_equal_sizes(b.h, h as nat);
}

/// The bytes of one pixel are the four at its offset.
pub proof fn lemma_pixel(i: int, x: int, y: int, w: u32)
    requires
        0 <= i,
        0 <= x < w,
        0 <= y,
    ensures
        (column_of(i, w) == x && row_of(i, w) == y) <==> 4 * (y * w + x) <= i < 4 * (y * w + x) + 4,
{
    let p = i / 4;
    let q = y * w + x;
    if 4 * q <= i < 4 * q + 4 {
        assert(p == q);
        vstd::arithmetic::div_mod::lemma_fundamental_div_mod_converse(q, w as int, y, x);
    }
    if column_of(i, w) == x && row_of(i, w) == y {
        vstd::arithmetic::div_mod::lemma_fundamental_div_mod(p, w as int);
        assert(w as int * y == y * w) by (nonlinear_arith);
        assert(p == q);
    }
}

/// A pixel of the frame lies in its bytes.
pub proof fn lemma_in_frame(x: int, y: int, w: u32, h: u32)
    requires
        0 <= x < w,
        0 <= y < h,
    ensures
        0 <= y * w + x,
        4 * (y * w + x) + 4 <= w * h * 4,
{
    assert(0 <= y * w) by (nonlinear_arith)
        requires
            0 <= y,
            0 <= w,
    ;
    assert(y * w + x + 1 <= w * h) by (nonlinear_arith)
        requires
            0 <= x < w,
            0 <= y < h,
    ;
}

/// Gives one pixel the hint colour.
fn paint_pixel(rgba: &mut [u8], w: u32, h: u32, x: u32, y: u32)
    requires
        old(rgba)@.len() == w * h * 4,
        x < w,
        y < h,
    ensures
        final(rgba)@ == Seq::new(
            old(rgba)@.len(),
            |i: int|
                if column_of(i, w) == x && row_of(i, w) == y {
                    hint_byte(i % 4)
                } else {
                    old(rgba)@[i]
                },
        ),
{
    let ghost before = rgba@;
    let total: usize = rgba.len();
    proof {
        lemma_in_frame(x as int, y as int, w, h);
        assert forall|i: int| 0 <= i < before.len() implies ((column_of(i, w) == x && #[trigger] row_of(
            i,
            w,
        ) == y) <==> 4 * (y * w + x) <= i < 4 * (y * w + x) + 4) by {
            lemma_pixel(i, x as int, y as int, w);
        }
        assert(y * w >= 0) by (nonlinear_arith)
            requires
                y >= 0,
                w >= 0,
        ;
    }
    let i: usize = (y as usize * w as usize + x as usize) * 4;
    rgba[i] = HINT_RGB[0];
    rgba[i + 1] = HINT_RGB[1];
    rgba[i + 2] = HINT_RGB[2];
    rgba[i + 3] = 255;
    proof {
        let want = Seq::new(
            before.len(),
            |j: int|
                if column_of(j, w) == x && row_of(j, w) == y {
                    hint_byte(j % 4)
                } else {
                    before[j]
                },
        );
        assert forall|j: int| 0 <= j < before.len() implies rgba@[j] == #[trigger] want[j] by {
            lemma_pixel(j, x as int, y as int, w);
        }
        assert(rgba@ =~= want);
    }
}

/// The frame's bytes while the boxes before `k` are painted, and of box `k` the
/// rows above `y` and the columns before `x` of row `y`.
spec fn in_progress(
    rgba: Seq<u8>,
    w: u32,
    h: u32,
    dev_w: u32,
    dev_h: u32,
    boxes: Seq<HintBox>,
    k: int,
    y: int,
    x: int,
) -> Seq<u8> {
    Seq::new(
        rgba.len(),
        |i: int|
            {
                let px = column_of(i, w);
                let py = row_of(i, w);
                if covered(boxes.take(k), px, py, w, h, dev_w, dev_h) || (covers(
                    boxes[k],
                    px,
                    py,
                    w,
                    h,
                    dev_w,
                    dev_h,
                ) && (py < y || (py == y && px < x))) {
                    hint_byte(i % 4)
                } else {
                    rgba[i]
                }
            },
    )
}

/// Each byte belongs to a pixel of the frame.
proof fn lemma_bounds(i: int, w: u32, h: u32)
    requires
        0 <= i < w * h * 4,
    ensures
        0 <= column_of(i, w) < w,
        0 <= row_of(i, w) < h,
{
    assert(w > 0) by (nonlinear_arith)
        requires
            0 <= i < w * h * 4,
            w >= 0,
    ;
    let p = i / 4;
    assert(p < w * h) by (nonlinear_arith)
        requires
            i < w * h * 4,
            p == i / 4,
    ;
    assert(0 <= p % (w as int) < w) by (nonlinear_arith)
        requires
            w > 0,
    ;
    assert(0 <= p / (w as int) < h) by (nonlinear_arith)
        requires
            0 <= p < w * h,
            w > 0,
    ;
}

/// A pixel that the boxes before `k + 1` cover is covered by one before `k` or
/// by box `k`.
proof fn lemma_covered_next(
    boxes: Seq<HintBox>,
    k: int,
    x: int,
    y: int,
    w: u32,
    h: u32,
    dev_w: u32,
    dev_h: u32,
)
    requires
        0 <= k < boxes.len(),
    ensures
        covered(boxes.take(k + 1), x, y, w, h, dev_w, dev_h) == (covered(
            boxes.take(k),
            x,
            y,
            w,
            h,
            dev_w,
            dev_h,
        ) || covers(boxes[k], x, y, w, h, dev_w, dev_h)),
{
    let a = boxes.take(k);
    let b = boxes.take(k + 1);
    if covered(a, x, y, w, h, dev_w, dev_h) {
        let j = choose|j: int|
            0 <= j < a.len() && covers(#[trigger] a[j], x, y, w, h, dev_w, dev_h);
        assert(b[j] == a[j]);
    }
    if covers(boxes[k], x, y, w, h, dev_w, dev_h) {
        assert(b[k] == boxes[k]);
    }
    if covered(b, x, y, w, h, dev_w, dev_h) {
        let j = choose|j: int|
            0 <= j < b.len() && covers(#[trigger] b[j], x, y, w, h, dev_w, dev_h);
        if j < k {
            assert(a[j] == b[j]);
        }
    }
}

/// Paints box `k`.
fn paint_box(
    rgba: &mut [u8],
    w: u32,
    h: u32,
    dev_w: u32,
    dev_h: u32,
    boxes: &[HintBox],
    k: usize,
    Ghost(clean): Ghost<Seq<u8>>,
)
    requires
        dev_w > 0,
        dev_h > 0,
        k < boxes@.len(),
        clean.len() == w * h * 4,
        old(rgba)@ == baked(clean, w, h, dev_w, dev_h, boxes@.take(k as int)),
    ensures
        final(rgba)@ == baked(clean, w, h, dev_w, dev_h, boxes@.take(k + 1)),
{
    let b: HintBox = boxes[k];
    let sx: Ratio = Ratio::new(w, dev_w);
    let sy: Ratio = Ratio::new(h, dev_h);
    let bx: u32 = sx.down(b.x);
    let by: u32 = sy.down(b.y);
    let bw: u32 = sx.up(b.w);
    let bh: u32 = sy.up(b.h);
    let x0: u32 = if bx < w {
        bx
    } else {
        w
    };
    let y0: u32 = if by < h {
        by
    } else {
        h
    };
    let x1: u32 = if (bx as u64 + bw as u64) < w as u64 {
        bx + bw
    } else {
        w
    };
    let y1: u32 = if (by as u64 + bh as u64) < h as u64 {
        by + bh
    } else {
        h
    };
    let ghost inside = |px: int, py: int|
        0 <= px < w && 0 <= py < h ==> (covers(b, px, py, w, h, dev_w, dev_h) <==> x0 <= px < x1
            && y0 <= py < y1);
    assert(forall|px: int, py: int| #[trigger] inside(px, py));
    let mut y: u32 = y0;
    proof {
        let start = in_progress(clean, w, h, dev_w, dev_h, boxes@, k as int, y as int, x0 as int);
        assert forall|i: int| 0 <= i < clean.len() implies rgba@[i] == #[trigger] start[i] by {
            lemma_bounds(i, w, h);
            assert(inside(column_of(i, w), row_of(i, w)));
        }
        assert(rgba@ =~= start);
    }
    while y < y1
        invariant
            clean.len() == w * h * 4,
            x0 <= w,
            x1 <= w,
            y0 <= y,
            y1 <= h,
            k < boxes@.len(),
            b == boxes@[k as int],
            inside == (|px: int, py: int|
                0 <= px < w && 0 <= py < h ==> (covers(b, px, py, w, h, dev_w, dev_h) <==> x0 <= px
                    < x1 && y0 <= py < y1)),
            forall|px: int, py: int| #[trigger] inside(px, py),
            rgba@ == in_progress(
                clean,
                w,
                h,
                dev_w,
                dev_h,
                boxes@,
                k as int,
                y as int,
                x0 as int,
            ),
        decreases y1 - y,
    {
        let mut x: u32 = x0;
        while x < x1
            invariant
                clean.len() == w * h * 4,
                x0 <= x,
                x1 <= w,
                y0 <= y < y1,
                y1 <= h,
                k < boxes@.len(),
                b == boxes@[k as int],
                inside == (|px: int, py: int|
                    0 <= px < w && 0 <= py < h ==> (covers(b, px, py, w, h, dev_w, dev_h) <==> x0
                        <= px < x1 && y0 <= py < y1)),
                forall|px: int, py: int| #[trigger] inside(px, py),
                rgba@ == in_progress(
                    clean,
                    w,
                    h,
                    dev_w,
                    dev_h,
                    boxes@,
                    k as int,
                    y as int,
                    x as int,
                ),
            decreases x1 - x,
        {
            paint_pixel(rgba, w, h, x, y);
            proof {
                let next = in_progress(clean, w, h, dev_w, dev_h, boxes@, k as int, y as int, x + 1);
                assert forall|i: int| 0 <= i < clean.len() implies rgba@[i] == #[trigger] next[i] by {
                    lemma_bounds(i, w, h);
                    assert(inside(column_of(i, w), row_of(i, w)));
                }
                assert(rgba@ =~= next);
            }
            x += 1;
        }
        proof {
            let next = in_progress(clean, w, h, dev_w, dev_h, boxes@, k as int, y + 1, x0 as int);
            assert forall|i: int| 0 <= i < clean.len() implies rgba@[i] == #[trigger] next[i] by {
                lemma_bounds(i, w, h);
                assert(inside(column_of(i, w), row_of(i, w)));
            }
            assert(rgba@ =~= next);
        }
        y += 1;
    }
    proof {
        let done = baked(clean, w, h, dev_w, dev_h, boxes@.take(k + 1));
        assert forall|i: int| 0 <= i < clean.len() implies rgba@[i] == #[trigger] done[i] by {
            lemma_bounds(i, w, h);
            let px = column_of(i, w);
            let py = row_of(i, w);
            assert(inside(px, py));
            lemma_covered_next(boxes@, k as int, px, py, w, h, dev_w, dev_h);
        }
        assert(rgba@ =~= done);
    }
}

/// Paints each box in the hint colour. Boxes are in pixels of the page area
/// (`dev_w` by `dev_h`); the frame (`w` by `h`) may have another size and is
/// stretched over the page area on the screen, so each box is scaled to it.
pub fn bake_boxes(rgba: &mut [u8], w: u32, h: u32, dev_w: u32, dev_h: u32, boxes: &[HintBox])
    requires
        old(rgba)@.len() == w * h * 4,
    ensures
        final(rgba)@ == baked(old(rgba)@, w, h, dev_w, dev_h, boxes@),
{
    if dev_w == 0 || dev_h == 0 {
        return;
    }
    let ghost clean = rgba@;
    let mut k: usize = 0;
    proof {
        assert(boxes@.take(0) =~= Seq::<HintBox>::empty());
        law_no_boxes(clean, w, h, dev_w, dev_h);
    }
    while k < boxes.len()
        invariant
            dev_w > 0,
            dev_h > 0,
            k <= boxes@.len(),
            clean.len() == w * h * 4,
            rgba@ == baked(clean, w, h, dev_w, dev_h, boxes@.take(k as int)),
        decreases boxes@.len() - k,
    {
        paint_box(rgba, w, h, dev_w, dev_h, boxes, k, Ghost(clean));
        k += 1;
    }
    assert(boxes@.take(boxes@.len() as int) =~= boxes@);
}

/// A frame on its way to the terminal: the pixels to write to the named
/// shared-memory object, and the escape that then shows them.
#[derive(Debug)]
pub struct Transmission {
    pub slot: usize,
    pub shm_name: String,
    pub pixels: Vec<u8>,
    pub escape: Vec<u8>,
}

/// What a frame on its way holds.
pub struct Sent {
    pub slot: int,
    pub shm_name: Seq<char>,
    pub pixels: Seq<u8>,
    pub escape: Seq<u8>,
}

impl View for Transmission {
    type V = Sent;

    open spec fn view(&self) -> Sent {
        Sent {
            slot: self.slot as int,
            shm_name: self.shm_name@,
            pixels: self.pixels@,
            escape: self.escape@,
        }
    }
}

/// What an optional frame on its way holds.
pub open spec fn sent(t: Option<Transmission>) -> Option<Sent> {
    match t {
        Some(t) => Some(t@),
        None => None,
    }
}

/// What a renderer holds.
pub struct RendererView {
    pub gfx: KittyGraphics,
    pub names: Seq<Seq<char>>,
    pub payloads: Seq<Seq<char>>,
    pub slot: int,
    pub last_frame: Option<Picture>,
    pub hint_boxes: Seq<HintBox>,
    pub grid: GridSize,
    pub cell: CellSize,
}

impl RendererView {
    /// There is a slot to write next, every slot has a name of its own whose
    /// payload decodes to it, and the cached frame is whole.
    pub open spec fn wf(self) -> bool {
        &&& self.names.len() == SHM_POOL
        &&& self.payloads.len() == SHM_POOL
        &&& 0 <= self.slot < SHM_POOL
        &&& forall|i: int, j: int|
            0 <= i < j < SHM_POOL ==> #[trigger] self.names[i] != #[trigger] self.names[j]
        &&& forall|i: int|
            0 <= i < SHM_POOL ==> shm::valid_name(#[trigger] self.names[i])
        &&& forall|i: int|
            0 <= i < SHM_POOL ==> crate::encoding::base64_decoded(#[trigger] self.payloads[i])
                == Some(encode_utf8(self.names[i]))
        &&& self.last_frame matches Some(f) ==> f.wf()
    }

    /// The page area, in pixels: all rows but the last.
    pub open spec fn page(self) -> geometry::Viewport {
        geometry::viewport_of(self.grid, self.cell, 1)
    }

    /// The rows of the page area.
    pub open spec fn page_rows(self) -> u16 {
        if self.grid.rows >= 1 {
            (self.grid.rows - 1) as u16
        } else {
            0
        }
    }

    /// The frame with the boxes that are shown.
    pub open spec fn boxed(self, f: Picture) -> Seq<u8> {
        baked(
            f.pixels,
            f.width,
            f.height,
            self.page().width_px,
            self.page().height_px,
            self.hint_boxes,
        )
    }

    /// A frame sent through the slot whose turn it is: the cursor goes home, and
    /// the frame is shown over the page area.
    pub open spec fn transmitted(self, pixels: Seq<u8>, width: u32, height: u32) -> Sent {
        Sent {
            slot: self.slot,
            shm_name: self.names[self.slot],
            pixels,
            escape: encode_utf8(
                "\x1b[1;1H"@ + graphics::transmit_text(
                    self.gfx,
                    self.payloads[self.slot],
                    width,
                    height,
                    self.grid.cols,
                    self.page_rows(),
                ),
            ),
        }
    }

    /// The renderer with the next slot's turn.
    pub open spec fn turned(self) -> RendererView {
        RendererView { slot: (self.slot + 1) % (SHM_POOL as int), ..self }
    }

    /// What presenting a decoded frame sends, and the renderer then: the clean
    /// frame is cached, and shown with the boxes. What cannot be decoded is
    /// skipped.
    pub open spec fn presented(self, f: Option<Picture>) -> (RendererView, Option<Sent>) {
        match f {
            Some(f) => (
                RendererView { last_frame: Some(f), ..self.turned() },
                Some(self.transmitted(self.boxed(f), f.width, f.height)),
            ),
            None => (self, None),
        }
    }

    /// What showing the cached frame again sends, and the renderer then.
    pub open spec fn rerendered(self) -> (RendererView, Option<Sent>) {
        match self.last_frame {
            Some(f) => (
                self.turned(),
                Some(self.transmitted(self.boxed(f), f.width, f.height)),
            ),
            None => (self, None),
        }
    }

    /// The renderer with other boxes.
    pub open spec fn with_boxes(self, boxes: Seq<HintBox>) -> RendererView {
        RendererView { hint_boxes: boxes, ..self }
    }
}

/// Shows frames, with or without hint boxes.
#[derive(Debug)]
pub struct Renderer {
    gfx: KittyGraphics,
    shms: Vec<Shm>,
    shm_idx: usize,
    /// The last frame, clean, to be shown again when the hints change: the page
    /// is mostly static while a hint is picked.
    last_frame: Option<Rgba>,
    /// The boxes on the frame that is shown, painted on every frame that comes.
    hint_boxes: Vec<HintBox>,
    grid: GridSize,
    cell: CellSize,
}

impl View for Renderer {
    type V = RendererView;

    closed spec fn view(&self) -> RendererView {
        RendererView {
            gfx: self.gfx,
            names: self.shms@.map_values(|s: Shm| s.name_view()),
            payloads: self.shms@.map_values(|s: Shm| s.payload()),
            slot: self.shm_idx as int,
            last_frame: picture(self.last_frame),
            hint_boxes: self.hint_boxes@,
            grid: self.grid,
            cell: self.cell,
        }
    }
}

impl Renderer {
    /// A renderer that has shown nothing, for the process `pid`.
    pub fn new(grid: GridSize, cell: CellSize, pid: u32) -> (r: Renderer)
        ensures
            r@.wf(),
            r@.gfx == (KittyGraphics { image_id: IMAGE_ID, placement_id: 1 }),
            r@.names == Seq::new(SHM_POOL as nat, |i: int| shm::slot_name(pid, i as u8)),
            r@.payloads == r@.names.map_values(
                |n: Seq<char>| crate::encoding::base64_encoded(encode_utf8(n)),
            ),
            r@.slot == 0,
            r@.last_frame is None,
            r@.hint_boxes == Seq::<HintBox>::empty(),
            r@.grid == grid,
            r@.cell == cell,
    {
        let mut shms: Vec<Shm> = Vec::new();
        let mut i: u8 = 0;
        while (i as usize) < SHM_POOL
            invariant
                i <= SHM_POOL,
                shms@.len() == i,
                forall|k: int|
                    0 <= k < i ==> (#[trigger] shms@[k]).wf() && shms@[k].name_view()
                        == shm::slot_name(pid, k as u8),
            decreases SHM_POOL - i,
        {
            shms.push(Shm::for_slot(pid, i));
            i += 1;
        }
        let r = Renderer {
            gfx: KittyGraphics::new(IMAGE_ID),
            shms,
            shm_idx: 0,
            last_frame: None,
            hint_boxes: Vec::new(),
            grid,
            cell,
        };
        proof {
            assert(r@.names =~= Seq::new(SHM_POOL as nat, |i: int| shm::slot_name(pid, i as u8)));
            assert forall|i: int, j: int| 0 <= i < j < SHM_POOL implies #[trigger] r@.names[i]
                != #[trigger] r@.names[j] by {
                shm::law_slots_distinct(pid, i as u8, j as u8);
            }
            assert forall|i: int| 0 <= i < SHM_POOL implies crate::encoding::base64_decoded(
                #[trigger] r@.payloads[i],
            ) == Some(encode_utf8(r@.names[i])) by {
                assert(shms@[i].wf());
            }
            assert forall|i: int| 0 <= i < SHM_POOL implies shm::valid_name(
                #[trigger] r@.names[i],
            ) by {
                assert(shms@[i].wf());
            }
            let want = r@.names.map_values(
                |n: Seq<char>| crate::encoding::base64_encoded(encode_utf8(n)),
            );
            assert forall|i: int| 0 <= i < SHM_POOL implies r@.payloads[i] == #[trigger] want[i] by {
                assert(shms@[i].wf());
            }
            assert(r@.payloads =~= want);
        }
        r
    }

    /// Takes over a new size of the terminal.
    pub fn resize(&mut self, grid: GridSize, cell: CellSize)
        ensures
            final(self)@ == (RendererView { grid, cell, ..old(self)@ }),
    {
        self.grid = grid;
        self.cell = cell;
    }

    /// Decodes a frame, caches it and shows it with the boxes. A frame that
    /// cannot be decoded is skipped: the one before stays on the screen.
    pub fn present_jpeg_bytes(&mut self, jpeg: &[u8]) -> (r: Option<Transmission>)
        requires
            old(self)@.wf(),
        ensures
            final(self)@.wf(),
            (final(self)@, sent(r)) == old(self)@.presented(decoded_image(jpeg@)),
    {
        self.present_decoded(decode_image(jpeg))
    }

    /// Caches a decoded frame and shows it with the boxes.
    pub fn present_decoded(&mut self, frame: Option<Rgba>) -> (r: Option<Transmission>)
        requires
            old(self)@.wf(),
            frame matches Some(f) ==> f@.wf(),
        ensures
            final(self)@.wf(),
            (final(self)@, sent(r)) == old(self)@.presented(picture(frame)),
    {
        match frame {
            Some(f) => {
                self.last_frame = Some(f);
                self.rerender_cached()
            },
            None => None,
        }
    }

    /// The page area in pixels, the space of the hint boxes.
    pub fn dev_grid(&self) -> (r: (u32, u32))
        ensures
            r.0 == self@.page().width_px,
            r.1 == self@.page().height_px,
    {
        let vp: geometry::Viewport = geometry::page_viewport(self.grid, self.cell, 1);
        (vp.width_px, vp.height_px)
    }

    /// Shows `boxes` as the backgrounds of hint labels, on the cached frame at
    /// once.
    pub fn set_hint_boxes(&mut self, boxes: Vec<HintBox>) -> (r: Option<Transmission>)
        requires
            old(self)@.wf(),
        ensures
            final(self)@.wf(),
            (final(self)@, sent(r)) == old(self)@.with_boxes(boxes@).rerendered(),
    {
        self.hint_boxes = boxes;
        self.rerender_cached()
    }

    /// Takes all boxes away and shows the clean cached frame; without boxes
    /// there is nothing to do.
    pub fn clear_hint_boxes(&mut self) -> (r: Option<Transmission>)
        requires
            old(self)@.wf(),
        ensures
            final(self)@.wf(),
            (final(self)@, sent(r)) == if old(self)@.hint_boxes.len() == 0 {
                (old(self)@, None)
            } else {
                old(self)@.with_boxes(Seq::empty()).rerendered()
            },
    {
        if self.hint_boxes.len() == 0 {
            return None;
        }
        self.hint_boxes = Vec::new();
        self.rerender_cached()
    }

    /// Shows the cached frame again, with the boxes.
    pub fn rerender_cached(&mut self) -> (r: Option<Transmission>)
        requires
            old(self)@.wf(),
        ensures
            final(self)@.wf(),
            (final(self)@, sent(r)) == old(self)@.rerendered(),
    {
        let (dw, dh) = self.dev_grid();
        let (mut pixels, w, h) = match &self.last_frame {
            Some(f) => {
                let copy: Vec<u8> = f.pixels.clone();
                assert(copy@ =~= f.pixels@);
                (copy, f.width, f.height)
            },
            None => return None,
        };
        bake_boxes(&mut pixels, w, h, dw, dh, self.hint_boxes.as_slice());
        Some(self.transmit(pixels, w, h))
    }

    /// Sends pixels through the slot whose turn it is: the cursor goes home and
    /// the frame is stretched over the page area.
    pub fn transmit(&mut self, pixels: Vec<u8>, w: u32, h: u32) -> (r: Transmission)
        requires
            old(self)@.wf(),
        ensures
            final(self)@ == old(self)@.turned(),
            r@ == old(self)@.transmitted(pixels@, w, h),
    {
        let cols: u16 = self.grid.cols;
        let page_rows: u16 = self.grid.rows.saturating_sub(1);
        let slot: usize = self.shm_idx;
        let shm: &Shm = &self.shms[slot];
        let home: String = "\x1b[1;1H".to_string();
        let show: Vec<u8> = self.gfx.transmit_shm(shm.name_base64(), w, h, cols, page_rows);
        let mut escape: Vec<u8> = home.into_bytes();
        escape.extend_from_slice(show.as_slice());
        let shm_name: String = shm.name().to_string();
        proof {
            crate::text::lemma_encode_concat(
                "\x1b[1;1H"@,
                graphics::transmit_text(self.gfx, shm.payload(), w, h, cols, page_rows),
            );
            assert(self@.names[slot as int] == shm.name_view());
            assert(self@.payloads[slot as int] == shm.payload());
            assert(escape@ =~= self@.transmitted(pixels@, w, h).escape);
        }
        self.shm_idx = if slot + 1 < SHM_POOL {
            slot + 1
        } else {
            0
        };
        Transmission { slot, shm_name, pixels, escape }
    }

    /// The escape that takes the frame off the screen.
    pub fn clear(&self) -> (r: Vec<u8>)
        ensures
            r@ == encode_utf8(graphics::delete_text(self@.gfx)),
    {
        self.gfx.delete_all()
    }
}

/// Showing boxes and clearing them again gives back the frame as it came: the
/// cached frame is never painted on.
pub proof fn law_hints_leave_no_trace(s: RendererView, boxes: Seq<HintBox>)
    requires
        s.wf(),
        s.last_frame is Some,
    ensures
        ({
            let shown = s.with_boxes(boxes).rerendered().0;
            let cleared = shown.with_boxes(Seq::empty()).rerendered();
            &&& cleared.0.last_frame == s.last_frame
            &&& cleared.1 is Some
            &&& cleared.1->0.pixels == s.last_frame->0.pixels
        }),
{
    let f = s.last_frame->0;
    law_no_boxes(f.pixels, f.width, f.height, s.page().width_px, s.page().height_px);
}

/// The renderer after `n` more frames have been sent.
pub open spec fn turned_times(s: RendererView, n: nat) -> RendererView
    decreases n,
{
    if n == 0 {
        s
    } else {
        turned_times(s, (n - 1) as nat).turned()
    }
}

/// An object that was written is not written again for the next frames, as many
/// as there are other slots: the terminal can finish reading it.
pub proof fn law_slot_rests(s: RendererView, n: nat)
    requires
        s.wf(),
        0 < n < SHM_POOL,
    ensures
        turned_times(s, n).wf(),
        turned_times(s, n).names == s.names,
        turned_times(s, n).slot != s.slot,
        turned_times(s, n).names[turned_times(s, n).slot] != s.names[s.slot],
{
    reveal_with_fuel(turned_times, 4);
    let t = turned_times(s, n);
    assert(t.slot != s.slot);
    if t.slot < s.slot {
        assert(s.names[t.slot] != s.names[s.slot]);
    } else {
        assert(s.names[s.slot] != s.names[t.slot]);
    }
}

} // verus!
