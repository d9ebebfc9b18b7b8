use base64::Engine;
use webcat::geometry::{CellSize, GridSize};
use webcat::renderer::graphics::KittyGraphics;
use webcat::renderer::scale::Ratio;
use webcat::renderer::shm::{Shm, ShmCall};
use webcat::renderer::{bake_boxes, HintBox, Renderer, Rgba, Transmission, HINT_RGB, SHM_POOL};

fn payload_of(bytes: &[u8]) -> String {
    String::from_utf8(bytes.to_vec()).unwrap()
}

fn escape_of(t: Option<Transmission>) -> Vec<u8> {
    t.map(|t| t.escape).unwrap_or_default()
}

fn renderer() -> Renderer {
    Renderer::new(GridSize { cols: 80, rows: 24 }, CellSize { w: 8, h: 16 }, 4242)
}

/// Encode a tiny solid-color image to JPEG bytes for use as a fake frame.
fn tiny_jpeg() -> Vec<u8> {
    let img = image::RgbImage::from_pixel(4, 4, image::Rgb([10, 20, 30]));
    let mut buf = std::io::Cursor::new(Vec::new());
    img.write_to(&mut buf, image::ImageFormat::Jpeg).unwrap();
    buf.into_inner()
}

#[test]
fn transmit_shm_emits_rgba_shared_memory_escape() {
    let g = KittyGraphics::new(7);
    let out = payload_of(&g.transmit_shm("YmFzZTY0", 1144, 880, 80, 24));
    assert!(out.starts_with("\x1b_G"), "missing APC opener: {out:?}");
    assert!(out.contains("f=32"), "missing RGBA format");
    assert!(out.contains("t=s"), "missing shared-memory transmission");
    assert!(out.contains("s=1144"), "missing pixel width");
    assert!(out.contains("v=880"), "missing pixel height");
    assert!(out.contains("a=T"), "missing transmit+display action");
    assert!(out.contains("z=-1"), "image must sit below the text layer");
    assert!(out.contains("c=80") && out.contains("r=24"), "missing cell-scaling span");
    assert!(out.contains("i=7"), "missing image id");
    assert!(out.contains("q=0"), "must request a response for backpressure");
    // Payload is the base64 shm name after ';', then ST.
    assert!(out.ends_with(";YmFzZTY0\x1b\\"), "payload must be the shm name: {out:?}");
    // A single, compact escape — no pixel data in the pipe.
    assert_eq!(out.matches("\x1b_G").count(), 1);
}

#[test]
fn delete_all_targets_image_id() {
    let g = KittyGraphics::new(42);
    let out = payload_of(&g.delete_all());
    assert!(out.contains("a=d"), "missing delete action");
    assert!(out.contains("i=42"), "missing image id");
    assert!(out.ends_with("\x1b\\"));
}

#[test]
fn escapes_are_exact() {
    let g = KittyGraphics::new(1);
    assert_eq!(
        payload_of(&g.transmit_shm("x", 10, 200, 3, 0)),
        "\x1b_Gf=32,t=s,s=10,v=200,a=T,i=1,p=1,z=-1,c=3,r=0,q=0;x\x1b\\"
    );
    assert_eq!(payload_of(&g.delete_all()), "\x1b_Ga=d,d=i,i=1,q=2;\x1b\\");
}

#[test]
fn present_positions_cursor_then_transmits_from_shm() {
    let mut r = renderer();
    let out = String::from_utf8(escape_of(r.present_jpeg_bytes(&tiny_jpeg()))).unwrap();
    // Cursor home (row1,col1) before the graphics block.
    let home_idx = out.find("\x1b[1;1H").expect("cursor home missing");
    let gfx_idx = out.find("\x1b_G").expect("graphics block missing");
    assert!(home_idx < gfx_idx, "cursor must be positioned before placement");
    assert!(out.contains("t=s"), "frame must be sent via shared memory");
    assert!(out.contains("f=32"), "frame must be RGBA");
}

#[test]
fn present_skips_invalid_jpeg() {
    let mut r = renderer();
    // Not a JPEG: decode fails, frame skipped (empty output, no panic).
    let out = escape_of(r.present_jpeg_bytes(&[0x00, 0x01, 0x02, 0x03]));
    assert!(out.is_empty());
}

#[test]
fn present_decodes_pixels() {
    let mut r = renderer();
    let t = r.present_jpeg_bytes(&tiny_jpeg()).unwrap();
    assert_eq!(t.pixels.len(), 4 * 4 * 4);
    for px in t.pixels.chunks(4) {
        assert!(px[0].abs_diff(10) < 8 && px[1].abs_diff(20) < 8 && px[2].abs_diff(30) < 8);
        assert_eq!(px[3], 255);
    }
    assert!(payload_of(&t.escape).contains("s=4,v=4,"));
    assert!(payload_of(&t.escape).contains("c=80,r=23,"));
}

#[test]
fn bake_boxes_fills_rect_and_clamps() {
    // 4x4 RGBA, all black/opaque.
    let mut rgba = vec![0u8; 4 * 4 * 4];
    for px in rgba.chunks_mut(4) {
        px[3] = 255;
    }
    // device grid == frame (4x4) so boxes map 1:1. A 2x2 box at (1,1) plus
    // one that overflows the right/bottom edge.
    bake_boxes(&mut rgba, 4, 4, 4, 4, &[
        HintBox { x: 1, y: 1, w: 2, h: 2 },
        HintBox { x: 3, y: 3, w: 10, h: 10 },
    ]);
    let at = |x: u32, y: u32| {
        let i = ((y * 4 + x) * 4) as usize;
        [rgba[i], rgba[i + 1], rgba[i + 2]]
    };
    assert_eq!(at(1, 1), HINT_RGB, "box interior filled");
    assert_eq!(at(2, 2), HINT_RGB, "box interior filled");
    assert_eq!(at(0, 0), [0, 0, 0], "outside box untouched");
    assert_eq!(at(3, 3), HINT_RGB, "overflowing box clamped, corner filled");
}

#[test]
fn bake_boxes_scales_device_to_frame() {
    // Frame is half the device grid: a box at device (4,4,4x4) -> frame (2,2,2x2).
    let mut rgba = vec![0u8; 8 * 8 * 4];
    for px in rgba.chunks_mut(4) {
        px[3] = 255;
    }
    bake_boxes(&mut rgba, 8, 8, 16, 16, &[HintBox { x: 4, y: 4, w: 4, h: 4 }]);
    let at = |x: u32, y: u32| {
        let i = ((y * 8 + x) * 4) as usize;
        [rgba[i], rgba[i + 1], rgba[i + 2]]
    };
    assert_eq!(at(2, 2), HINT_RGB, "scaled box interior filled");
    assert_eq!(at(0, 0), [0, 0, 0], "outside scaled box untouched");
}

#[test]
fn bake_boxes_paints_what_doubles_paint() {
    let reference = |rgba: &mut [u8], w: u32, h: u32, dev_w: u32, dev_h: u32, boxes: &[HintBox]| {
        let sx = w as f64 / dev_w as f64;
        let sy = h as f64 / dev_h as f64;
        for b in boxes {
            let bx = (b.x as f64 * sx) as u32;
            let by = (b.y as f64 * sy) as u32;
            let bw = (b.w as f64 * sx).ceil() as u32;
            let bh = (b.h as f64 * sy).ceil() as u32;
            for y in by.min(h)..(by + bh).min(h) {
                for x in bx.min(w)..(bx + bw).min(w) {
                    let i = ((y * w + x) * 4) as usize;
                    rgba[i..i + 3].copy_from_slice(&HINT_RGB);
                    rgba[i + 3] = 255;
                }
            }
        }
    };
    for (w, h, dw, dh) in [(49u32, 30u32, 100u32, 7u32), (1, 98, 49, 98), (33, 21, 99, 63), (5, 5, 3, 2)] {
        let boxes = [
            HintBox { x: dw / 3, y: dh / 2, w: dw / 4 + 1, h: 1 },
            HintBox { x: dw - 1, y: 0, w: 9, h: dh },
        ];
        let mut a: Vec<u8> = (0..w * h * 4).map(|i| (i % 251) as u8).collect();
        let mut b = a.clone();
        bake_boxes(&mut a, w, h, dw, dh, &boxes);
        reference(&mut b, w, h, dw, dh, &boxes);
        assert_eq!(a, b, "{w} {h} {dw} {dh}");
        let once = a.clone();
        bake_boxes(&mut a, w, h, dw, dh, &boxes);
        assert_eq!(a, once, "painting again changes nothing");
    }
    let mut a = vec![1u8; 16];
    bake_boxes(&mut a, 2, 2, 0, 5, &[HintBox { x: 0, y: 0, w: 2, h: 2 }]);
    assert_eq!(a, vec![1u8; 16]);
}

#[test]
fn ratio_scales_as_doubles_do() {
    let check = |x: u32, n: u32, d: u32| {
        let s = n as f64 / d as f64;
        let r = Ratio::new(n, d);
        assert_eq!(r.down(x), (x as f64 * s) as u32, "{x} * {n} / {d}");
        assert_eq!(r.up(x), (x as f64 * s).ceil() as u32, "{x} * {n} / {d}");
    };
    for d in 1..130 {
        for n in 0..130 {
            for x in [0, 1, 2, 3, 7, 48, 49, 50, 97, 98, 1000, d, 2 * d, 49 * d] {
                check(x, n, d);
            }
        }
    }
    let mut seed: u64 = 88172645463325252;
    for _ in 0..200_000 {
        seed ^= seed << 13;
        seed ^= seed >> 7;
        seed ^= seed << 17;
        let shift = (seed >> 58) as u32 % 32;
        let n = (seed as u32) >> shift;
        let d = (((seed >> 20) as u32) >> (shift / 2)).max(1);
        check((seed >> 11) as u32, n, d);
        check(((seed >> 30) as u32) >> 20, n, d);
    }
    check(u32::MAX, u32::MAX, 1);
    check(u32::MAX, 1, u32::MAX);
    check(u32::MAX, u32::MAX, u32::MAX);
}

#[test]
fn clear_hint_boxes_is_noop_when_none() {
    let mut r = renderer();
    assert!(escape_of(r.clear_hint_boxes()).is_empty(), "no boxes -> nothing to redraw");
}

#[test]
fn clear_emits_delete() {
    let r = renderer();
    let out = String::from_utf8(r.clear()).unwrap();
    assert!(out.contains("a=d"));
}

#[test]
fn hints_leave_no_trace() {
    let mut r = Renderer::new(GridSize { cols: 2, rows: 3 }, CellSize { w: 2, h: 1 }, 1);
    assert_eq!(r.dev_grid(), (4, 2));
    assert!(r.set_hint_boxes(vec![HintBox { x: 0, y: 0, w: 1, h: 1 }]).is_none(), "no frame yet");
    let clean: Vec<u8> = (0..4 * 2 * 4).collect();
    let t = r.present_decoded(Some(Rgba { pixels: clean.clone(), width: 4, height: 2 })).unwrap();
    assert_eq!(t.pixels[..4], [255, 204, 0, 255], "boxes are painted on new frames");
    assert_eq!(t.pixels[4..], clean[4..]);
    let t = r.set_hint_boxes(vec![HintBox { x: 1, y: 1, w: 1, h: 1 }]).unwrap();
    assert_eq!(t.pixels[..4], clean[..4], "old boxes are gone");
    assert_eq!(t.pixels[20..24], [255, 204, 0, 255]);
    let t = r.clear_hint_boxes().unwrap();
    assert_eq!(t.pixels, clean);
    r.resize(GridSize { cols: 9, rows: 9 }, CellSize { w: 1, h: 1 });
    assert_eq!(r.dev_grid(), (9, 8));
    assert!(r.present_decoded(None).is_none());
    assert_eq!(r.rerender_cached().unwrap().pixels, clean, "a bad frame leaves the cache alone");
}

#[test]
fn slots_are_written_in_turn() {
    let mut r = renderer();
    let names: Vec<String> = (0..8)
        .map(|_| r.present_jpeg_bytes(&tiny_jpeg()).unwrap().shm_name)
        .collect();
    assert_eq!(names[0], "/webcat_4242_0");
    for i in 0..8 {
        assert_eq!(names[i], names[i % SHM_POOL]);
        for j in 0..i % SHM_POOL {
            assert_ne!(names[i], names[j]);
        }
    }
}

#[test]
fn name_is_valid_posix_shm() {
    let shm = Shm::new(u32::MAX);
    assert!(shm.name().starts_with('/'));
    assert!(shm.name().len() <= 31, "name too long for macOS PSHMNAMLEN");
    // base64 of the name decodes back to the name.
    let decoded = base64::engine::general_purpose::STANDARD
        .decode(shm.name_base64())
        .unwrap();
    assert_eq!(decoded, shm.name().as_bytes());
}

#[test]
fn slot_names_are_short_and_distinct() {
    let a = Shm::for_slot(u32::MAX, 255);
    assert_eq!(a.name(), "/webcat_4294967295_255");
    assert!(a.name().len() <= 31);
    assert_eq!(Shm::new(7).name(), "/webcat_7");
    assert_eq!(Shm::new(7).name_base64(), "L3dlYmNhdF83");
}

#[test]
fn shm_write_cleans_up() {
    for mask in 0..128u32 {
        let mut call = ShmCall::first();
        let (mut fd, mut map, mut name) = (false, false, false);
        let mut steps = 0;
        while call != ShmCall::Written && call != ShmCall::Failed {
            let ok = mask >> steps & 1 == 1;
            match call {
                ShmCall::Open if ok => {
                    fd = true;
                    name = true;
                }
                ShmCall::MapMemory if ok => map = true,
                ShmCall::Unmap => map = false,
                ShmCall::Close | ShmCall::CloseFailed => fd = false,
                ShmCall::UnlinkStale | ShmCall::UnlinkFailed => name = false,
                _ => {}
            }
            call = call.next(ok);
            steps += 1;
        }
        assert!(steps <= 7);
        assert!(!fd && !map);
        assert_eq!(name, call == ShmCall::Written);
    }
}

#[test]
fn boxes_on_a_frame_of_equal_size_stay_in_place() {
    for size in [1u32, 3, 7, 49, 100] {
        let mut rgba = vec![0u8; (size * size * 4) as usize];
        let b = HintBox { x: size / 3, y: size / 2, w: 2, h: 1 };
        bake_boxes(&mut rgba, size, size, size, size, &[b]);
        for y in 0..size {
            for x in 0..size {
                let inside = b.x <= x && x < b.x + b.w && b.y <= y && y < b.y + b.h;
                assert_eq!(rgba[((y * size + x) * 4) as usize] == 255, inside, "{x},{y} of {size}");
            }
        }
    }
}
