use webcat::geometry::{cell_to_pixel, page_viewport, CellSize, GridSize, HalfPx};

fn px(v: HalfPx) -> f64 {
    v.halves as f64 / 2.0
}

#[test]
fn viewport_excludes_status_rows() {
    let vp = page_viewport(GridSize { cols: 100, rows: 30 }, CellSize { w: 8, h: 16 }, 1);
    assert_eq!(vp.width_px, 800);
    assert_eq!(vp.height_px, 29 * 16);
}

#[test]
fn cell_center_maps_to_pixel_center() {
    // col 0,row 0 center -> (4, 8) for an 8x16 cell.
    let (x, y) = cell_to_pixel(0, 0, CellSize { w: 8, h: 16 });
    assert_eq!((px(x), px(y)), (4.0, 8.0));
    let (x, y) = cell_to_pixel(2, 1, CellSize { w: 8, h: 16 });
    assert_eq!((px(x), px(y)), (20.0, 24.0));
}

#[test]
fn odd_cells_have_half_pixels() {
    let (x, y) = cell_to_pixel(65535, 3, CellSize { w: 7, h: 15 });
    assert_eq!((px(x), px(y)), (65535.0 * 7.0 + 3.5, 3.0 * 15.0 + 7.5));
}

#[test]
fn viewport_edge_cases() {
    let all = GridSize { cols: 65535, rows: 65535 };
    let vp = page_viewport(all, CellSize { w: 65535, h: 65535 }, 1);
    assert_eq!((vp.width_px, vp.height_px), (65535 * 65535, 65534 * 65535));
    assert_eq!(page_viewport(GridSize { cols: 3, rows: 1 }, CellSize { w: 2, h: 9 }, 2).height_px, 0);
}
