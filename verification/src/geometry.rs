//! Cells, pixels and the page's share of the terminal.

use vstd::prelude::*;

verus! {

/// The size of one terminal cell, in pixels.
#[derive(Debug, Clone, Copy, PartialEq, Eq, Structural)]
pub struct CellSize {
    pub w: u16,
    pub h: u16,
}

/// The size of the terminal, in cells.
#[derive(Debug, Clone, Copy, PartialEq, Eq, Structural)]
pub struct GridSize {
    pub cols: u16,
    pub rows: u16,
}

/// The size of the page, in pixels.
#[derive(Debug, Clone, Copy, PartialEq, Eq, Structural)]
pub struct Viewport {
    pub width_px: u32,
    pub height_px: u32,
}

/// A pixel coordinate or distance, counted in half pixels: the centre of a cell
/// of odd size lies between two pixels.
#[derive(Debug, Clone, Copy, PartialEq, Eq, Structural)]
pub struct HalfPx {
    pub halves: i64,
}

impl HalfPx {
    /// `n` whole pixels.
    pub open spec fn whole(n: int) -> HalfPx {
        HalfPx { halves: (2 * n) as i64 }
    }

    /// `n` whole pixels.
    pub fn pixels(n: i32) -> (r: HalfPx)
        ensures
            r == HalfPx::whole(n as int),
    {
        HalfPx { halves: 2 * n as i64 }
    }
}

/// The part of the grid above the status rows, in pixels.
pub open spec fn viewport_of(grid: GridSize, cell: CellSize, status_rows: u16) -> Viewport {
    let page_rows = if grid.rows >= status_rows {
        grid.rows - status_rows
    } else {
        0
    };
    Viewport {
        width_px: (grid.cols * cell.w) as u32,
        height_px: (page_rows * cell.h) as u32,
    }
}

/// The page's pixels: every row but the status rows, every column.
pub fn page_viewport(grid: GridSize, cell: CellSize, status_rows: u16) -> (r: Viewport)
    ensures
        r == viewport_of(grid, cell, status_rows),
        r.width_px == grid.cols * cell.w,
        grid.rows >= status_rows ==> r.height_px == (grid.rows - status_rows) * cell.h,
        grid.rows < status_rows ==> r.height_px == 0,
        r.width_px <= 0xfffe_0001,
        r.height_px <= 0xfffe_0001,
{
    let page_rows: u16 = grid.rows.saturating_sub(status_rows);
    proof {
        lemma_cells_fit(grid.cols, cell.w);
        lemma_cells_fit(page_rows, cell.h);
        assert(page_rows == 0 ==> page_rows * cell.h == 0) by (nonlinear_arith);
    }
    Viewport {
        width_px: grid.cols as u32 * cell.w as u32,
        height_px: page_rows as u32 * cell.h as u32,
    }
}

/// No page is larger than the largest grid of the largest cells.
pub proof fn lemma_viewport_bounded(grid: GridSize, cell: CellSize, status_rows: u16)
    ensures
        viewport_of(grid, cell, status_rows).width_px <= 0xfffe_0001,
        viewport_of(grid, cell, status_rows).height_px <= 0xfffe_0001,
{
    let page_rows: u16 = if grid.rows >= status_rows {
        (grid.rows - status_rows) as u16
    } else {
        0
    };
    lemma_cells_fit(grid.cols, cell.w);
    lemma_cells_fit(page_rows, cell.h);
}

/// The pixels of a row of cells can be counted in 32 bits.
proof fn lemma_cells_fit(n: u16, size: u16)
    ensures
        0 <= n * size <= 0xfffe_0001,
{
    assert(0 <= n * size <= 0xfffe_0001) by (nonlinear_arith)
        requires
            0 <= n <= 0xffff,
            0 <= size <= 0xffff,
    ;
}

/// The centre of the `n`th cell along an axis on which a cell measures `size`.
pub open spec fn cell_center(n: u16, size: u16) -> HalfPx {
    HalfPx { halves: ((2 * n + 1) * size) as i64 }
}

/// The pixel at the centre of a cell: `n * size + size / 2` on either axis.
pub fn cell_to_pixel(col: u16, row: u16, cell: CellSize) -> (r: (HalfPx, HalfPx))
    ensures
        r.0 == cell_center(col, cell.w),
        r.1 == cell_center(row, cell.h),
        r.0.halves == (2 * col + 1) * cell.w,
        r.1.halves == (2 * row + 1) * cell.h,
{
    proof {
        lemma_center_fits(col, cell.w);
        lemma_center_fits(row, cell.h);
    }
    (
        HalfPx { halves: (2 * col as i64 + 1) * cell.w as i64 },
        HalfPx { halves: (2 * row as i64 + 1) * cell.h as i64 },
    )
}

/// The centre of a cell can be counted in 64 bits.
proof fn lemma_center_fits(n: u16, size: u16)
    ensures
        0 <= (2 * n + 1) * size <= 0x2_0000_0000,
{
    assert(0 <= (2 * n + 1) * size <= 0x2_0000_0000) by (nonlinear_arith)
        requires
            0 <= n <= 0xffff,
            0 <= size <= 0xffff,
    ;
}

/// The centre of a cell of the grid lies strictly inside the grid's pixels, as
/// long as a cell has a size.
pub proof fn law_center_inside(n: u16, count: u16, size: u16)
    requires
        n < count,
        size > 0,
    ensures
        0 < cell_center(n, size).halves < 2 * (count * size),
{
    lemma_center_fits(n, size);
    assert(0 < (2 * n + 1) * size < 2 * (count * size)) by (nonlinear_arith)
        requires
            0 <= n < count,
            size > 0,
    ;
}

} // verus!
