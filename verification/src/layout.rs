//! Adaptive multi-panel grid layout.
//!
//! A pure function of the panel count, the viewport size in pixels and
//! the DPI scale: panels fill a grid whose column count is what fits at
//! the minimum panel width, and an incomplete last row widens its panels
//! to fill the full row. Rectangle coordinates are milli-pixels.

use vstd::prelude::*;

verus! {

use crate::fixed::mul_i128;

/// Minimum panel width in pixels at the base DPI.
pub const MIN_BOX_WIDTH: usize = 420;

/// Minimum panel height in pixels at the base DPI.
pub const MIN_BOX_HEIGHT: usize = 200;

/// The DPI at which lengths are given; an actual DPI scales them by
/// `dpi / BASE_DPI`.
pub const BASE_DPI: u32 = 144;

/// Largest panel count the layout accepts.
pub const MAX_PANELS: usize = 1_000_000;

/// Largest viewport edge in pixels the layout accepts.
pub const MAX_VIEWPORT: u32 = 100_000;

/// Largest DPI value the layout accepts.
pub const MAX_DPI: u32 = 10_000;

/// A length in milli-pixels, scaled from the base DPI to `dpi`.
pub open spec fn spec_scaled(v: int, dpi: int) -> int {
    (v * dpi) / (BASE_DPI as int)
}

/// How many columns the viewport gets: as many minimum-width panels as
/// fit, clamped to `[1, n]`.
pub open spec fn spec_columns(n: int, w: int, dpi: int) -> int {
    let fit = (w * (BASE_DPI as int)) / ((MIN_BOX_WIDTH as int) * dpi);
    vstd::math::max(1, vstd::math::min(n, fit))
}

/// How many rows `n` panels need at `cols` columns: the ceiling of
/// `n / cols`.
pub open spec fn spec_rows(n: int, cols: int) -> int {
    (n + cols - 1) / cols
}

/// The panels sharing the row of panel `i`: a full row has `cols`, an
/// incomplete last row only what is left.
pub open spec fn spec_row_panels(n: int, cols: int, i: int) -> int {
    vstd::math::min(cols, (i % cols) + n - i)
}

/// The width of panel `i` in milli-pixels: the viewport width divided
/// among the panels actually sharing its row, so an incomplete last row
/// fills the full row width.
pub open spec fn spec_box_width(n: int, cols: int, w: int, i: int) -> int {
    (w * 1000) / spec_row_panels(n, cols, i)
}

/// The height of every row in milli-pixels.
pub open spec fn spec_box_height(h: int, rows: int) -> int {
    (h * 1000) / rows
}

/// Grid shape for one frame.
#[derive(Clone, Copy, Debug, PartialEq, Eq, Structural)]
pub struct Layout {
    /// Panels per full row.
    pub columns: usize,
    /// Rows the panels occupy.
    pub rows: usize,
}

/// One panel's content rectangle in milli-pixel viewport coordinates,
/// inset by the outer margin on viewport edges and the smaller inner
/// margin on shared edges.
#[derive(Clone, Copy, Debug, PartialEq, Eq, Structural)]
pub struct PanelRect {
    /// Left edge.
    pub x1: i64,
    /// Bottom edge.
    pub y1: i64,
    /// Right edge.
    pub x2: i64,
    /// Top edge.
    pub y2: i64,
}

/// The content rectangle of panel `i`, before margins: cell `(col, row)`
/// of the grid, with the last-row width widening.
pub open spec fn spec_panel_rect(n: int, w: int, h: int, dpi: int, i: int) -> (int, int, int, int) {
    let cols = spec_columns(n, w, dpi);
    let rows = spec_rows(n, cols);
    let px = i % cols;
    let py = i / cols;
    let bw = spec_box_width(n, cols, w, i);
    let bh = spec_box_height(h, rows);
    let outer = spec_scaled(32_000, dpi);
    let inner = spec_scaled(22_000, dpi);
    let x1 = px * bw + if px == 0 {
        outer
    } else {
        inner
    };
    let y1 = py * bh + if py == 0 {
        outer
    } else {
        inner
    };
    let x2 = (px + 1) * bw - if px == cols - 1 || n - i == 1 {
        outer
    } else {
        inner
    };
    let y2 = (py + 1) * bh - if py == rows - 1 {
        outer
    } else {
        inner
    };
    (x1, y1, x2, y2)
}

/// For any panel count `n >= 1` the grid has between one and `n`
/// columns, and enough cells for every panel: `columns * rows >= n`.
pub proof fn lemma_grid_covers(n: int, w: int, dpi: int)
    requires
        n >= 1,
        w >= 1,
        dpi >= 1,
    ensures
        1 <= spec_columns(n, w, dpi) <= n,
        spec_columns(n, w, dpi) * spec_rows(n, spec_columns(n, w, dpi)) >= n,
{
    let cols = spec_columns(n, w, dpi);
    let rows = spec_rows(n, cols);
    vstd::arithmetic::div_mod::lemma_fundamental_div_mod(n + cols - 1, cols);
    let rem = (n + cols - 1) % cols;
    vstd::arithmetic::div_mod::lemma_mod_bound(n + cols - 1, cols);
    assert(cols * rows == n + cols - 1 - rem);
}

/// Computes the grid shape: `clamp(1, n, floor(w / (MIN_BOX_WIDTH *
/// dpi/BASE_DPI)))` columns and `ceil(n / columns)` rows.
pub fn layout(n: usize, w: u32, h: u32, dpi: u32) -> (r: Layout)
    requires
        n <= MAX_PANELS,
        1 <= w <= MAX_VIEWPORT,
        1 <= h <= MAX_VIEWPORT,
        1 <= dpi <= MAX_DPI,
    ensures
        r.columns as int == spec_columns(n as int, w as int, dpi as int),
        r.rows as int == spec_rows(n as int, r.columns as int),
        1 <= r.columns,
        n >= 1 ==> r.columns <= n && r.columns * r.rows >= n,
        n == 0 ==> r.rows == 0,
{
    let fit: u64 = (w as u64 * BASE_DPI as u64) / (MIN_BOX_WIDTH as u64 * dpi as u64);
    let fit_clamped: usize = if fit > n as u64 {
        n
    } else {
        fit as usize
    };
    let columns: usize = if fit_clamped < 1 {
        1
    } else {
        fit_clamped
    };
    let rows: usize = (n + columns - 1) / columns;
    proof {
        if n >= 1 {
            lemma_grid_covers(n as int, w as int, dpi as int);
        }
    }
    Layout { columns, rows }
}

/// Computes panel `i`'s content rectangle in milli-pixel coordinates.
pub fn panel_rect(i: usize, n: usize, w: u32, h: u32, dpi: u32) -> (r: PanelRect)
    requires
        i < n,
        n <= MAX_PANELS,
        1 <= w <= MAX_VIEWPORT,
        1 <= h <= MAX_VIEWPORT,
        1 <= dpi <= MAX_DPI,
    ensures
        (r.x1 as int, r.y1 as int, r.x2 as int, r.y2 as int) == spec_panel_rect(
            n as int,
            w as int,
            h as int,
            dpi as int,
            i as int,
        ),
        -1_000_000_000_000_000 <= r.x1 <= 1_000_000_000_000_000,
        -1_000_000_000_000_000 <= r.y1 <= 1_000_000_000_000_000,
        -1_000_000_000_000_000 <= r.x2 <= 1_000_000_000_000_000,
        -1_000_000_000_000_000 <= r.y2 <= 1_000_000_000_000_000,
{
    let lay: Layout = layout(n, w, h, dpi);
    let cols: usize = lay.columns;
    let rows: usize = lay.rows;
    let px: usize = i % cols;
    let py: usize = i / cols;
    proof {
        vstd::arithmetic::div_mod::lemma_mod_bound(i as int, cols as int);
        vstd::arithmetic::div_mod::lemma_div_pos_is_pos(i as int, cols as int);
        assert(py <= i) by {
            vstd::arithmetic::div_mod::lemma_div_is_ordered_by_denominator(i as int, 1, cols as int);
            vstd::arithmetic::div_mod::lemma_div_basics(i as int);
        }
        assert(rows >= 1) by {
            assert((cols as int) * (rows as int) >= 1 && rows <= 0 ==> (cols as int) * (
            rows as int) <= 0) by (nonlinear_arith);
        }
        assert(py < rows) by {
            vstd::arithmetic::div_mod::lemma_fundamental_div_mod(i as int, cols as int);
            assert((cols as int) * (py as int) <= i);
            if py >= rows {
                assert((cols as int) * (py as int) >= (cols as int) * (rows as int))
                    by (nonlinear_arith)
                    requires
                        py >= rows,
                        cols >= 1,
                ;
                assert(false);
            }
        }
    }
    let row_panels: usize = if cols < px + (n - i) {
        cols
    } else {
        px + (n - i)
    };
    let bw: i64 = ((w as u64 * 1000) / (row_panels as u64)) as i64;
    let bh: i64 = ((h as u64 * 1000) / (rows as u64)) as i64;
    let outer: i64 = scaled_length(32_000, dpi);
    let inner: i64 = scaled_length(22_000, dpi);
    proof {
        assert(bw <= 100_000_000 && bw >= 0) by {
            vstd::arithmetic::div_mod::lemma_div_pos_is_pos((w as int) * 1000, row_panels as int);
            vstd::arithmetic::div_mod::lemma_div_is_ordered_by_denominator(
                (w as int) * 1000,
                1,
                row_panels as int,
            );
            vstd::arithmetic::div_mod::lemma_div_basics((w as int) * 1000);
        }
        assert(bh <= 100_000_000 && bh >= 0) by {
            vstd::arithmetic::div_mod::lemma_div_pos_is_pos((h as int) * 1000, rows as int);
            vstd::arithmetic::div_mod::lemma_div_is_ordered_by_denominator(
                (h as int) * 1000,
                1,
                rows as int,
            );
            vstd::arithmetic::div_mod::lemma_div_basics((h as int) * 1000);
        }
        assert((px as int) * (bw as int) <= 1_000_000 * 100_000_000 && 0 <= (px as int) * (
        bw as int)) by (nonlinear_arith)
            requires
                0 <= px <= 1_000_000,
                0 <= bw <= 100_000_000,
        ;
        assert((px as int + 1) * (bw as int) <= 2_000_000 * 100_000_000 && 0 <= (px as int + 1) * (
        bw as int)) by (nonlinear_arith)
            requires
                0 <= px <= 1_000_000,
                0 <= bw <= 100_000_000,
        ;
        assert((py as int) * (bh as int) <= 1_000_000 * 100_000_000 && 0 <= (py as int) * (
        bh as int)) by (nonlinear_arith)
            requires
                0 <= py <= 1_000_000,
                0 <= bh <= 100_000_000,
        ;
        assert((py as int + 1) * (bh as int) <= 2_000_000 * 100_000_000 && 0 <= (py as int + 1) * (
        bh as int)) by (nonlinear_arith)
            requires
                0 <= py <= 1_000_000,
                0 <= bh <= 100_000_000,
        ;
    }
    let x1: i64 = (mul_i128(px as i128, bw as i128) as i64) + (if px == 0 {
        outer
    } else {
        inner
    });
    let y1: i64 = (mul_i128(py as i128, bh as i128) as i64) + (if py == 0 {
        outer
    } else {
        inner
    });
    let x2: i64 = (mul_i128(px as i128 + 1, bw as i128) as i64) - (if px == cols - 1 || n - i == 1 {
        outer
    } else {
        inner
    });
    let y2: i64 = (mul_i128(py as i128 + 1, bh as i128) as i64) - (if py == rows - 1 {
        outer
    } else {
        inner
    });
    PanelRect { x1, y1, x2, y2 }
}

/// Scales a milli-pixel length from the base DPI to `dpi`, truncating.
pub fn scaled_length(v: i64, dpi: u32) -> (r: i64)
    requires
        0 <= v <= 200_000,
        1 <= dpi <= MAX_DPI,
    ensures
        r as int == spec_scaled(v as int, dpi as int),
        0 <= r <= v * (MAX_DPI as int) / (BASE_DPI as int),
{
    proof {
        assert((v as int) * (dpi as int) <= (v as int) * (MAX_DPI as int) && 0 <= (v as int) * (
        dpi as int)) by (nonlinear_arith)
            requires
                0 <= v,
                1 <= dpi <= MAX_DPI,
        ;
        vstd::arithmetic::div_mod::lemma_div_pos_is_pos((v as int) * (dpi as int), BASE_DPI as int);
        vstd::arithmetic::div_mod::lemma_div_is_ordered(
            (v as int) * (dpi as int),
            (v as int) * (MAX_DPI as int),
            BASE_DPI as int,
        );
    }
    ((v as u64 * dpi as u64) / (BASE_DPI as u64)) as i64
}

} // verus!
