//! Mapping of the fixed logical grid onto a physical window.

use vstd::prelude::*;

verus! {

/// Width of the logical screen in logical pixels.
pub const BASE_WIDTH: u32 = 320;

/// Height of the logical screen in logical pixels.
pub const BASE_HEIGHT: u32 = 200;

/// Width of one glyph cell in logical pixels.
pub const CHAR_WIDTH: u32 = 8;

/// Height of one glyph cell in logical pixels.
pub const CHAR_HEIGHT: u32 = 8;

/// Number of cell columns of the logical grid.
pub const GRID_COLS: u32 = 40;

/// Number of cell rows of the logical grid.
pub const GRID_ROWS: u32 = 25;

/// A destination rectangle in physical pixels.
#[derive(Clone, Copy, Debug, PartialEq, Eq, Structural)]
pub struct CellRect {
    pub x: u64,
    pub y: u64,
    pub w: u32,
    pub h: u32,
}

/// The physical size of the window that the logical grid is stretched onto.
///
/// The two axes are scaled independently (`W / 320` and `H / 200`); the
/// aspect ratio is not locked and no letterbox is added.
#[derive(Clone, Copy, Debug, PartialEq, Eq, Structural)]
pub struct Viewport {
    pub width: u32,
    pub height: u32,
}

/// Physical x coordinate of logical cell column `col`: `col * 8 * (W / 320)`,
/// truncated toward zero.
pub open spec fn spec_cell_x(width: u32, col: int) -> int {
    col * (CHAR_WIDTH as int) * (width as int) / (BASE_WIDTH as int)
}

/// Physical y coordinate of logical cell row `row`: `row * 8 * (H / 200)`,
/// truncated toward zero.
pub open spec fn spec_cell_y(height: u32, row: int) -> int {
    row * (CHAR_HEIGHT as int) * (height as int) / (BASE_HEIGHT as int)
}

/// Physical width of one cell: `8 * (W / 320)`, truncated.
pub open spec fn spec_cell_w(width: u32) -> int {
    (CHAR_WIDTH as int) * (width as int) / (BASE_WIDTH as int)
}

/// Physical height of one cell: `8 * (H / 200)`, truncated.
pub open spec fn spec_cell_h(height: u32) -> int {
    (CHAR_HEIGHT as int) * (height as int) / (BASE_HEIGHT as int)
}

/// The destination rectangle of the logical cell `(row, col)`.
pub open spec fn spec_cell_rect(vp: Viewport, row: int, col: int) -> CellRect {
    CellRect {
        x: spec_cell_x(vp.width, col) as u64,
        y: spec_cell_y(vp.height, row) as u64,
        w: spec_cell_w(vp.width) as u32,
        h: spec_cell_h(vp.height) as u32,
    }
}

impl Viewport {
    /// A viewport for a window of `width` by `height` physical pixels.
    pub fn new(width: u32, height: u32) -> (r: Viewport)
        ensures
            r.width == width,
            r.height == height,
    {
        Viewport { width, height }
    }

    /// The physical rectangle that the logical cell `(row, col)` is drawn to.
    pub fn cell_rect(&self, row: u32, col: u32) -> (r: CellRect)
        ensures
            r == spec_cell_rect(*self, row as int, col as int),
            r.x == spec_cell_x(self.width, col as int),
            r.y == spec_cell_y(self.height, row as int),
            r.w == spec_cell_w(self.width),
            r.h == spec_cell_h(self.height),
    {
        let w = self.width as u128;
        let h = self.height as u128;
        let c = col as u128;
        let rw = row as u128;
        assert(c * 8 * w <= 0xffff_ffff * 8 * 0xffff_ffff) by (nonlinear_arith)
            requires c <= 0xffff_ffff, w <= 0xffff_ffff;
        assert(rw * 8 * h <= 0xffff_ffff * 8 * 0xffff_ffff) by (nonlinear_arith)
            requires rw <= 0xffff_ffff, h <= 0xffff_ffff;
        let x = (c * 8 * w / 320) as u64;
        let y = (rw * 8 * h / 200) as u64;
        let cw = (8 * w / 320) as u32;
        let ch = (8 * h / 200) as u32;
        CellRect { x, y, w: cw, h: ch }
    }
}

/// The candidate window sizes for a display of `screen_width` by
/// `screen_height`: the multiples `k * (320, 200)` for `k = 1, 2, ...` that fit
/// the display.
pub open spec fn fitting_sizes(screen_width: u32, screen_height: u32) -> Seq<(u32, u32)> {
    Seq::new(
        max_size_factor(screen_width, screen_height),
        |i: int| (((i + 1) * BASE_WIDTH) as u32, ((i + 1) * BASE_HEIGHT) as u32),
    )
}

/// The largest `k` such that `k * (320, 200)` fits the display.
pub open spec fn max_size_factor(screen_width: u32, screen_height: u32) -> nat {
    let kw = screen_width / BASE_WIDTH;
    let kh = screen_height / BASE_HEIGHT;
    if kw <= kh {
        kw as nat
    } else {
        kh as nat
    }
}

/// The window sizes to cycle through: the fitting multiples, followed by the
/// base size when fewer than two fit, so that cycling is always possible.
pub open spec fn spec_window_sizes(screen_width: u32, screen_height: u32) -> Seq<(u32, u32)> {
    let fit = fitting_sizes(screen_width, screen_height);
    if fit.len() < 2 {
        fit.push((BASE_WIDTH, BASE_HEIGHT))
    } else {
        fit
    }
}

proof fn lemma_factor_bound(n: int, step: int, screen: int)
    requires
        n >= 0,
        step > 0,
        screen >= 0,
    ensures
        (n + 1) * step <= screen <==> n + 1 <= screen / step,
{
    assert((n + 1) * step <= screen ==> n + 1 <= screen / step) by (nonlinear_arith)
        requires n >= 0, step > 0, screen >= 0;
    assert(n + 1 <= screen / step ==> (n + 1) * step <= screen) by (nonlinear_arith)
        requires n >= 0, step > 0, screen >= 0;
}

/// Lists the window sizes to cycle through on a display of the given size.
pub fn calculate_window_sizes(screen_width: u32, screen_height: u32) -> (r: Vec<(u32, u32)>)
    ensures
        r@ == spec_window_sizes(screen_width, screen_height),
        r@.len() >= 1,
{
    let mut sizes: Vec<(u32, u32)> = Vec::new();
    let mut width: u64 = BASE_WIDTH as u64;
    let mut height: u64 = BASE_HEIGHT as u64;
    let ghost k = max_size_factor(screen_width, screen_height);
    while width <= screen_width as u64 && height <= screen_height as u64
        invariant
            width == (sizes@.len() + 1) * BASE_WIDTH,
            height == (sizes@.len() + 1) * BASE_HEIGHT,
            k == max_size_factor(screen_width, screen_height),
            sizes@.len() <= k,
            sizes@ == fitting_sizes(screen_width, screen_height).take(sizes@.len() as int),
        decreases k - sizes@.len(),
    {
        proof {
            let n = sizes@.len() as int;
            lemma_factor_bound(n, 320, screen_width as int);
            lemma_factor_bound(n, 200, screen_height as int);
        }
        sizes.push((width as u32, height as u32));
        width = width + BASE_WIDTH as u64;
        height = height + BASE_HEIGHT as u64;
        assert(sizes@ =~= fitting_sizes(screen_width, screen_height).take(sizes@.len() as int));
    }
    proof {
        let n = sizes@.len() as int;
        lemma_factor_bound(n, 320, screen_width as int);
        lemma_factor_bound(n, 200, screen_height as int);
        assert(sizes@ =~= fitting_sizes(screen_width, screen_height));
    }
    if sizes.len() < 2 {
        sizes.push((BASE_WIDTH, BASE_HEIGHT));
    }
    sizes
}

/// The index of the window size used at start-up: the second-largest size
/// when more than two are offered, else the second one.
pub fn initial_size_index(count: usize) -> (r: usize)
    requires
        count >= 2,
    ensures
        r == (if count > 2 { count - 2 } else { 1 }),
        r < count,
{
    if count > 2 {
        count - 2
    } else {
        1
    }
}

} // verus!
