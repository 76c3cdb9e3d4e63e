use vstd::prelude::*;

use super::{at_least_one, fits_i32, gap_of, in_i32, signed, LayoutConfig};
use crate::state::window::{Rect, WindowId};

verus! {

/// Smallest `c >= start` with `c * c >= n`.
pub open spec fn ceil_sqrt_from(n: nat, c: nat) -> nat
    decreases n - c,
{
    if c * c >= n || c >= n {
        c
    } else {
        ceil_sqrt_from(n, c + 1)
    }
}

/// Number of grid columns for n windows: the ceiling of the square root of n.
pub open spec fn grid_cols(n: nat) -> nat {
    ceil_sqrt_from(n, 1)
}

/// Number of grid rows for n windows.
pub open spec fn grid_rows(n: nat) -> nat {
    ((n + grid_cols(n) - 1) as nat) / grid_cols(n)
}

pub open spec fn grid_cell_width(n: nat, area: Rect, cfg: LayoutConfig) -> int {
    let g = gap_of(cfg);
    let cols = grid_cols(n) as int;
    let avail = signed(area.width) - g * (cols + 1);
    at_least_one((if avail < 0 { 0 } else { avail }) / cols)
}

pub open spec fn grid_cell_height(n: nat, area: Rect, cfg: LayoutConfig) -> int {
    let g = gap_of(cfg);
    let rows = grid_rows(n) as int;
    let avail = signed(area.height) - g * (rows + 1);
    at_least_one((if avail < 0 { 0 } else { avail }) / rows)
}

/// Horizontal offset of window i's cell from the first column.
pub open spec fn grid_col_offset(i: int, n: nat, area: Rect, cfg: LayoutConfig) -> int {
    (i % (grid_cols(n) as int)) * (grid_cell_width(n, area, cfg) + gap_of(cfg))
}

/// Vertical offset of window i's cell from the first row.
pub open spec fn grid_row_offset(i: int, n: nat, area: Rect, cfg: LayoutConfig) -> int {
    (i / (grid_cols(n) as int)) * (grid_cell_height(n, area, cfg) + gap_of(cfg))
}

/// Geometry of the i-th of n windows: row-major cells of equal size separated by the gap.
pub open spec fn grid_rect(i: int, n: nat, area: Rect, cfg: LayoutConfig) -> Rect {
    let g = gap_of(cfg);
    Rect {
        x: (area.x + g + grid_col_offset(i, n, area, cfg)) as i32,
        y: (area.y + g + grid_row_offset(i, n, area, cfg)) as i32,
        width: grid_cell_width(n, area, cfg) as u32,
        height: grid_cell_height(n, area, cfg) as u32,
    }
}

/// The signed coordinate arithmetic of the grid layout for n windows stays within `i32`.
pub open spec fn grid_fits(n: nat, area: Rect, cfg: LayoutConfig) -> bool {
    let g = gap_of(cfg);
    let cols = grid_cols(n) as int;
    let rows = grid_rows(n) as int;
    let cw = grid_cell_width(n, area, cfg);
    let ch = grid_cell_height(n, area, cfg);
    n > 0 ==> {
        &&& n <= i32::MAX
        &&& cols + 1 <= i32::MAX
        &&& rows + 1 <= i32::MAX
        &&& in_i32(g * (cols + 1))
        &&& in_i32(g * (rows + 1))
        &&& in_i32(signed(area.width) - g * (cols + 1))
        &&& in_i32(signed(area.height) - g * (rows + 1))
        &&& in_i32(cw + g)
        &&& in_i32(ch + g)
        &&& in_i32(area.x + g)
        &&& in_i32(area.y + g)
        &&& forall|i: int| 0 <= i < n ==> #[trigger] grid_cell_fits(i, n, area, cfg)
    }
}

/// The coordinates of window i's cell stay within `i32`.
pub open spec fn grid_cell_fits(i: int, n: nat, area: Rect, cfg: LayoutConfig) -> bool {
    let g = gap_of(cfg);
    &&& in_i32(grid_col_offset(i, n, area, cfg))
    &&& in_i32(area.x + g + grid_col_offset(i, n, area, cfg))
    &&& in_i32(grid_row_offset(i, n, area, cfg))
    &&& in_i32(area.y + g + grid_row_offset(i, n, area, cfg))
}

proof fn lemma_ceil_step(n: nat, c: nat)
    ensures
        (c * c >= n || c >= n) ==> ceil_sqrt_from(n, c) == c,
        !(c * c >= n || c >= n) ==> ceil_sqrt_from(n, c) == ceil_sqrt_from(n, c + 1),
{
}

proof fn lemma_ceil_sqrt(n: nat, c: nat)
    requires
        n >= 1,
        c >= 1,
        c <= n,
        (c - 1) * (c - 1) < n,
    ensures
        ceil_sqrt_from(n, c) >= 1,
        ceil_sqrt_from(n, c) <= n,
        ceil_sqrt_from(n, c) * ceil_sqrt_from(n, c) >= n,
    decreases n - c,
{
    if c * c >= n || c >= n {
        assert(c * c >= n) by (nonlinear_arith)
            requires
                c >= 1,
                c * c >= n || c >= n,
        ;
    } else {
        lemma_ceil_sqrt(n, c + 1);
    }
}

/// The number of grid columns for `n` windows (`grid_cols`).
fn grid_columns(n: usize) -> (cols: usize)
    requires
        1 <= n <= i32::MAX,
    ensures
        cols as nat == grid_cols(n as nat),
        1 <= cols <= n,
{
    let ghost nn = n as nat;
    let mut cols: usize = 1;
    proof {
        lemma_ceil_sqrt(nn, 1);
    }
    loop
        invariant
            nn == n,
            n <= i32::MAX,
            1 <= cols <= n,
            ceil_sqrt_from(nn, cols as nat) == grid_cols(nn),
            (cols - 1) * (cols - 1) < nn,
        ensures
            ceil_sqrt_from(nn, cols as nat) == cols,
            ceil_sqrt_from(nn, cols as nat) == grid_cols(nn),
            1 <= cols <= n,
        decreases n - cols,
    {
        assert((cols as u64) * (cols as u64) <= u64::MAX) by (nonlinear_arith)
            requires
                cols <= i32::MAX,
        ;
        let sq = (cols as u64) * (cols as u64);
        assert(sq as int == (cols as nat) * (cols as nat));
        proof {
            lemma_ceil_step(nn, cols as nat);
        }
        if sq >= n as u64 {
            break;
        }
        assert(cols < n) by (nonlinear_arith)
            requires
                cols * cols < n,
                cols >= 1,
        ;
        assert(ceil_sqrt_from(nn, cols as nat) == ceil_sqrt_from(nn, (cols + 1) as nat));
        assert(((cols + 1) - 1) * ((cols + 1) - 1) < nn);
        cols = cols + 1;
    }
    cols
}

/// Whether `grid_fits` holds for `n` windows.
#[verifier::loop_isolation(false)]
pub fn grid_fits_check(n: usize, area: Rect, cfg: &LayoutConfig) -> (r: bool)
    ensures
        r == grid_fits(n as nat, area, *cfg),
{
    if n == 0 {
        return true;
    }
    if n > 2147483647 {
        return false;
    }
    let ghost nn = n as nat;
    let cols = grid_columns(n);
    let rows = (n + cols - 1) / cols;
    assert(1 <= rows <= n) by (nonlinear_arith)
        requires
            rows as int == (n + cols - 1) as int / cols as int,
            cols >= 1,
            n >= 1,
    ;
    assert(rows as nat == grid_rows(nn));
    let g = (cfg.gap as i32) as i128;
    let w = (area.width as i32) as i128;
    let h = (area.height as i32) as i128;
    let x = area.x as i128;
    let y = area.y as i128;
    let c = cols as i128;
    let rw = rows as i128;
    if !(c + 1 <= 2147483647 && rw + 1 <= 2147483647) {
        return false;
    }
    assert(-0x1_0000_0000_0000_0000 <= g * (c + 1) <= 0x1_0000_0000_0000_0000) by (nonlinear_arith)
        requires
            -0x1_0000_0000 <= g <= 0x1_0000_0000,
            1 <= c + 1 <= 2147483647,
    ;
    assert(-0x1_0000_0000_0000_0000 <= g * (rw + 1) <= 0x1_0000_0000_0000_0000) by (nonlinear_arith)
        requires
            -0x1_0000_0000 <= g <= 0x1_0000_0000,
            1 <= rw + 1 <= 2147483647,
    ;
    let aw = w - g * (c + 1);
    let ah = h - g * (rw + 1);
    let qw = (if aw < 0 { 0 } else { aw }) / c;
    let qh = (if ah < 0 { 0 } else { ah }) / rw;
    let cw = if qw < 1 { 1 } else { qw };
    let ch = if qh < 1 { 1 } else { qh };
    assert(cw == grid_cell_width(nn, area, *cfg));
    assert(ch == grid_cell_height(nn, area, *cfg));
    if !(fits_i32(g * (c + 1)) && fits_i32(g * (rw + 1)) && fits_i32(aw) && fits_i32(ah) && fits_i32(
        cw + g,
    ) && fits_i32(ch + g) && fits_i32(x + g) && fits_i32(y + g)) {
        return false;
    }
    let mut i: usize = 0;
    while i < n
        invariant
            nn == n,
            1 <= n <= 2147483647,
            cols as nat == grid_cols(nn),
            cols >= 1,
            c == cols,
            x == area.x,
            y == area.y,
            g == gap_of(*cfg),
            cw == grid_cell_width(nn, area, *cfg),
            ch == grid_cell_height(nn, area, *cfg),
            in_i32((cw + g) as int),
            in_i32((ch + g) as int),
            i <= n,
            forall|j: int| 0 <= j < i ==> #[trigger] grid_cell_fits(j, nn, area, *cfg),
        decreases n - i,
    {
        assert(i % cols < cols);
        let col = (i % cols) as i128;
        let row = (i / cols) as i128;
        assert(0 <= row <= i) by (nonlinear_arith)
            requires
                row as int == (i as int) / (cols as int),
                cols >= 1,
        ;
        assert(-0x1_0000_0000_0000_0000 <= col * (cw + g) <= 0x1_0000_0000_0000_0000) by (nonlinear_arith)
            requires
                0 <= col <= 2147483647,
                -0x1_0000_0000 <= cw + g <= 0x1_0000_0000,
        ;
        assert(-0x1_0000_0000_0000_0000 <= row * (ch + g) <= 0x1_0000_0000_0000_0000) by (nonlinear_arith)
            requires
                0 <= row <= 2147483647,
                -0x1_0000_0000 <= ch + g <= 0x1_0000_0000,
        ;
        let co = col * (cw + g);
        let ro = row * (ch + g);
        assert(co == grid_col_offset(i as int, nn, area, *cfg));
        assert(ro == grid_row_offset(i as int, nn, area, *cfg));
        if !(fits_i32(co) && fits_i32(x + g + co) && fits_i32(ro) && fits_i32(y + g + ro)) {
            assert(!grid_cell_fits(i as int, nn, area, *cfg));
            return false;
        }
        assert(grid_cell_fits(i as int, nn, area, *cfg));
        i = i + 1;
    }
    true
}

/// Grid layout: arranges N windows into a near-square grid (columns = ceil(sqrt(N))).
#[derive(Debug, Default, Clone, Copy)]
pub struct GridLayout;

impl GridLayout {
    pub fn name(&self) -> (r: &'static str)
        ensures
            r@ == "grid"@,
    {
        "grid"
    }

    pub fn arrange(&self, windows: &[WindowId], usable_area: Rect, config: &LayoutConfig) -> (r:
        Vec<(WindowId, Rect)>)
        requires
            grid_fits(windows@.len(), usable_area, *config),
        ensures
            r@.len() == windows@.len(),
            forall|i: int|
                0 <= i < windows@.len() ==> #[trigger] r@[i] == (
                    windows@[i],
                    grid_rect(i, windows@.len(), usable_area, *config),
                ),
    {
        let n = windows.len();
        let mut out: Vec<(WindowId, Rect)> = Vec::new();
        if n == 0 {
            return out;
        }
        let ghost nn = n as nat;
        let mut cols: usize = 1;
        proof {
            lemma_ceil_sqrt(nn, 1);
        }
        loop
            invariant
                nn == n,
                n <= i32::MAX,
                1 <= cols <= n,
                ceil_sqrt_from(nn, cols as nat) == grid_cols(nn),
                (cols - 1) * (cols - 1) < nn,
            ensures
                ceil_sqrt_from(nn, cols as nat) == cols,
                ceil_sqrt_from(nn, cols as nat) == grid_cols(nn),
            decreases n - cols,
        {
            assert((cols as u64) * (cols as u64) <= u64::MAX) by (nonlinear_arith)
                requires
                    cols <= i32::MAX,
            ;
            let sq = (cols as u64) * (cols as u64);
            assert(sq as int == (cols as nat) * (cols as nat));
            proof {
                lemma_ceil_step(nn, cols as nat);
            }
            if sq >= n as u64 {
                assert(ceil_sqrt_from(nn, cols as nat) == cols);
                break;
            }
            assert(cols < n) by (nonlinear_arith)
                requires
                    cols * cols < n,
                    cols >= 1,
            ;
            assert(!((cols as nat) * (cols as nat) >= nn || cols as nat >= nn));
            assert(ceil_sqrt_from(nn, cols as nat) == ceil_sqrt_from(nn, (cols + 1) as nat));
            assert(((cols + 1) - 1) * ((cols + 1) - 1) < nn);
            cols = cols + 1;
        }
        proof {
            lemma_ceil_sqrt(nn, 1);
            assert(cols as nat == grid_cols(nn));
        }
        let rows = (n + cols - 1) / cols;
        assert(rows >= 1) by (nonlinear_arith)
            requires
                rows as int == (n + cols - 1) as int / cols as int,
                cols >= 1,
                n >= 1,
        ;
        assert(rows <= n) by (nonlinear_arith)
            requires
                rows as int == (n + cols - 1) as int / cols as int,
                cols >= 1,
                n >= 1,
        ;
        assert(n <= i32::MAX);
        let gap = config.gap as i32;
        let total_gap_w = gap * (cols as i32 + 1);
        let total_gap_h = gap * (rows as i32 + 1);
        let aw = usable_area.width as i32 - total_gap_w;
        let ah = usable_area.height as i32 - total_gap_h;
        let avail_w: i32 = if aw < 0 { 0 } else { aw };
        let avail_h: i32 = if ah < 0 { 0 } else { ah };
        let qw = avail_w / (cols as i32);
        let qh = avail_h / (rows as i32);
        let cell_w: u32 = if qw < 1 { 1 } else { qw as u32 };
        let cell_h: u32 = if qh < 1 { 1 } else { qh as u32 };
        assert(cell_w == grid_cell_width(nn, usable_area, *config));
        assert(cell_h == grid_cell_height(nn, usable_area, *config));
        let mut i: usize = 0;
        while i < n
            invariant
                n == windows@.len(),
                nn == n,
                grid_fits(nn, usable_area, *config),
                cols as nat == grid_cols(nn),
                cols >= 1,
                gap == gap_of(*config),
                cell_w == grid_cell_width(nn, usable_area, *config),
                cell_h == grid_cell_height(nn, usable_area, *config),
                1 <= cell_w <= i32::MAX,
                1 <= cell_h <= i32::MAX,
                i <= n,
                out@.len() == i,
                forall|j: int|
                    0 <= j < i ==> #[trigger] out@[j] == (
                        windows@[j],
                        grid_rect(j, nn, usable_area, *config),
                    ),
            decreases n - i,
        {
            proof {
                let ii = i as int;
                let cc = grid_cols(nn) as int;
                let cw = grid_cell_width(nn, usable_area, *config);
                let ch = grid_cell_height(nn, usable_area, *config);
                assert(0 <= ii < nn);
                assert(grid_cell_fits(ii, nn, usable_area, *config));
                assert(in_i32(grid_col_offset(ii, nn, usable_area, *config)));
                assert(in_i32(grid_row_offset(ii, nn, usable_area, *config)));
                assert(0 <= ii % cc < cc);
                assert(0 <= ii / cc <= ii) by (nonlinear_arith)
                    requires
                        cc >= 1,
                        ii >= 0,
                ;
            }
            let r = (i / cols) as i32;
            let c = (i % cols) as i32;
            let x = usable_area.x + gap + c * (cell_w as i32 + gap);
            let y = usable_area.y + gap + r * (cell_h as i32 + gap);
            out.push((windows[i], Rect { x, y, width: cell_w, height: cell_h }));
            i = i + 1;
        }
        out
    }
}

} // verus!
