use vstd::prelude::*;

use super::{at_least_one, fits_i32, gap_of, in_i32, signed, trunc_div, LayoutConfig};
use crate::state::window::{Rect, WindowId};

verus! {

/// The master ratio clamped to 0.1..=0.9 (in ten-thousandths).
pub open spec fn clamped_ratio(r: u32) -> int {
    if r < 1000 {
        1000
    } else if r > 9000 {
        9000
    } else {
        r as int
    }
}

/// `total_w * ratio` rounded to the nearest integer (halves away from zero), for
/// `total_w > 0` and the ratio in ten-thousandths.
pub open spec fn master_width(total_w: int, ratio: int) -> int {
    (total_w * ratio + 5000) / 10000
}

/// Height of every stacked window but the last.
pub open spec fn stack_cell_height(n: int, area: Rect, cfg: LayoutConfig) -> int {
    let g = gap_of(cfg);
    at_least_one(trunc_div(signed(area.height) - n * g, n - 1))
}

/// Top edge of stacked window `idx` (0-based within the stack).
pub open spec fn stack_y(idx: int, n: int, area: Rect, cfg: LayoutConfig) -> int {
    let g = gap_of(cfg);
    area.y + g + idx * (stack_cell_height(n, area, cfg) + g)
}

/// Geometry of the i-th of n windows under the master-and-stack layout.
pub open spec fn master_rect(i: int, n: int, area: Rect, cfg: LayoutConfig) -> Rect {
    let g = gap_of(cfg);
    let w = signed(area.width);
    let h = signed(area.height);
    if n == 1 {
        Rect {
            x: (area.x + g) as i32,
            y: (area.y + g) as i32,
            width: at_least_one(w - 2 * g) as u32,
            height: at_least_one(h - 2 * g) as u32,
        }
    } else if w - 3 * g <= 0 {
        Rect { x: area.x, y: area.y, width: 1, height: 1 }
    } else {
        let total_w = w - 3 * g;
        let mw = master_width(total_w, clamped_ratio(cfg.master_ratio));
        if i == 0 {
            Rect {
                x: (area.x + g) as i32,
                y: (area.y + g) as i32,
                width: at_least_one(mw) as u32,
                height: at_least_one(h - 2 * g) as u32,
            }
        } else {
            let idx = i - 1;
            let sy = stack_y(idx, n, area, cfg);
            Rect {
                x: (area.x + g + mw + g) as i32,
                y: sy as i32,
                width: at_least_one(total_w - mw) as u32,
                height: if idx == n - 2 {
                    at_least_one(area.y + h - g - sy) as u32
                } else {
                    stack_cell_height(n, area, cfg) as u32
                },
            }
        }
    }
}

/// The signed coordinate arithmetic of the master layout for n windows stays within `i32`.
pub open spec fn master_fits(n: int, area: Rect, cfg: LayoutConfig) -> bool {
    let g = gap_of(cfg);
    let w = signed(area.width);
    let h = signed(area.height);
    if n == 0 {
        true
    } else if n == 1 {
        &&& in_i32(2 * g)
        &&& in_i32(w - 2 * g)
        &&& in_i32(h - 2 * g)
        &&& in_i32(area.x + g)
        &&& in_i32(area.y + g)
    } else {
        &&& n <= i32::MAX
        &&& in_i32(3 * g)
        &&& in_i32(w - 3 * g)
        &&& (w - 3 * g > 0 ==> {
            let total_w = w - 3 * g;
            let mw = master_width(total_w, clamped_ratio(cfg.master_ratio));
            let single = stack_cell_height(n, area, cfg);
            &&& in_i32(area.x + g)
            &&& in_i32(area.y + g)
            &&& in_i32(2 * g)
            &&& in_i32(h - 2 * g)
            &&& in_i32(n * g)
            &&& in_i32(h - n * g)
            &&& in_i32(area.x + g + mw)
            &&& in_i32(area.x + g + mw + g)
            &&& in_i32(single + g)
            &&& in_i32(area.y + h)
            &&& in_i32(area.y + h - g)
            &&& forall|idx: int|
                0 <= idx <= n - 2 ==> {
                    &&& in_i32(#[trigger] (idx * (single + g)))
                    &&& in_i32(area.y + g + idx * (single + g))
                    &&& in_i32(area.y + h - g - (area.y + g + idx * (single + g)))
                }
        })
    }
}

/// Whether `master_fits` holds for `n` windows.
#[verifier::loop_isolation(false)]
pub fn master_fits_check(n: usize, area: Rect, cfg: &LayoutConfig) -> (r: bool)
    ensures
        r == master_fits(n as int, area, *cfg),
{
    let g = (cfg.gap as i32) as i128;
    let w = (area.width as i32) as i128;
    let h = (area.height as i32) as i128;
    let x = area.x as i128;
    let y = area.y as i128;
    if n == 0 {
        return true;
    }
    if n == 1 {
        return fits_i32(2 * g) && fits_i32(w - 2 * g) && fits_i32(h - 2 * g) && fits_i32(x + g)
            && fits_i32(y + g);
    }
    let nn = n as i128;
    if !(nn <= 2147483647 && fits_i32(3 * g) && fits_i32(w - 3 * g)) {
        return false;
    }
    if w - 3 * g <= 0 {
        return true;
    }
    let total_w = w - 3 * g;
    let ratio: i128 = if cfg.master_ratio < 1000 {
        1000
    } else if cfg.master_ratio > 9000 {
        9000
    } else {
        cfg.master_ratio as i128
    };
    assert(total_w * ratio + 5000 >= 0) by (nonlinear_arith)
        requires
            total_w > 0,
            ratio > 0,
    ;
    assert(total_w * ratio + 5000 <= 0x1_0000_0000_0000) by (nonlinear_arith)
        requires
            0 < total_w <= 0x1_0000_0000,
            0 < ratio <= 9000,
    ;
    assert(-0x1_0000_0000_0000_0000 <= nn * g <= 0x1_0000_0000_0000_0000) by (nonlinear_arith)
        requires
            0 <= nn <= 2147483647,
            -0x1_0000_0000 <= g <= 0x1_0000_0000,
    ;
    let mw = (total_w * ratio + 5000) / 10000;
    let a = h - nn * g;
    let q = if a >= 0 {
        a / (nn - 1)
    } else {
        -((-a) / (nn - 1))
    };
    let single = if q < 1 {
        1
    } else {
        q
    };
    assert(single == stack_cell_height(n as int, area, *cfg));
    if !(fits_i32(x + g) && fits_i32(y + g) && fits_i32(2 * g) && fits_i32(h - 2 * g) && fits_i32(
        nn * g,
    ) && fits_i32(h - nn * g) && fits_i32(x + g + mw) && fits_i32(x + g + mw + g) && fits_i32(
        single + g,
    ) && fits_i32(y + h) && fits_i32(y + h - g)) {
        return false;
    }
    let mut idx: i128 = 0;
    while idx <= nn - 2
        invariant
            0 <= idx <= nn - 1,
            nn == n,
            n >= 2,
            nn <= 2147483647,
            in_i32((single + g) as int),
            y == area.y,
            g == gap_of(*cfg),
            h == signed(area.height),
            forall|k: int|
                0 <= k < idx ==> {
                    &&& in_i32(#[trigger] (k * (single + g)))
                    &&& in_i32(y + g + k * (single + g))
                    &&& in_i32(y + h - g - (y + g + k * (single + g)))
                },
        decreases nn - idx,
    {
        assert(-0x1_0000_0000_0000_0000 <= idx * (single + g) <= 0x1_0000_0000_0000_0000) by (nonlinear_arith)
            requires
                0 <= idx <= 2147483647,
                -0x1_0000_0000 <= single + g <= 0x1_0000_0000,
        ;
        let off = idx * (single + g);
        if !(fits_i32(off) && fits_i32(y + g + off) && fits_i32(y + h - g - (y + g + off))) {
            return false;
        }
        idx = idx + 1;
    }
    true
}

/// Master-and-stack dynamic tiling layout.
///
/// If 1 window: spans the full usable area (with gaps).
/// If >= 2 windows: Master area on the left (controlled by `master_ratio`),
/// and remaining windows vertically stacked on the right.
#[derive(Debug, Default, Clone, Copy)]
pub struct MasterLayout;

impl MasterLayout {
    pub fn name(&self) -> (r: &'static str)
        ensures
            r@ == "master"@,
    {
        "master"
    }

    pub fn arrange(&self, windows: &[WindowId], usable_area: Rect, config: &LayoutConfig) -> (r:
        Vec<(WindowId, Rect)>)
        requires
            master_fits(windows@.len() as int, usable_area, *config),
        ensures
            r@.len() == windows@.len(),
            forall|i: int|
                0 <= i < windows@.len() ==> #[trigger] r@[i] == (
                    windows@[i],
                    master_rect(i, windows@.len() as int, usable_area, *config),
                ),
    {
        let n = windows.len();
        let mut out: Vec<(WindowId, Rect)> = Vec::new();
        if n == 0 {
            return out;
        }
        let ghost nn = n as int;
        let gap = config.gap as i32;
        let w = usable_area.width as i32;
        let h = usable_area.height as i32;
        if n == 1 {
            let ww = w - 2 * gap;
            let hh = h - 2 * gap;
            let width: u32 = if ww < 1 { 1 } else { ww as u32 };
            let height: u32 = if hh < 1 { 1 } else { hh as u32 };
            out.push((windows[0], Rect::new(usable_area.x + gap, usable_area.y + gap, width, height)));
            return out;
        }
        let total_w = w - 3 * gap;
        if total_w <= 0 {
            let mut i: usize = 0;
            while i < n
                invariant
                    n == windows@.len(),
                    n >= 2,
                    signed(usable_area.width) - 3 * gap_of(*config) <= 0,
                    i <= n,
                    out@.len() == i,
                    forall|j: int|
                        0 <= j < i ==> #[trigger] out@[j] == (
                            windows@[j],
                            master_rect(j, n as int, usable_area, *config),
                        ),
                decreases n - i,
            {
                out.push((windows[i], Rect::new(usable_area.x, usable_area.y, 1, 1)));
                i = i + 1;
            }
            return out;
        }
        let ratio: i64 = if config.master_ratio < 1000 {
            1000
        } else if config.master_ratio > 9000 {
            9000
        } else {
            config.master_ratio as i64
        };
        let mw64: i64 = ((total_w as i64) * ratio + 5000) / 10000;
        assert(0 <= mw64 <= total_w) by (nonlinear_arith)
            requires
                total_w > 0,
                1000 <= ratio <= 9000,
                mw64 == (total_w * ratio + 5000) / 10000,
        ;
        let master_w = mw64 as i32;
        let stack_w = total_w - master_w;
        let mh = h - 2 * gap;
        let master_rect_v = Rect::new(
            usable_area.x + gap,
            usable_area.y + gap,
            if master_w < 1 { 1 } else { master_w as u32 },
            if mh < 1 { 1 } else { mh as u32 },
        );
        let stack_count = (n - 1) as i32;
        let total_stack_h = h - (stack_count + 1) * gap;
        let q: i32 = if total_stack_h >= 0 {
            total_stack_h / stack_count
        } else {
            -((-(total_stack_h as i64)) / (stack_count as i64)) as i32
        };
        let single: i32 = if q < 1 { 1 } else { q };
        assert(single == stack_cell_height(nn, usable_area, *config));
        let stack_x = usable_area.x + gap + master_w + gap;
        out.push((windows[0], master_rect_v));
        let mut k: usize = 1;
        while k < n
            invariant
                n == windows@.len(),
                nn == n,
                n >= 2,
                1 <= k <= n,
                master_fits(nn, usable_area, *config),
                signed(usable_area.width) - 3 * gap_of(*config) > 0,
                gap == gap_of(*config),
                h == signed(usable_area.height),
                total_w == signed(usable_area.width) - 3 * gap_of(*config),
                master_w == master_width(total_w as int, super::master::clamped_ratio(config.master_ratio)),
                stack_w == total_w - master_w,
                stack_count == n - 1,
                single == stack_cell_height(nn, usable_area, *config),
                stack_x == usable_area.x + gap + master_w + gap,
                out@.len() == k,
                forall|j: int|
                    0 <= j < k ==> #[trigger] out@[j] == (
                        windows@[j],
                        master_rect(j, nn, usable_area, *config),
                    ),
            decreases n - k,
        {
            let idx = (k - 1) as i32;
            assert(0 <= idx <= nn - 2);
            assert(in_i32(idx * (single + gap)));
            let sy = usable_area.y + gap + idx * (single + gap);
            let hgt: u32 = if idx == stack_count - 1 {
                let rem = usable_area.y + h - gap - sy;
                if rem < 1 { 1 } else { rem as u32 }
            } else {
                single as u32
            };
            let sw: u32 = if stack_w < 1 { 1 } else { stack_w as u32 };
            out.push((windows[k], Rect::new(stack_x, sy, sw, hgt)));
            k = k + 1;
        }
        out
    }
}

} // verus!
