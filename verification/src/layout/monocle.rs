use vstd::prelude::*;

use super::{at_least_one, fits_i32, gap_of, in_i32, signed, LayoutConfig};
use crate::state::window::{Rect, WindowId};

verus! {

/// The rectangle every window gets: the usable area minus the gap on each side.
pub open spec fn monocle_rect(area: Rect, cfg: LayoutConfig) -> Rect {
    let g = gap_of(cfg);
    Rect {
        x: (area.x + g) as i32,
        y: (area.y + g) as i32,
        width: at_least_one(signed(area.width) - 2 * g) as u32,
        height: at_least_one(signed(area.height) - 2 * g) as u32,
    }
}

/// The signed coordinate arithmetic of the monocle layout stays within `i32`.
pub open spec fn monocle_fits(area: Rect, cfg: LayoutConfig) -> bool {
    let g = gap_of(cfg);
    &&& in_i32(2 * g)
    &&& in_i32(signed(area.width) - 2 * g)
    &&& in_i32(signed(area.height) - 2 * g)
    &&& in_i32(area.x + g)
    &&& in_i32(area.y + g)
}

/// Whether `monocle_fits` holds.
pub fn monocle_fits_check(area: Rect, cfg: &LayoutConfig) -> (r: bool)
    ensures
        r == monocle_fits(area, *cfg),
{
    let g = (cfg.gap as i32) as i128;
    let w = (area.width as i32) as i128;
    let h = (area.height as i32) as i128;
    fits_i32(2 * g) && fits_i32(w - 2 * g) && fits_i32(h - 2 * g) && fits_i32(area.x as i128 + g)
        && fits_i32(area.y as i128 + g)
}

/// Monocle / Fullscreen layout: every window is given the full usable area minus gaps.
#[derive(Debug, Default, Clone, Copy)]
pub struct MonocleLayout;

impl MonocleLayout {
    pub fn name(&self) -> (r: &'static str)
        ensures
            r@ == "monocle"@,
    {
        "monocle"
    }

    pub fn arrange(&self, windows: &[WindowId], usable_area: Rect, config: &LayoutConfig) -> (r:
        Vec<(WindowId, Rect)>)
        requires
            windows@.len() > 0 ==> monocle_fits(usable_area, *config),
        ensures
            r@.len() == windows@.len(),
            forall|i: int|
                0 <= i < windows@.len() ==> #[trigger] r@[i] == (
                    windows@[i],
                    monocle_rect(usable_area, *config),
                ),
    {
        let mut out: Vec<(WindowId, Rect)> = Vec::new();
        if windows.len() == 0 {
            return out;
        }
        let gap = config.gap as i32;
        let w = usable_area.width as i32 - 2 * gap;
        let h = usable_area.height as i32 - 2 * gap;
        let width: u32 = if w < 1 { 1 } else { w as u32 };
        let height: u32 = if h < 1 { 1 } else { h as u32 };
        let rect = Rect::new(usable_area.x + gap, usable_area.y + gap, width, height);
        let mut i: usize = 0;
        while i < windows.len()
            invariant
                i <= windows@.len(),
                rect == monocle_rect(usable_area, *config),
                out@.len() == i,
                forall|j: int| 0 <= j < i ==> #[trigger] out@[j] == (windows@[j], rect),
            decreases windows.len() - i,
        {
            out.push((windows[i], rect));
            i = i + 1;
        }
        out
    }
}

} // verus!
