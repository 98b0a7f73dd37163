//! The region of a screenshot that holds the board.
use vstd::prelude::*;

verus! {

/// A rectangle in screenshot pixels.
#[derive(Debug, Clone, Copy, PartialEq, Eq, Structural)]
pub struct CropRegion {
    pub x: u32,
    pub y: u32,
    pub width: u32,
    pub height: u32,
}

/// `a - b`, or 0 when `b > a`.
pub open spec fn sat_sub(a: u32, b: u32) -> u32 {
    if b > a { 0 } else { (a - b) as u32 }
}

pub open spec fn min_u32(a: u32, b: u32) -> u32 {
    if a <= b { a } else { b }
}

pub open spec fn max_u32(a: u32, b: u32) -> u32 {
    if a >= b { a } else { b }
}

impl CropRegion {
    /// The region `clamp_to` makes of `self` inside an image of the given size.
    pub open spec fn spec_clamp_to(self, max_width: u32, max_height: u32) -> CropRegion {
        let x = min_u32(self.x, sat_sub(max_width, 1));
        let y = min_u32(self.y, sat_sub(max_height, 1));
        CropRegion {
            x,
            y,
            width: max_u32(min_u32(self.width, sat_sub(max_width, x)), 1),
            height: max_u32(min_u32(self.height, sat_sub(max_height, y)), 1),
        }
    }

    /// Moves the origin inside an image of `max_width` x `max_height` and
    /// shrinks the size to what is left of the image, keeping at least one
    /// pixel each way.
    pub fn clamp_to(self, max_width: u32, max_height: u32) -> (r: Self)
        ensures
            r == self.spec_clamp_to(max_width, max_height),
            max_width > 0 ==> r.x + r.width <= max_width,
            max_height > 0 ==> r.y + r.height <= max_height,
            r.width >= 1 && r.height >= 1,
    {
        let x = self.x.min(max_width.saturating_sub(1));
        let y = self.y.min(max_height.saturating_sub(1));
        let max_w = max_width.saturating_sub(x);
        let max_h = max_height.saturating_sub(y);
        let width = self.width.min(max_w).max(1);
        let height = self.height.min(max_h).max(1);
        CropRegion { x, y, width, height }
    }
}

} // verus!
