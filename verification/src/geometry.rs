//! Integer screen geometry.
//!
//! All coordinates are whole points. Display bounds reported by the platform
//! layer are expected to be small (`display_bounds_wf`); frames computed for
//! windows stay within the far looser `frame_wf` range, which leaves enough
//! headroom that every layout computation fits in an `i64`.

use vstd::prelude::*;

verus! {

/// Largest magnitude accepted for a display origin coordinate or dimension.
pub const MAX_DISPLAY_COORD: i64 = 0x1_0000_0000;

/// Largest magnitude kept for a window frame coordinate or dimension.
pub const MAX_FRAME_COORD: i64 = 0x2000_0000_0000_0000;

/// An axis-aligned rectangle: origin `(x, y)` with `y` growing downwards,
/// extent `(w, h)`.
#[derive(Clone, Copy, Debug, PartialEq, Eq, Structural)]
pub struct Rect {
    pub x: i64,
    pub y: i64,
    pub w: i64,
    pub h: i64,
}

impl Rect {
    /// Bounds as a display reports them: modest origin, non-negative extent.
    pub open spec fn display_bounds_wf(self) -> bool {
        &&& -MAX_DISPLAY_COORD <= self.x <= MAX_DISPLAY_COORD
        &&& -MAX_DISPLAY_COORD <= self.y <= MAX_DISPLAY_COORD
        &&& 0 <= self.w <= MAX_DISPLAY_COORD
        &&& 0 <= self.h <= MAX_DISPLAY_COORD
    }

    /// The loose range within which window frames are kept.
    pub open spec fn frame_wf(self) -> bool {
        &&& -MAX_FRAME_COORD <= self.x <= MAX_FRAME_COORD
        &&& -MAX_FRAME_COORD <= self.y <= MAX_FRAME_COORD
        &&& -MAX_FRAME_COORD <= self.w <= MAX_FRAME_COORD
        &&& -MAX_FRAME_COORD <= self.h <= MAX_FRAME_COORD
    }

    /// Whether the point `(px, py)` lies inside this rectangle.
    pub open spec fn spec_contains_point(self, px: int, py: int) -> bool {
        &&& self.x <= px < self.x + self.w
        &&& self.y <= py < self.y + self.h
    }

    /// Whether the point `(px, py)` lies inside this rectangle.
    pub fn contains_point(&self, px: i64, py: i64) -> (r: bool)
        requires
            self.display_bounds_wf(),
            -MAX_FRAME_COORD <= px <= MAX_FRAME_COORD,
            -MAX_FRAME_COORD <= py <= MAX_FRAME_COORD,
        ensures
            r == self.spec_contains_point(px as int, py as int),
    {
        self.x <= px && px - self.x < self.w && self.y <= py && py - self.y < self.h
    }
}

} // verus!
