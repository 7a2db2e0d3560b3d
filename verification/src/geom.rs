//! Integer vectors and axis-aligned rectangles in input space.
//!
//! Input space has its origin at the top left with y growing downward; the
//! public stick value flips the y axis so that its output is y-up.

use crate::fixed::POS_LIMIT;
use vstd::prelude::*;

verus! {

/// A two-dimensional vector of input-space coordinates.
#[derive(Clone, Copy, Debug, PartialEq, Eq, Structural)]
pub struct IVec2 {
    pub x: i64,
    pub y: i64,
}

impl IVec2 {
    /// The origin.
    pub open spec fn spec_zero() -> IVec2 {
        IVec2 { x: 0, y: 0 }
    }

    /// Both coordinates have magnitude at most `limit`.
    pub open spec fn in_bounds(self, limit: int) -> bool {
        &&& -limit <= self.x <= limit
        &&& -limit <= self.y <= limit
    }

    /// The origin.
    pub fn zero() -> (v: IVec2)
        ensures
            v == IVec2::spec_zero(),
    {
        IVec2 { x: 0, y: 0 }
    }
}

/// An axis-aligned rectangle given by its two extreme corners.
#[derive(Clone, Copy, Debug, PartialEq, Eq, Structural)]
pub struct Rect {
    pub min: IVec2,
    pub max: IVec2,
}

impl Rect {
    /// The corners are ordered and within the coordinate limit.
    pub open spec fn wf(self) -> bool {
        &&& self.min.x <= self.max.x
        &&& self.min.y <= self.max.y
        &&& self.min.in_bounds(POS_LIMIT as int)
        &&& self.max.in_bounds(POS_LIMIT as int)
    }

    /// Containment, inclusive of the boundary.
    pub open spec fn spec_contains(self, p: IVec2) -> bool {
        &&& self.min.x <= p.x <= self.max.x
        &&& self.min.y <= p.y <= self.max.y
    }

    /// Half of the rectangle's width, rounded down.
    pub open spec fn spec_half_width(self) -> int {
        (self.max.x - self.min.x) / 2
    }

    /// Half of the rectangle's height, rounded down.
    pub open spec fn spec_half_height(self) -> int {
        (self.max.y - self.min.y) / 2
    }

    /// Whether `p` lies inside the rectangle, boundary included.
    pub fn contains(&self, p: IVec2) -> (r: bool)
        ensures
            r == self.spec_contains(p),
    {
        self.min.x <= p.x && p.x <= self.max.x && self.min.y <= p.y && p.y <= self.max.y
    }

    /// Half of the rectangle's width, rounded down.
    pub fn half_width(&self) -> (h: i64)
        requires
            self.wf(),
        ensures
            h == self.spec_half_width(),
            0 <= h <= POS_LIMIT,
    {
        let w = self.max.x - self.min.x;
        ((w as u64) / 2) as i64
    }

    /// Half of the rectangle's height, rounded down.
    pub fn half_height(&self) -> (h: i64)
        requires
            self.wf(),
        ensures
            h == self.spec_half_height(),
            0 <= h <= POS_LIMIT,
    {
        let w = self.max.y - self.min.y;
        ((w as u64) / 2) as i64
    }

    /// The rectangle `from_center_size` yields: the corners sit half a size
    /// away from the center, each half rounded down.
    pub open spec fn spec_from_center_size(center: IVec2, size: IVec2) -> Rect {
        Rect {
            min: IVec2 { x: (center.x - size.x / 2) as i64, y: (center.y - size.y / 2) as i64 },
            max: IVec2 { x: (center.x + size.x / 2) as i64, y: (center.y + size.y / 2) as i64 },
        }
    }

    /// The rectangle of the given size centered on `center` (each side rounded
    /// down to an even extent), as a layout system reports interaction areas.
    pub fn from_center_size(center: IVec2, size: IVec2) -> (r: Rect)
        requires
            0 <= size.x,
            0 <= size.y,
            -POS_LIMIT <= center.x - size.x / 2,
            center.x + size.x / 2 <= POS_LIMIT,
            -POS_LIMIT <= center.y - size.y / 2,
            center.y + size.y / 2 <= POS_LIMIT,
        ensures
            r == Rect::spec_from_center_size(center, size),
            r.min.x == center.x - size.x / 2,
            r.max.x == center.x + size.x / 2,
            r.min.y == center.y - size.y / 2,
            r.max.y == center.y + size.y / 2,
            r.wf(),
    {
        let hx = ((size.x as u64) / 2) as i64;
        let hy = ((size.y as u64) / 2) as i64;
        Rect {
            min: IVec2 { x: center.x - hx, y: center.y - hy },
            max: IVec2 { x: center.x + hx, y: center.y + hy },
        }
    }

    /// The rectangle spanning every admissible coordinate; a stick whose
    /// layout has not arrived yet can be engaged anywhere.
    pub fn everywhere() -> (r: Rect)
        ensures
            r.min.x == -POS_LIMIT,
            r.min.y == -POS_LIMIT,
            r.max.x == POS_LIMIT,
            r.max.y == POS_LIMIT,
            r.wf(),
    {
        Rect {
            min: IVec2 { x: -POS_LIMIT, y: -POS_LIMIT },
            max: IVec2 { x: POS_LIMIT, y: POS_LIMIT },
        }
    }
}

} // verus!
