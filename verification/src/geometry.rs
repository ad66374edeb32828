//! Axis-aligned rectangles and the playfield they live in.

use vstd::prelude::*;

verus! {

/// Largest magnitude a coordinate or an extent of a well-formed rectangle may have.
pub const COORD_LIMIT: i64 = 0x200_0000_0000;

/// Largest width or height of a well-formed playfield.
pub const FIELD_LIMIT: i64 = 0x100_0000_0000;

/// An axis-aligned rectangle; `(x, y)` is its top-left corner, y grows downward.
#[derive(Clone, Copy, Debug, PartialEq, Eq, Structural)]
pub struct Rect {
    pub x: i64,
    pub y: i64,
    pub w: i64,
    pub h: i64,
}

/// The visible game area, from `(0, 0)` to `(width, height)`.
#[derive(Clone, Copy, Debug, PartialEq, Eq, Structural)]
pub struct Playfield {
    pub width: i64,
    pub height: i64,
}

/// Length of the intersection of the ranges `lo_a..hi_a` and `lo_b..hi_b`;
/// zero or negative when they share no more than a point.
pub open spec fn shared_length(lo_a: int, hi_a: int, lo_b: int, hi_b: int) -> int {
    let hi = if hi_a < hi_b { hi_a } else { hi_b };
    let lo = if lo_a < lo_b { lo_b } else { lo_a };
    hi - lo
}

impl Playfield {
    /// Both extents are non-negative and small enough for the arithmetic of the simulation.
    pub open spec fn wf(self) -> bool {
        &&& 0 <= self.width <= FIELD_LIMIT
        &&& 0 <= self.height <= FIELD_LIMIT
    }

    /// A playfield of the given extents.
    pub fn new(width: i64, height: i64) -> (field: Playfield)
        ensures
            field.width == width,
            field.height == height,
    {
        Playfield { width, height }
    }

    /// Runtime test of `wf`.
    pub fn is_valid(&self) -> (ok: bool)
        ensures
            ok == self.wf(),
    {
        0 <= self.width && self.width <= FIELD_LIMIT && 0 <= self.height && self.height
            <= FIELD_LIMIT
    }
}

impl Rect {
    /// The position is within `COORD_LIMIT` of the origin and the extents are
    /// non-negative and at most `COORD_LIMIT`.
    pub open spec fn wf(self) -> bool {
        &&& -COORD_LIMIT <= self.x <= COORD_LIMIT
        &&& -COORD_LIMIT <= self.y <= COORD_LIMIT
        &&& 0 <= self.w <= COORD_LIMIT
        &&& 0 <= self.h <= COORD_LIMIT
    }

    /// Two rectangles overlap when their x-ranges and their y-ranges both
    /// intersect in more than a point; rectangles that merely touch do not.
    pub open spec fn overlaps_spec(self, other: Rect) -> bool {
        &&& shared_length(self.x as int, self.x + self.w, other.x as int, other.x + other.w) > 0
        &&& shared_length(self.y as int, self.y + self.h, other.y as int, other.y + other.h) > 0
    }

    /// Twice the x-coordinate of the centre (doubled so that it stays an integer).
    pub open spec fn center2_x(self) -> int {
        2 * self.x + self.w
    }

    /// Twice the y-coordinate of the centre.
    pub open spec fn center2_y(self) -> int {
        2 * self.y + self.h
    }

    /// The rectangle with top-left corner `(x, y)`, `w` wide and `h` high.
    pub fn new(x: i64, y: i64, w: i64, h: i64) -> (r: Rect)
        ensures
            r == (Rect { x, y, w, h }),
    {
        Rect { x, y, w, h }
    }

    /// Runtime test of `wf`.
    pub fn is_valid(&self) -> (ok: bool)
        ensures
            ok == self.wf(),
    {
        -COORD_LIMIT <= self.x && self.x <= COORD_LIMIT && -COORD_LIMIT <= self.y && self.y
            <= COORD_LIMIT && 0 <= self.w && self.w <= COORD_LIMIT && 0 <= self.h && self.h
            <= COORD_LIMIT
    }

    /// Rectangle intersection test, for any two rectangles.
    pub fn overlaps(&self, other: &Rect) -> (hit: bool)
        ensures
            hit == self.overlaps_spec(*other),
    {
        self.w > 0 && self.h > 0 && other.w > 0 && other.h > 0
            && (self.x as i128) < other.x as i128 + other.w as i128
            && (other.x as i128) < self.x as i128 + self.w as i128
            && (self.y as i128) < other.y as i128 + other.h as i128
            && (other.y as i128) < self.y as i128 + self.h as i128
    }

    /// Twice the centre, as exact integers.
    pub fn center2(&self) -> (c: (i64, i64))
        requires
            self.wf(),
        ensures
            c.0 == self.center2_x(),
            c.1 == self.center2_y(),
    {
        (2 * self.x + self.w, 2 * self.y + self.h)
    }
}

/// Overlap is symmetric.
pub proof fn lemma_overlap_symmetric(a: Rect, b: Rect)
    ensures
        a.overlaps_spec(b) == b.overlaps_spec(a),
{
}

/// A rectangle without area overlaps nothing.
pub proof fn lemma_empty_rect_overlaps_nothing(a: Rect, b: Rect)
    requires
        a.w <= 0 || a.h <= 0,
    ensures
        !a.overlaps_spec(b),
        !b.overlaps_spec(a),
{
}

} // verus!
