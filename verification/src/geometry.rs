//! Integer geometry of the window and of the atlas.
//!
//! Window positions are whole pixels, kept inside a fixed coordinate range so
//! that every position the interface produces is exactly representable as a
//! single-precision number on the way to the renderer.

use vstd::prelude::*;

verus! {

/// Largest coordinate magnitude: two to the twenty-fourth.
pub const COORD_MAX: i32 = 16_777_216;

/// A position in window pixel space; `y` grows downwards.
#[derive(Clone, Copy, Debug, PartialEq, Eq, Structural)]
pub struct Point {
    pub x: i32,
    pub y: i32,
}

/// A position in atlas space, counted in texels from the top-left corner.
#[derive(Clone, Copy, Debug, PartialEq, Eq, Structural)]
pub struct Texel {
    pub u: u32,
    pub v: u32,
}

/// A width and a height in whole pixels.
#[derive(Clone, Copy, Debug, PartialEq, Eq, Structural)]
pub struct Extent {
    pub w: u32,
    pub h: u32,
}

/// An axis-aligned rectangle in window pixel space. It covers the pixels
/// `x .. x + w` by `y .. y + h`, the upper bounds excluded.
#[derive(Clone, Copy, Debug, PartialEq, Eq, Structural)]
pub struct Rect {
    pub x: i32,
    pub y: i32,
    pub w: u32,
    pub h: u32,
}

/// An axis-aligned rectangle of texels inside the atlas.
#[derive(Clone, Copy, Debug, PartialEq, Eq, Structural)]
pub struct AtlasRect {
    pub x: u32,
    pub y: u32,
    pub w: u32,
    pub h: u32,
}

/// The coordinate nearest to `v` inside the coordinate range.
pub open spec fn clamp_coord(v: int) -> int {
    if v < -(COORD_MAX as int) {
        -(COORD_MAX as int)
    } else if v > COORD_MAX as int {
        COORD_MAX as int
    } else {
        v
    }
}

/// Whether `v` lies inside the coordinate range.
pub open spec fn in_coord_range(v: int) -> bool {
    -(COORD_MAX as int) <= v <= COORD_MAX as int
}

/// Moves a coordinate by `delta`, stopping at the ends of the coordinate range.
pub fn shift(base: i32, delta: i64) -> (moved: i32)
    ensures
        moved == clamp_coord(base + delta),
{
    let limit: i64 = COORD_MAX as i64;
    if delta > 2 * limit + (i32::MAX as i64) {
        COORD_MAX
    } else if delta < -2 * limit - (i32::MAX as i64) {
        -COORD_MAX
    } else {
        let sum: i64 = base as i64 + delta;
        if sum < -limit {
            -COORD_MAX
        } else if sum > limit {
            COORD_MAX
        } else {
            sum as i32
        }
    }
}

impl Point {
    /// Whether both coordinates lie inside the coordinate range.
    pub open spec fn in_range(self) -> bool {
        in_coord_range(self.x as int) && in_coord_range(self.y as int)
    }

    /// The point with both coordinates brought into the coordinate range.
    pub open spec fn clamped(self) -> Point {
        Point { x: clamp_coord(self.x as int) as i32, y: clamp_coord(self.y as int) as i32 }
    }

    /// Brings both coordinates into the coordinate range.
    pub fn clamp(self) -> (p: Point)
        ensures
            p == self.clamped(),
            p.in_range(),
    {
        Point { x: shift(self.x, 0), y: shift(self.y, 0) }
    }
}

impl Rect {
    /// Whether the pixel `p` lies inside the rectangle.
    pub open spec fn spec_contains(self, p: Point) -> bool {
        &&& self.x <= p.x < self.x + self.w
        &&& self.y <= p.y < self.y + self.h
    }

    /// Point-in-rectangle test; the right and bottom edges are outside.
    #[verifier::when_used_as_spec(spec_contains)]
    pub fn contains(self, p: Point) -> (inside: bool)
        ensures
            inside == self.spec_contains(p),
    {
        let px: i64 = p.x as i64;
        let py: i64 = p.y as i64;
        let left: i64 = self.x as i64;
        let top: i64 = self.y as i64;
        left <= px && px < left + self.w as i64 && top <= py && py < top + self.h as i64
    }

    /// The corner shared by the right and bottom edges, inside the coordinate
    /// range.
    pub open spec fn spec_far_corner(self) -> Point {
        Point {
            x: clamp_coord(self.x + self.w) as i32,
            y: clamp_coord(self.y + self.h) as i32,
        }
    }

    /// The top-left corner.
    pub open spec fn spec_origin(self) -> Point {
        Point { x: self.x, y: self.y }
    }

    #[verifier::when_used_as_spec(spec_far_corner)]
    pub fn far_corner(self) -> (p: Point)
        ensures
            p == self.spec_far_corner(),
    {
        Point { x: shift(self.x, self.w as i64), y: shift(self.y, self.h as i64) }
    }

    #[verifier::when_used_as_spec(spec_origin)]
    pub fn origin(self) -> (p: Point)
        ensures
            p == self.spec_origin(),
    {
        Point { x: self.x, y: self.y }
    }
}

impl AtlasRect {
    /// Whether the texel `(u, v)` lies inside the rectangle.
    pub open spec fn covers(self, u: int, v: int) -> bool {
        &&& self.x <= u < self.x + self.w
        &&& self.y <= v < self.y + self.h
    }

    /// Whether the rectangle lies fully inside an atlas of the given size.
    pub open spec fn within(self, width: int, height: int) -> bool {
        &&& self.x + self.w <= width
        &&& self.y + self.h <= height
    }

    /// Whether a vertical or a horizontal line separates the two rectangles.
    pub open spec fn apart(self, other: AtlasRect) -> bool {
        ||| self.x + self.w <= other.x
        ||| other.x + other.w <= self.x
        ||| self.y + self.h <= other.y
        ||| other.y + other.h <= self.y
    }

    /// The corner opposite the origin.
    pub open spec fn spec_far_corner(self) -> (int, int) {
        (self.x + self.w, self.y + self.h)
    }
}

} // verus!
