//! Integer vectors and axis-aligned bounding boxes, with the magnitude
//! limits under which every product taken by the solver fits in `i64`.

use vstd::prelude::*;

verus! {

/// Largest coordinate magnitude the library accepts for positions and bounds.
pub const MAX_COORD: i64 = 1_000_000_000;

/// Largest velocity component magnitude the solver stages accept.
pub const MAX_VELOCITY: i64 = 1_000_000;

/// Largest force component magnitude force integration accepts.
pub const MAX_FORCE: i64 = 1_000_000;

/// Largest inverse mass the solver stages accept.
pub const MAX_INVERSE_MASS: i64 = 1_000_000;

/// Largest tick duration force integration accepts.
pub const MAX_DELTA: i64 = 1_000;

/// Fixed-point scale for restitution: a material's restitution ranges over
/// `0 ..= RESTITUTION_SCALE`, standing for the real interval [0, 1].
pub const RESTITUTION_SCALE: i64 = 1_000;

/// Absolute value over mathematical integers.
pub open spec fn abs_of(x: int) -> int {
    if x < 0 {
        -x
    } else {
        x
    }
}

/// A two-dimensional vector in integer simulation units.
#[derive(Clone, Copy, PartialEq, Eq, Structural, Debug)]
pub struct Vector2 {
    pub x: i64,
    pub y: i64,
}

impl Vector2 {
    /// The zero vector.
    pub open spec fn zero_spec() -> Vector2 {
        Vector2 { x: 0, y: 0 }
    }

    /// Both components lie within `-m ..= m`.
    pub open spec fn in_range(self, m: int) -> bool {
        -m <= self.x <= m && -m <= self.y <= m
    }

    pub fn new(x: i64, y: i64) -> (r: Vector2)
        ensures
            r == (Vector2 { x, y }),
    {
        Vector2 { x, y }
    }

    pub fn zero() -> (r: Vector2)
        ensures
            r == Vector2::zero_spec(),
    {
        Vector2 { x: 0, y: 0 }
    }
}

/// An axis-aligned bounding box, the cheap overlap proxy the broad phase
/// works with.
#[derive(Clone, Copy, PartialEq, Eq, Structural, Debug)]
pub struct Aabb {
    pub min: Vector2,
    pub max: Vector2,
}

impl Aabb {
    /// The lower corner lies at or below the upper corner on both axes.
    pub open spec fn wf(self) -> bool {
        self.min.x <= self.max.x && self.min.y <= self.max.y
    }

    /// Closed-interval overlap on both axes: boxes that merely touch
    /// count as intersecting.
    pub open spec fn intersects_spec(a: Aabb, b: Aabb) -> bool {
        a.min.x <= b.max.x && b.min.x <= a.max.x && a.min.y <= b.max.y && b.min.y <= a.max.y
    }

    /// All four corner coordinates lie within `-m ..= m`.
    pub open spec fn in_range(self, m: int) -> bool {
        self.min.in_range(m) && self.max.in_range(m)
    }

    pub fn new(min: Vector2, max: Vector2) -> (r: Aabb)
        requires
            min.x <= max.x,
            min.y <= max.y,
        ensures
            r == (Aabb { min, max }),
            r.wf(),
    {
        Aabb { min, max }
    }

    pub fn intersects(&self, other: &Aabb) -> (r: bool)
        ensures
            r == Aabb::intersects_spec(*self, *other),
    {
        self.min.x <= other.max.x && other.min.x <= self.max.x && self.min.y <= other.max.y
            && other.min.y <= self.max.y
    }
}

} // verus!
