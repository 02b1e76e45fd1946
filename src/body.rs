use vstd::prelude::*;

verus! {

/// Largest magnitude of a center coordinate or of a radius.
pub const COORD_LIMIT: i64 = 0x8000_0000;

/// Largest magnitude of a velocity component, in length units per frame.
pub const SPEED_LIMIT: i64 = 0x8000_0000;

/// Largest mass, in thousandths of a mass unit.
pub const MASS_LIMIT: i64 = 1_000_000;

/// The mass every body gets unless another is given: 1.5 units.
pub const DEFAULT_MASS: i64 = 1500;

/// `v` held within `[-limit, limit]`.
pub open spec fn saturate(v: int, limit: int) -> int {
    if v > limit {
        limit
    } else if v < -limit {
        -limit
    } else {
        v
    }
}

/// A point or displacement in the plane, in fixed-point length units.
#[derive(Clone, Copy, Debug, PartialEq, Eq, Structural)]
pub struct Vec2 {
    pub x: i64,
    pub y: i64,
}

impl Vec2 {
    pub fn new(x: i64, y: i64) -> (r: Vec2)
        ensures
            r.x == x,
            r.y == y,
    {
        Vec2 { x, y }
    }
}

/// A rigid circular body.
#[derive(Clone, Copy, Debug, PartialEq, Eq, Structural)]
pub struct Body {
    pub center: Vec2,
    pub velocity: Vec2,
    pub radius: i64,
    pub mass: i64,
}

impl Body {
    /// Radius and mass are positive, and every quantity lies within its limit.
    pub open spec fn wf(&self) -> bool {
        &&& -COORD_LIMIT <= self.center.x <= COORD_LIMIT
        &&& -COORD_LIMIT <= self.center.y <= COORD_LIMIT
        &&& -SPEED_LIMIT <= self.velocity.x <= SPEED_LIMIT
        &&& -SPEED_LIMIT <= self.velocity.y <= SPEED_LIMIT
        &&& 0 < self.radius <= COORD_LIMIT
        &&& 0 < self.mass <= MASS_LIMIT
    }

    /// A body of the default mass.
    pub fn new(center: Vec2, radius: i64, velocity: Vec2) -> (r: Body)
        requires
            (Body { center, velocity, radius, mass: DEFAULT_MASS }).wf(),
        ensures
            r == (Body { center, velocity, radius, mass: DEFAULT_MASS }),
            r.wf(),
    {
        Body { center, velocity, radius, mass: DEFAULT_MASS }
    }

    /// A body of the given mass.
    pub fn with_mass(center: Vec2, radius: i64, velocity: Vec2, mass: i64) -> (r: Body)
        requires
            (Body { center, velocity, radius, mass }).wf(),
        ensures
            r == (Body { center, velocity, radius, mass }),
            r.wf(),
    {
        Body { center, velocity, radius, mass }
    }
}

/// `v` held within `[-limit, limit]`.
pub(crate) fn saturate_i128(v: i128, limit: i64) -> (r: i64)
    requires
        limit >= 0,
    ensures
        r == saturate(v as int, limit as int),
{
    if v > limit as i128 {
        limit
    } else if v < -(limit as i128) {
        -limit
    } else {
        v as i64
    }
}

} // verus!
