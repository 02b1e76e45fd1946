use vstd::prelude::*;
use crate::body::{saturate, saturate_i128, Body, Vec2, COORD_LIMIT, SPEED_LIMIT};

verus! {

/// Whether a body of radius `r` centered at `c` touches or crosses either end
/// of the interval `[0, extent]`.
pub open spec fn at_wall(c: int, r: int, extent: int) -> bool {
    c - r <= 0 || c + r >= extent
}

/// The body lies strictly inside the box `[0, width] x [0, height]` along both
/// axes, touching no wall.
pub open spec fn strictly_inside(b: Body, width: int, height: int) -> bool {
    &&& 0 < b.center.x - b.radius
    &&& b.center.x + b.radius < width
    &&& 0 < b.center.y - b.radius
    &&& b.center.y + b.radius < height
}

/// The velocity component `v` after the wall check along one axis: negated
/// when the body touches or crosses a wall of that axis.
pub open spec fn reflect(v: int, c: int, r: int, extent: int) -> int {
    if at_wall(c, r, extent) {
        -v
    } else {
        v
    }
}

/// The body after one frame in the box `[0, width] x [0, height]`: each
/// velocity component is reflected first, then the center moves by the
/// resulting velocity (held within the coordinate limit).
pub open spec fn integrated(b: Body, width: int, height: int) -> Body {
    let vx = reflect(b.velocity.x as int, b.center.x as int, b.radius as int, width);
    let vy = reflect(b.velocity.y as int, b.center.y as int, b.radius as int, height);
    Body {
        center: Vec2 {
            x: saturate(b.center.x + vx, COORD_LIMIT as int) as i64,
            y: saturate(b.center.y + vy, COORD_LIMIT as int) as i64,
        },
        velocity: Vec2 { x: vx as i64, y: vy as i64 },
        radius: b.radius,
        mass: b.mass,
    }
}

/// One axis of a frame: the reflected velocity and the moved coordinate.
fn advance_axis(c: i64, v: i64, r: i64, extent: i64) -> (res: (i64, i64))
    requires
        -COORD_LIMIT <= c <= COORD_LIMIT,
        -SPEED_LIMIT <= v <= SPEED_LIMIT,
        0 < r <= COORD_LIMIT,
    ensures
        res.1 == reflect(v as int, c as int, r as int, extent as int),
        res.0 == saturate(c + res.1, COORD_LIMIT as int),
{
    let nv: i64 = if c - r <= 0 || c + r >= extent {
        -v
    } else {
        v
    };
    let nc = saturate_i128(c as i128 + nv as i128, COORD_LIMIT);
    (nc, nv)
}

impl Body {
    /// Advances the body by one frame in the box `[0, width] x [0, height]`:
    /// a velocity component is negated when the body touches or crosses a
    /// wall of its axis, then the center moves by the velocity.
    pub fn integrate(&mut self, width: i64, height: i64)
        requires
            old(self).wf(),
        ensures
            *final(self) == integrated(*old(self), width as int, height as int),
            final(self).wf(),
    {
        let (x, vx) = advance_axis(self.center.x, self.velocity.x, self.radius, width);
        let (y, vy) = advance_axis(self.center.y, self.velocity.y, self.radius, height);
        self.center = Vec2 { x, y };
        self.velocity = Vec2 { x: vx, y: vy };
    }
}

} // verus!
