use vstd::prelude::*;
use crate::body::{saturate, saturate_i128, Body, Vec2, SPEED_LIMIT};

verus! {

/// `a / d` rounded toward zero, for `d > 0`.
pub open spec fn div_toward_zero(a: int, d: int) -> int {
    if a >= 0 {
        a / d
    } else {
        -((-a) / d)
    }
}

/// Horizontal displacement from `b`'s center to `other`'s.
pub open spec fn offset_x(b: Body, other: Body) -> int {
    other.center.x - b.center.x
}

/// Vertical displacement from `b`'s center to `other`'s.
pub open spec fn offset_y(b: Body, other: Body) -> int {
    other.center.y - b.center.y
}

/// Squared distance between the two centers.
pub open spec fn dist2(b: Body, other: Body) -> int {
    offset_x(b, other) * offset_x(b, other) + offset_y(b, other) * offset_y(b, other)
}

/// The two discs overlap: the squared distance of the centers is strictly
/// below the squared sum of the radii.
pub open spec fn overlapping(b: Body, other: Body) -> bool {
    dist2(b, other) < (b.radius + other.radius) * (b.radius + other.radius)
}

/// The pair gets a collision response: the discs overlap and the centers are
/// apart. A pair with coincident centers has no line of centers and is left
/// alone.
pub open spec fn collides(b: Body, other: Body) -> bool {
    overlapping(b, other) && dist2(b, other) != 0
}

/// Relative velocity projected on the displacement, unnormalised:
/// `(v_other - v_b) . (c_other - c_b)`. The same for both orders of the pair.
pub open spec fn closing(b: Body, other: Body) -> int {
    (other.velocity.x - b.velocity.x) * offset_x(b, other)
        + (other.velocity.y - b.velocity.y) * offset_y(b, other)
}

/// The velocity change of `b` along a component whose displacement is `d`:
/// `2 m_other / (m_b + m_other) * closing / dist2 * d`, rounded toward zero.
pub open spec fn impulse(b: Body, other: Body, d: int) -> int {
    div_toward_zero(
        2 * other.mass * closing(b, other) * d,
        (b.mass + other.mass) * dist2(b, other),
    )
}

/// `b` after its collision response to `other`: when the pair collides, each
/// velocity component changes by its impulse (held within the speed limit);
/// otherwise `b` is unchanged.
pub open spec fn bounced(b: Body, other: Body) -> Body {
    if collides(b, other) {
        Body {
            center: b.center,
            velocity: Vec2 {
                x: saturate(b.velocity.x + impulse(b, other, offset_x(b, other)), SPEED_LIMIT as int) as i64,
                y: saturate(b.velocity.y + impulse(b, other, offset_y(b, other)), SPEED_LIMIT as int) as i64,
            },
            radius: b.radius,
            mass: b.mass,
        }
    } else {
        b
    }
}

/// Both velocity components of `b`, changed by their impulses from `other`,
/// lie within the speed limit, so the response needs no saturation.
pub open spec fn response_within_limit(b: Body, other: Body) -> bool {
    &&& -SPEED_LIMIT <= b.velocity.x + impulse(b, other, offset_x(b, other)) <= SPEED_LIMIT
    &&& -SPEED_LIMIT <= b.velocity.y + impulse(b, other, offset_y(b, other)) <= SPEED_LIMIT
}

/// The registry after the pair `(i, j)` has been resolved: both bodies respond
/// to each other as they were before.
pub open spec fn resolve_pair(s: Seq<Body>, i: int, j: int) -> Seq<Body> {
    s.update(i, bounced(s[i], s[j])).update(j, bounced(s[j], s[i]))
}

/// The registry after the pairs `(j + 1, j), (j + 2, j), ..., (end - 1, j)`
/// have been resolved in that order.
pub open spec fn resolve_row(s: Seq<Body>, j: int, end: int) -> Seq<Body>
    decreases end - j,
{
    if end <= j + 1 {
        s
    } else {
        resolve_pair(resolve_row(s, j, end - 1), end - 1, j)
    }
}

/// The registry after the rows `0, 1, ..., rows - 1` have been resolved in
/// that order, each against all later bodies.
pub open spec fn resolve_rows(s: Seq<Body>, rows: int) -> Seq<Body>
    decreases rows,
{
    if rows <= 0 {
        s
    } else {
        let t = resolve_rows(s, rows - 1);
        resolve_row(t, rows - 1, t.len() as int)
    }
}

/// The registry after one collision pass over every unordered pair.
pub open spec fn resolved(s: Seq<Body>) -> Seq<Body> {
    resolve_rows(s, s.len() as int)
}

/// Every body of the registry is well formed.
pub open spec fn all_wf(s: Seq<Body>) -> bool {
    forall|k: int| 0 <= k < s.len() ==> #[trigger] s[k].wf()
}

proof fn lemma_mul_within(x: int, y: int, bx: int, by: int)
    by (nonlinear_arith)
    requires
        0 <= bx,
        0 <= by,
        -bx <= x <= bx,
        -by <= y <= by,
    ensures
        -(bx * by) <= x * y <= bx * by,
{
}

proof fn lemma_square_sum_nonneg(x: int, y: int)
    by (nonlinear_arith)
    ensures
        0 <= x * x + y * y,
{
}

proof fn lemma_mul_positive(a: int, b: int)
    by (nonlinear_arith)
    requires
        0 < a,
        0 < b,
    ensures
        0 < a * b,
{
}

proof fn lemma_quotient_within(a: int, d: int)
    by (nonlinear_arith)
    requires
        0 <= a,
        1 <= d,
    ensures
        0 <= a / d <= a,
{
}

/// `a / d` rounded toward zero.
fn div_toward_zero_i128(a: i128, d: i128) -> (q: i128)
    requires
        d > 0,
        a > i128::MIN,
    ensures
        q == div_toward_zero(a as int, d as int),
{
    if a >= 0 {
        proof {
            lemma_quotient_within(a as int, d as int);
        }
        ((a as u128) / (d as u128)) as i128
    } else {
        proof {
            lemma_quotient_within(-a, d as int);
        }
        -((((-a) as u128) / (d as u128)) as i128)
    }
}

impl Body {
    /// This body after its collision response to `other`.
    pub fn bounce_off(&self, other: &Body) -> (r: Body)
        requires
            self.wf(),
            other.wf(),
        ensures
            r == bounced(*self, *other),
            r.wf(),
    {
        let dx: i128 = other.center.x as i128 - self.center.x as i128;
        let dy: i128 = other.center.y as i128 - self.center.y as i128;
        let reach: i128 = self.radius as i128 + other.radius as i128;
        // Displacements and the radius sum lie within 2^32, squares within 2^64.
        proof {
            lemma_mul_within(dx as int, dx as int, 0x1_0000_0000, 0x1_0000_0000);
            lemma_mul_within(dy as int, dy as int, 0x1_0000_0000, 0x1_0000_0000);
            lemma_mul_within(reach as int, reach as int, 0x1_0000_0000, 0x1_0000_0000);
        }
        let d2: i128 = dx * dx + dy * dy;
        if d2 == 0 || d2 >= reach * reach {
            return *self;
        }
        let ax: i128 = other.velocity.x as i128 - self.velocity.x as i128;
        let ay: i128 = other.velocity.y as i128 - self.velocity.y as i128;
        // Relative velocities lie within 2^32, so `k` lies within 2^65.
        proof {
            lemma_mul_within(ax as int, dx as int, 0x1_0000_0000, 0x1_0000_0000);
            lemma_mul_within(ay as int, dy as int, 0x1_0000_0000, 0x1_0000_0000);
        }
        let k: i128 = ax * dx + ay * dy;
        let weight: i128 = 2 * other.mass as i128;
        // `weight` is below 2^21: the numerators stay within 2^118, `den` within 2^86.
        proof {
            lemma_mul_within(weight as int, k as int, 0x20_0000, 0x2_0000_0000_0000_0000);
        }
        let wk: i128 = weight * k;
        proof {
            lemma_mul_within(wk as int, dx as int, 0x40_0000_0000_0000_0000_0000, 0x1_0000_0000);
            lemma_mul_within(wk as int, dy as int, 0x40_0000_0000_0000_0000_0000, 0x1_0000_0000);
            lemma_mul_within(
                (self.mass + other.mass) as int,
                d2 as int,
                0x20_0000,
                0x4_0000_0000_0000_0000,
            );
        }
        let den: i128 = (self.mass as i128 + other.mass as i128) * d2;
        proof {
            lemma_square_sum_nonneg(dx as int, dy as int);
            lemma_mul_positive((self.mass + other.mass) as int, d2 as int);
        }
        let ix = div_toward_zero_i128(wk * dx, den);
        let iy = div_toward_zero_i128(wk * dy, den);
        proof {
            assert(wk * dx == 2 * other.mass * closing(*self, *other) * offset_x(*self, *other));
            assert(wk * dy == 2 * other.mass * closing(*self, *other) * offset_y(*self, *other));
        }
        let vx = saturate_i128(self.velocity.x as i128 + ix, SPEED_LIMIT);
        let vy = saturate_i128(self.velocity.y as i128 + iy, SPEED_LIMIT);
        Body {
            center: self.center,
            velocity: Vec2 { x: vx, y: vy },
            radius: self.radius,
            mass: self.mass,
        }
    }
}

/// Resolving pairs keeps the registry's length.
pub proof fn lemma_resolve_row_len(s: Seq<Body>, j: int, end: int)
    requires
        0 <= j,
        end <= s.len(),
    ensures
        resolve_row(s, j, end).len() == s.len(),
    decreases end - j,
{
    if end > j + 1 {
        lemma_resolve_row_len(s, j, end - 1);
    }
}

/// Resolving rows keeps the registry's length.
pub proof fn lemma_resolve_rows_len(s: Seq<Body>, rows: int)
    ensures
        resolve_rows(s, rows).len() == s.len(),
    decreases rows,
{
    if rows > 0 {
        lemma_resolve_rows_len(s, rows - 1);
        let t = resolve_rows(s, rows - 1);
        lemma_resolve_row_len(t, rows - 1, t.len() as int);
    }
}

/// One collision pass: every unordered pair of bodies, with `j` running over
/// the registry and `i` over the bodies after `j`, gets the collision
/// response. Pairs with coincident centers are skipped.
pub fn resolve_collisions(bodies: &mut Vec<Body>)
    requires
        all_wf(old(bodies)@),
    ensures
        final(bodies)@ == resolved(old(bodies)@),
        all_wf(final(bodies)@),
{
    let n = bodies.len();
    let mut j: usize = 0;
    while j < n
        invariant
            n == bodies.len(),
            n == old(bodies).len(),
            j <= n,
            bodies@ == resolve_rows(old(bodies)@, j as int),
            all_wf(bodies@),
        decreases n - j,
    {
        let ghost start = bodies@;
        let mut i: usize = j + 1;
        while i < n
            invariant
                n == bodies.len(),
                n == start.len(),
                j < n,
                j + 1 <= i <= n,
                bodies@ == resolve_row(start, j as int, i as int),
                all_wf(bodies@),
            decreases n - i,
        {
            let bi = bodies[i];
            let bj = bodies[j];
            let ni = bi.bounce_off(&bj);
            let nj = bj.bounce_off(&bi);
            bodies.set(i, ni);
            bodies.set(j, nj);
            i = i + 1;
        }
        proof {
            lemma_resolve_rows_len(old(bodies)@, j as int);
        }
        j = j + 1;
    }
}

} // verus!
