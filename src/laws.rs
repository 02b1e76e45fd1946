use vstd::prelude::*;
use crate::body::{Body, Vec2, COORD_LIMIT};
use crate::collision::{
    bounced, closing, collides, dist2, div_toward_zero, impulse, lemma_resolve_rows_len, offset_x,
    offset_y, overlapping, resolve_pair, resolve_row, resolve_rows, resolved, response_within_limit,
};
use crate::motion::{integrated, strictly_inside};

verus! {

/// A body touching or crossing the left wall leaves the frame with its
/// horizontal velocity reversed, so a nonzero one changes sign.
pub proof fn lemma_left_wall_reverses(b: Body, width: int, height: int)
    requires
        b.wf(),
        b.center.x - b.radius <= 0,
    ensures
        integrated(b, width, height).velocity.x == -b.velocity.x,
        b.velocity.x > 0 ==> integrated(b, width, height).velocity.x < 0,
        b.velocity.x < 0 ==> integrated(b, width, height).velocity.x > 0,
{
}

/// A body strictly inside the box keeps its velocity through a frame.
pub proof fn lemma_inside_keeps_velocity(b: Body, width: int, height: int)
    requires
        b.wf(),
        strictly_inside(b, width, height),
    ensures
        integrated(b, width, height).velocity == b.velocity,
{
}

/// A body at rest stays where it is.
pub proof fn lemma_rest_stays(b: Body, width: int, height: int)
    requires
        b.wf(),
        b.velocity == (Vec2 { x: 0, y: 0 }),
    ensures
        integrated(b, width, height).center == b.center,
        integrated(b, width, height).velocity == b.velocity,
{
}

/// Two frames that meet no wall move the center by exactly twice the
/// velocity, and leave the velocity as it was.
pub proof fn lemma_two_free_frames(b: Body, width: int, height: int)
    requires
        b.wf(),
        strictly_inside(b, width, height),
        strictly_inside(integrated(b, width, height), width, height),
        -COORD_LIMIT <= b.center.x + 2 * b.velocity.x <= COORD_LIMIT,
        -COORD_LIMIT <= b.center.y + 2 * b.velocity.y <= COORD_LIMIT,
    ensures
        integrated(integrated(b, width, height), width, height).center.x == b.center.x + 2
            * b.velocity.x,
        integrated(integrated(b, width, height), width, height).center.y == b.center.y + 2
            * b.velocity.y,
        integrated(integrated(b, width, height), width, height).velocity == b.velocity,
{
    let b1 = integrated(b, width, height);
    assert(b1.center.x == b.center.x + b.velocity.x);
    assert(b1.center.y == b.center.y + b.velocity.y);
}

proof fn lemma_swap_products(a: int, b: int, c: int, d: int)
    by (nonlinear_arith)
    ensures
        (a - b) * (c - d) == (b - a) * (d - c),
{
}

proof fn lemma_negate_last(a: int, b: int, c: int, d: int)
    by (nonlinear_arith)
    ensures
        a * b * c * (-d) == -(a * b * c * d),
{
}

/// `closing` and `dist2` do not depend on the order of the pair, and the
/// displacements are opposite.
pub proof fn lemma_pair_symmetric(a: Body, b: Body)
    ensures
        closing(b, a) == closing(a, b),
        dist2(b, a) == dist2(a, b),
        offset_x(b, a) == -offset_x(a, b),
        offset_y(b, a) == -offset_y(a, b),
{
    lemma_swap_products(b.velocity.x as int, a.velocity.x as int, b.center.x as int, a.center.x as int);
    lemma_swap_products(b.velocity.y as int, a.velocity.y as int, b.center.y as int, a.center.y as int);
    lemma_swap_products(0, a.center.x as int, 0, b.center.x as int);
    assert(offset_x(b, a) * offset_x(b, a) == offset_x(a, b) * offset_x(a, b)) by (nonlinear_arith)
        requires offset_x(b, a) == -offset_x(a, b);
    assert(offset_y(b, a) * offset_y(b, a) == offset_y(a, b) * offset_y(a, b)) by (nonlinear_arith)
        requires offset_y(b, a) == -offset_y(a, b);
}

/// Between bodies of equal mass the impulses are exact opposites, component
/// by component.
pub proof fn lemma_equal_mass_impulses_cancel(a: Body, b: Body)
    requires
        a.wf(),
        b.wf(),
        a.mass == b.mass,
        collides(a, b),
    ensures
        impulse(a, b, offset_x(a, b)) + impulse(b, a, offset_x(b, a)) == 0,
        impulse(a, b, offset_y(a, b)) + impulse(b, a, offset_y(b, a)) == 0,
{
    lemma_pair_symmetric(a, b);
    let den = (a.mass + b.mass) * dist2(a, b);
    assert(0 <= offset_x(a, b) * offset_x(a, b) + offset_y(a, b) * offset_y(a, b)) by (nonlinear_arith);
    assert(den > 0) by (nonlinear_arith)
        requires
            den == (a.mass + b.mass) * dist2(a, b),
            a.mass + b.mass > 0,
            dist2(a, b) > 0,
    ;
    assert((b.mass + a.mass) * dist2(b, a) == den);
    let k = closing(a, b);
    lemma_negate_last(2, a.mass as int, k, offset_x(a, b));
    lemma_negate_last(2, a.mass as int, k, offset_y(a, b));
    let nx = 2 * b.mass * k * offset_x(a, b);
    let ny = 2 * b.mass * k * offset_y(a, b);
    assert(2 * a.mass * closing(b, a) * offset_x(b, a) == -nx);
    assert(2 * a.mass * closing(b, a) * offset_y(b, a) == -ny);
    lemma_div_toward_zero_odd(nx, den);
    lemma_div_toward_zero_odd(ny, den);
}

/// Rounding toward zero is odd: `-a` rounds to the negation of what `a`
/// rounds to.
pub proof fn lemma_div_toward_zero_odd(a: int, d: int)
    requires
        d > 0,
    ensures
        div_toward_zero(-a, d) == -div_toward_zero(a, d),
{
    if a == 0 {
        assert(0int / d == 0) by (nonlinear_arith)
            requires
                d > 0,
        ;
    }
}

/// A collision pass over two bodies gives each its response to the other.
pub proof fn lemma_two_body_pass(a: Body, b: Body)
    ensures
        resolved(seq![a, b]) == seq![bounced(a, b), bounced(b, a)],
{
    let s = seq![a, b];
    lemma_resolve_rows_len(s, 1);
    assert(resolve_rows(s, 0) == s);
    assert(resolve_row(s, 0, 1) == s);
    assert(resolve_row(s, 0, 2) == resolve_pair(s, 1, 0));
    assert(resolve_rows(s, 1) == resolve_pair(s, 1, 0));
    assert(resolved(s) == resolve_rows(s, 1));
    assert(resolve_pair(s, 1, 0) =~= seq![bounced(a, b), bounced(b, a)]);
}

/// A collision pass over two bodies of equal mass keeps their total momentum:
/// the sum of their velocities is unchanged, unless a response had to be
/// held at the speed limit.
pub proof fn lemma_equal_mass_momentum(a: Body, b: Body)
    requires
        a.wf(),
        b.wf(),
        a.mass == b.mass,
        collides(a, b) ==> response_within_limit(a, b),
        collides(a, b) ==> response_within_limit(b, a),
    ensures
        resolved(seq![a, b])[0].velocity.x + resolved(seq![a, b])[1].velocity.x == a.velocity.x
            + b.velocity.x,
        resolved(seq![a, b])[0].velocity.y + resolved(seq![a, b])[1].velocity.y == a.velocity.y
            + b.velocity.y,
{
    lemma_two_body_pass(a, b);
    lemma_pair_symmetric(a, b);
    assert(collides(b, a) == collides(a, b));
    if collides(a, b) {
        lemma_equal_mass_impulses_cancel(a, b);
    }
}

/// A body that overlaps no other is left alone by every pair of a row.
proof fn lemma_row_apart(s: Seq<Body>, j: int, end: int)
    requires
        0 <= j,
        end <= s.len(),
        forall|p: int, q: int|
            0 <= p < s.len() && 0 <= q < s.len() && p != q ==> !overlapping(
                #[trigger] s[p],
                #[trigger] s[q],
            ),
    ensures
        resolve_row(s, j, end) == s,
    decreases end - j,
{
    if end > j + 1 {
        lemma_row_apart(s, j, end - 1);
        let i = end - 1;
        assert(!overlapping(s[i], s[j]));
        assert(!overlapping(s[j], s[i]));
        assert(resolve_pair(s, i, j) =~= s);
    }
}

/// A collision pass leaves a registry in which no two bodies overlap exactly
/// as it was.
pub proof fn lemma_apart_unchanged(s: Seq<Body>)
    requires
        forall|p: int, q: int|
            0 <= p < s.len() && 0 <= q < s.len() && p != q ==> !overlapping(
                #[trigger] s[p],
                #[trigger] s[q],
            ),
    ensures
        resolved(s) == s,
{
    lemma_rows_apart(s, s.len() as int);
}

proof fn lemma_rows_apart(s: Seq<Body>, rows: int)
    requires
        forall|p: int, q: int|
            0 <= p < s.len() && 0 <= q < s.len() && p != q ==> !overlapping(
                #[trigger] s[p],
                #[trigger] s[q],
            ),
    ensures
        resolve_rows(s, rows) == s,
    decreases rows,
{
    if rows > 0 {
        lemma_rows_apart(s, rows - 1);
        lemma_row_apart(s, rows - 1, s.len() as int);
    }
}

/// Bodies with coincident centers have no line of centers: the collision
/// pass skips the pair and leaves both exactly as they were.
pub proof fn lemma_coincident_pair_unchanged(a: Body, b: Body)
    requires
        a.center == b.center,
    ensures
        bounced(a, b) == a,
        bounced(b, a) == b,
        resolved(seq![a, b]) == seq![a, b],
{
    lemma_two_body_pass(a, b);
    assert(dist2(a, b) == 0);
    assert(dist2(b, a) == 0);
}

/// Rounding toward zero misses the exact quotient by less than one:
/// `d * div_toward_zero(n, d)` lies strictly within `d` of `n`.
pub proof fn lemma_div_toward_zero_close(n: int, d: int)
    requires
        d > 0,
    ensures
        n - d < d * div_toward_zero(n, d) < n + d,
{
    if n >= 0 {
        vstd::arithmetic::div_mod::lemma_fundamental_div_mod(n, d);
    } else {
        vstd::arithmetic::div_mod::lemma_fundamental_div_mod(-n, d);
        assert(d * (-((-n) / d)) == -(d * ((-n) / d))) by (nonlinear_arith);
    }
}

proof fn lemma_weighted_rounding(ma: int, mb: int, x: int, d: int, qa: int, qb: int)
    requires
        ma > 0,
        mb > 0,
        d > 0,
        2 * mb * x - d < d * qa < 2 * mb * x + d,
        -(2 * ma * x) - d < d * qb < -(2 * ma * x) + d,
    ensures
        -(ma + mb) < ma * qa + mb * qb < ma + mb,
{
    assert(ma * (2 * mb * x - d) < ma * (d * qa) < ma * (2 * mb * x + d)) by (nonlinear_arith)
        requires
            ma > 0,
            2 * mb * x - d < d * qa < 2 * mb * x + d,
    ;
    assert(mb * (-(2 * ma * x) - d) < mb * (d * qb) < mb * (-(2 * ma * x) + d)) by (nonlinear_arith)
        requires
            mb > 0,
            -(2 * ma * x) - d < d * qb < -(2 * ma * x) + d,
    ;
    assert(ma * (2 * mb * x) + mb * (-(2 * ma * x)) == 0) by (nonlinear_arith);
    assert(ma * (2 * mb * x - d) == ma * (2 * mb * x) - ma * d) by (nonlinear_arith);
    assert(ma * (2 * mb * x + d) == ma * (2 * mb * x) + ma * d) by (nonlinear_arith);
    assert(mb * (-(2 * ma * x) - d) == mb * (-(2 * ma * x)) - mb * d) by (nonlinear_arith);
    assert(mb * (-(2 * ma * x) + d) == mb * (-(2 * ma * x)) + mb * d) by (nonlinear_arith);
    assert(ma * (d * qa) + mb * (d * qb) == d * (ma * qa + mb * qb)) by (nonlinear_arith);
    assert((ma + mb) * d == ma * d + mb * d) by (nonlinear_arith);
    assert(-(ma + mb) < ma * qa + mb * qb < ma + mb) by (nonlinear_arith)
        requires
            d > 0,
            -((ma + mb) * d) < d * (ma * qa + mb * qb) < (ma + mb) * d,
    ;
}

/// Between bodies of any masses the impulses balance up to rounding: the
/// momentum they add, `m_a * impulse_a + m_b * impulse_b`, is less than
/// `m_a + m_b` in magnitude, component by component.
pub proof fn lemma_impulses_balance(a: Body, b: Body)
    requires
        a.wf(),
        b.wf(),
        collides(a, b),
    ensures
        -(a.mass + b.mass) < a.mass * impulse(a, b, offset_x(a, b)) + b.mass * impulse(
            b,
            a,
            offset_x(b, a),
        ) < a.mass + b.mass,
        -(a.mass + b.mass) < a.mass * impulse(a, b, offset_y(a, b)) + b.mass * impulse(
            b,
            a,
            offset_y(b, a),
        ) < a.mass + b.mass,
{
    lemma_pair_symmetric(a, b);
    let den = (a.mass + b.mass) * dist2(a, b);
    assert(0 <= offset_x(a, b) * offset_x(a, b) + offset_y(a, b) * offset_y(a, b)) by (nonlinear_arith);
    assert(den > 0) by (nonlinear_arith)
        requires
            den == (a.mass + b.mass) * dist2(a, b),
            a.mass + b.mass > 0,
            dist2(a, b) > 0,
    ;
    assert((b.mass + a.mass) * dist2(b, a) == den);
    let k = closing(a, b);
    let xs = k * offset_x(a, b);
    let ys = k * offset_y(a, b);
    assert(2 * b.mass * k * offset_x(a, b) == 2 * b.mass * xs) by (nonlinear_arith)
        requires
            xs == k * offset_x(a, b),
    ;
    assert(2 * b.mass * k * offset_y(a, b) == 2 * b.mass * ys) by (nonlinear_arith)
        requires
            ys == k * offset_y(a, b),
    ;
    assert(2 * a.mass * k * offset_x(b, a) == -(2 * a.mass * xs)) by (nonlinear_arith)
        requires
            offset_x(b, a) == -offset_x(a, b),
            xs == k * offset_x(a, b),
    ;
    assert(2 * a.mass * k * offset_y(b, a) == -(2 * a.mass * ys)) by (nonlinear_arith)
        requires
            offset_y(b, a) == -offset_y(a, b),
            ys == k * offset_y(a, b),
    ;
    lemma_div_toward_zero_close(2 * b.mass * xs, den);
    lemma_div_toward_zero_close(-(2 * a.mass * xs), den);
    lemma_div_toward_zero_close(2 * b.mass * ys, den);
    lemma_div_toward_zero_close(-(2 * a.mass * ys), den);
    lemma_weighted_rounding(
        a.mass as int,
        b.mass as int,
        xs,
        den,
        impulse(a, b, offset_x(a, b)),
        impulse(b, a, offset_x(b, a)),
    );
    lemma_weighted_rounding(
        a.mass as int,
        b.mass as int,
        ys,
        den,
        impulse(a, b, offset_y(a, b)),
        impulse(b, a, offset_y(b, a)),
    );
}

/// A collision pass over two bodies of any masses changes their total
/// momentum by less than `m_a + m_b` per component (rounding of the impulses
/// only), unless a response had to be held at the speed limit.
pub proof fn lemma_pass_momentum_balanced(a: Body, b: Body)
    requires
        a.wf(),
        b.wf(),
        collides(a, b) ==> response_within_limit(a, b),
        collides(a, b) ==> response_within_limit(b, a),
    ensures
        -(a.mass + b.mass) < a.mass * (resolved(seq![a, b])[0].velocity.x - a.velocity.x)
            + b.mass * (resolved(seq![a, b])[1].velocity.x - b.velocity.x) < a.mass + b.mass,
        -(a.mass + b.mass) < a.mass * (resolved(seq![a, b])[0].velocity.y - a.velocity.y)
            + b.mass * (resolved(seq![a, b])[1].velocity.y - b.velocity.y) < a.mass + b.mass,
{
    lemma_two_body_pass(a, b);
    lemma_pair_symmetric(a, b);
    assert(collides(b, a) == collides(a, b));
    if collides(a, b) {
        lemma_impulses_balance(a, b);
    } else {
        assert(a.mass * 0int + b.mass * 0int == 0) by (nonlinear_arith);
    }
}

} // verus!
