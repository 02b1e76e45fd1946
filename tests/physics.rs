use bouncing_balls::body::{Body, Vec2, COORD_LIMIT, DEFAULT_MASS, MASS_LIMIT, SPEED_LIMIT};
use bouncing_balls::collision::resolve_collisions;
use bouncing_balls::frame::{integrate_all, step};

fn body(x: i64, y: i64, r: i64, vx: i64, vy: i64) -> Body {
    Body::new(Vec2::new(x, y), r, Vec2::new(vx, vy))
}

#[test]
fn new_body_has_default_mass() {
    let b = body(1, 2, 3, 4, 5);
    assert_eq!(b.mass, DEFAULT_MASS);
    assert_eq!(b.mass, 1500);
    assert_eq!(b.center, Vec2::new(1, 2));
    assert_eq!(b.velocity, Vec2::new(4, 5));
    assert_eq!(b.radius, 3);
    let h = Body::with_mass(Vec2::new(1, 2), 3, Vec2::new(4, 5), 7);
    assert_eq!(h.mass, 7);
}

#[test]
fn end_to_end_right_wall_bounce() {
    let mut b = body(635, 240, 50, 5, 0);
    b.integrate(640, 480);
    assert_eq!(b.velocity, Vec2::new(-5, 0));
    assert_eq!(b.center, Vec2::new(630, 240));
}

#[test]
fn left_wall_reverses_horizontal_velocity() {
    let mut b = body(50, 240, 50, -3, 2);
    b.integrate(640, 480);
    assert_eq!(b.velocity, Vec2::new(3, 2));
    assert_eq!(b.center, Vec2::new(53, 242));

    let mut c = body(10, 240, 50, 4, 0);
    c.integrate(640, 480);
    assert_eq!(c.velocity.x, -4);
    assert_eq!(c.center.x, 6);
}

#[test]
fn top_and_bottom_walls_reverse_vertical_velocity() {
    let mut b = body(320, 470, 10, 0, 7);
    b.integrate(640, 480);
    assert_eq!(b.velocity, Vec2::new(0, -7));
    assert_eq!(b.center, Vec2::new(320, 463));

    let mut c = body(320, 5, 10, 1, -2);
    c.integrate(640, 480);
    assert_eq!(c.velocity, Vec2::new(1, 2));
    assert_eq!(c.center, Vec2::new(321, 7));
}

#[test]
fn inside_body_keeps_velocity() {
    let mut b = body(320, 240, 50, 6, -4);
    b.integrate(640, 480);
    assert_eq!(b.velocity, Vec2::new(6, -4));
    assert_eq!(b.center, Vec2::new(326, 236));
}

#[test]
fn resting_body_stays() {
    let mut b = body(320, 240, 50, 0, 0);
    b.integrate(640, 480);
    assert_eq!(b.center, Vec2::new(320, 240));
    let mut edge = body(0, 0, 50, 0, 0);
    edge.integrate(640, 480);
    assert_eq!(edge.center, Vec2::new(0, 0));
    assert_eq!(edge.velocity, Vec2::new(0, 0));
}

#[test]
fn two_free_frames_move_twice() {
    let mut b = body(200, 100, 20, 7, 9);
    b.integrate(640, 480);
    b.integrate(640, 480);
    assert_eq!(b.center, Vec2::new(214, 118));
    assert_eq!(b.velocity, Vec2::new(7, 9));
}

#[test]
fn moved_center_is_held_at_coordinate_limit() {
    let mut b = body(COORD_LIMIT - 10, 0, 1, SPEED_LIMIT, 0);
    b.integrate(i64::MAX, 0);
    assert_eq!(b.center.x, COORD_LIMIT);
    assert_eq!(b.velocity.x, SPEED_LIMIT);
}

#[test]
fn equal_mass_head_on_exchanges_normal_components() {
    let mut v = vec![body(0, 0, 1, 3, 2), body(1, 0, 1, -1, 4)];
    resolve_collisions(&mut v);
    assert_eq!(v[0].velocity, Vec2::new(-1, 2));
    assert_eq!(v[1].velocity, Vec2::new(3, 4));
    let sum_x = v[0].velocity.x + v[1].velocity.x;
    let sum_y = v[0].velocity.y + v[1].velocity.y;
    assert_eq!((sum_x, sum_y), (2, 6));
    assert_eq!(v[0].center, Vec2::new(0, 0));
    assert_eq!(v[1].center, Vec2::new(1, 0));
}

#[test]
fn oblique_impulse_rounds_toward_zero() {
    let mut v = vec![body(0, 0, 3, 10, 0), body(3, 4, 3, 0, 0)];
    resolve_collisions(&mut v);
    assert_eq!(v[0].velocity, Vec2::new(7, -4));
    assert_eq!(v[1].velocity, Vec2::new(3, 4));
}

#[test]
fn unequal_masses_follow_mass_ratio() {
    let a = Body::with_mass(Vec2::new(0, 0), 2, Vec2::new(4, 0), 1000);
    let b = Body::with_mass(Vec2::new(2, 0), 2, Vec2::new(0, 0), 3000);
    assert_eq!(a.bounce_off(&b).velocity, Vec2::new(-2, 0));
    assert_eq!(b.bounce_off(&a).velocity, Vec2::new(2, 0));
    let mut v = vec![a, b];
    resolve_collisions(&mut v);
    let before = 1000 * 4;
    let after = 1000 * v[0].velocity.x + 3000 * v[1].velocity.x;
    assert_eq!(after, before);
}

#[test]
fn far_apart_bodies_are_untouched() {
    let a = body(0, 0, 1, 3, -2);
    let b = body(10, 0, 1, -5, 1);
    let mut v = vec![a, b];
    resolve_collisions(&mut v);
    assert_eq!(v, vec![a, b]);
}

#[test]
fn touching_bodies_do_not_collide() {
    let a = body(0, 0, 1, 3, 0);
    let b = body(2, 0, 1, -3, 0);
    let mut v = vec![a, b];
    resolve_collisions(&mut v);
    assert_eq!(v, vec![a, b]);
}

#[test]
fn coincident_centers_are_skipped() {
    let a = body(5, 5, 2, 1, 1);
    let b = body(5, 5, 3, -1, 2);
    let mut v = vec![a, b];
    resolve_collisions(&mut v);
    assert_eq!(v, vec![a, b]);
    resolve_collisions(&mut v);
    assert_eq!(v, vec![a, b]);
}

#[test]
fn pairs_resolve_in_row_order() {
    let mut v = vec![body(0, 0, 1, 1, 0), body(1, 0, 1, 0, 0), body(2, 0, 1, 0, 0)];
    resolve_collisions(&mut v);
    assert_eq!(v[0].velocity, Vec2::new(0, 0));
    assert_eq!(v[1].velocity, Vec2::new(0, 0));
    assert_eq!(v[2].velocity, Vec2::new(1, 0));
}

#[test]
fn empty_and_single_registries() {
    let mut empty: Vec<Body> = Vec::new();
    resolve_collisions(&mut empty);
    assert!(empty.is_empty());
    let mut one = vec![body(3, 3, 5, 1, 1)];
    resolve_collisions(&mut one);
    assert_eq!(one, vec![body(3, 3, 5, 1, 1)]);
}

#[test]
fn response_is_held_at_speed_limit() {
    let a = Body::with_mass(Vec2::new(0, 0), 1, Vec2::new(SPEED_LIMIT, 0), 1);
    let b = Body::with_mass(Vec2::new(1, 0), 1, Vec2::new(-SPEED_LIMIT, 0), MASS_LIMIT);
    let mut v = vec![a, b];
    resolve_collisions(&mut v);
    assert_eq!(v[0].velocity, Vec2::new(-SPEED_LIMIT, 0));
    assert_eq!(v[1].velocity, Vec2::new(-SPEED_LIMIT + 8589, 0));
}

#[test]
fn integrate_all_moves_every_body() {
    let mut v = vec![body(635, 240, 50, 5, 0), body(320, 240, 30, 1, 1)];
    integrate_all(&mut v, 640, 480);
    assert_eq!(v[0].center, Vec2::new(630, 240));
    assert_eq!(v[0].velocity, Vec2::new(-5, 0));
    assert_eq!(v[1].center, Vec2::new(321, 241));
}

#[test]
fn step_resolves_then_moves() {
    let mut v = vec![body(100, 100, 10, 3, 0), body(110, 100, 10, 0, 0)];
    step(&mut v, 640, 480);
    assert_eq!(v[0].velocity, Vec2::new(0, 0));
    assert_eq!(v[1].velocity, Vec2::new(3, 0));
    assert_eq!(v[0].center, Vec2::new(100, 100));
    assert_eq!(v[1].center, Vec2::new(113, 100));
}

#[test]
fn rounding_keeps_momentum_change_below_mass_sum() {
    let a = Body::with_mass(Vec2::new(0, 0), 1, Vec2::new(4, 0), 1000);
    let b = Body::with_mass(Vec2::new(1, 0), 1, Vec2::new(0, 0), 2000);
    let mut v = vec![a, b];
    resolve_collisions(&mut v);
    assert_eq!(v[0].velocity, Vec2::new(-1, 0));
    assert_eq!(v[1].velocity, Vec2::new(2, 0));
    let change = 1000 * (v[0].velocity.x - 4) + 2000 * (v[1].velocity.x - 0);
    assert_eq!(change, -1000);
    assert!(change.abs() < 3000);
}
