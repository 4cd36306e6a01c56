use steering_sim::fixed::{add_saturating, isqrt_up, mul_div, mul_scalar, sub_saturating, LIMIT, ONE};
use steering_sim::movement::{
    apply_damping, clamp_velocity, integrate_all, snap_to_zero, update_position, update_rotation,
    update_velocity, Acceleration, Body, MaxSpeed, Velocity, VelocityDamping,
};
use steering_sim::vector::Vec2;

const U: i64 = ONE;

#[test]
fn square_root_rounds_up() {
    assert_eq!(isqrt_up(0), 0);
    assert_eq!(isqrt_up(1), 1);
    assert_eq!(isqrt_up(2), 2);
    assert_eq!(isqrt_up(4), 2);
    assert_eq!(isqrt_up(5), 3);
    assert_eq!(isqrt_up(1_000_000_000_000), 1_000_000);
    assert_eq!(isqrt_up(1_000_000_000_001), 1_000_001);
    assert_eq!(isqrt_up(u128::MAX), 1u128 << 64);
}

#[test]
fn scalar_arithmetic_saturates() {
    assert_eq!(add_saturating(LIMIT, 1), LIMIT);
    assert_eq!(sub_saturating(-LIMIT, 5), -LIMIT);
    assert_eq!(add_saturating(2, 3), 5);
    assert_eq!(sub_saturating(2, 3), -1);
    assert_eq!(mul_scalar(LIMIT, 2 * U), LIMIT);
    assert_eq!(mul_scalar(i64::MIN, U), -LIMIT);
}

#[test]
fn scalar_product_rounds_toward_zero() {
    assert_eq!(mul_scalar(3 * U, U / 2), 3 * U / 2);
    assert_eq!(mul_scalar(3, U / 2), 1);
    assert_eq!(mul_scalar(-3, U / 2), -1);
    assert_eq!(mul_div(7, 3, 2), 10);
    assert_eq!(mul_div(-7, 3, 2), -10);
}

#[test]
fn length_of_a_three_four_five_triangle() {
    let v = Vec2::new(3 * U, 4 * U);
    assert_eq!(v.length_squared(), 25_000_000_000_000);
    assert_eq!(v.length(), 5_000_000);
    assert_eq!(v.normalize_or_zero(), Vec2::new(600_000, 800_000));
}

#[test]
fn normalizing_zero_gives_zero() {
    assert_eq!(Vec2::origin().normalize_or_zero(), Vec2::new(0, 0));
}

#[test]
fn clamp_leaves_slow_vectors_alone() {
    let v = Vec2::new(3 * U, 4 * U);
    assert_eq!(v.clamp_length_max(5 * U), v);
    assert_eq!(v.clamp_length_max(6 * U), v);
}

#[test]
fn clamp_rescales_fast_vectors_to_the_bound() {
    let v = Vec2::new(3 * U, 4 * U);
    assert_eq!(v.clamp_length_max(5 * U / 2), Vec2::new(3 * U / 2, 2 * U));
    assert_eq!(Vec2::new(-9 * U, 0).clamp_length_max(2 * U), Vec2::new(-2 * U, 0));
    let r = Vec2::new(7 * U, 11 * U).clamp_length_max(3 * U);
    assert!(r.length_squared() <= 9_000_000_000_000);
    assert!(r.x > 0 && r.y > 0);
}

#[test]
fn velocity_update_consumes_acceleration() {
    let mut v = Velocity(Vec2::new(U, 0));
    let mut a = Acceleration(Vec2::new(2 * U, -4 * U));
    update_velocity(&mut v, &mut a, U / 2);
    assert_eq!(v.0, Vec2::new(2 * U, -2 * U));
    assert_eq!(a.0, Vec2::new(0, 0));
}

#[test]
fn slow_velocity_snaps_to_rest() {
    assert_eq!(snap_to_zero(Vec2::new(3000, 2000)), Vec2::new(3000, 2000));
    assert_eq!(snap_to_zero(Vec2::new(2000, 2000)), Vec2::new(0, 0));
    let mut v = Velocity(Vec2::new(3000, 2000));
    let mut a = Acceleration(Vec2::new(0, 0));
    update_velocity(&mut v, &mut a, U);
    assert_eq!(v.0, Vec2::new(3000, 2000));
    let mut w = Velocity(Vec2::new(2000, 2000));
    update_velocity(&mut w, &mut a, U);
    assert_eq!(w.0, Vec2::new(0, 0));
}

#[test]
fn damping_scales_velocity() {
    let mut v = Velocity(Vec2::new(10 * U, -8 * U));
    apply_damping(&mut v, &VelocityDamping(U), U / 4);
    assert_eq!(v.0, Vec2::new(15 * U / 2, -6 * U));
}

#[test]
fn damping_factor_never_goes_below_zero() {
    let mut v = Velocity(Vec2::new(10 * U, -8 * U));
    apply_damping(&mut v, &VelocityDamping(U), 2 * U);
    assert_eq!(v.0, Vec2::new(0, 0));
}

#[test]
fn damping_never_increases_speed() {
    let start = Vec2::new(123_456_789, -987_654_321);
    let mut dt = 0;
    while dt <= 3 * U {
        let mut v = Velocity(start);
        apply_damping(&mut v, &VelocityDamping(700_000), dt);
        assert!(v.0.length_squared() <= start.length_squared());
        dt += 250_000;
    }
}

#[test]
fn speed_clamp_stage() {
    let mut v = Velocity(Vec2::new(0, 500 * U));
    clamp_velocity(&mut v, &MaxSpeed(400 * U));
    assert_eq!(v.0, Vec2::new(0, 400 * U));
    let mut w = Velocity(Vec2::new(0, 300 * U));
    clamp_velocity(&mut w, &MaxSpeed(400 * U));
    assert_eq!(w.0, Vec2::new(0, 300 * U));
}

#[test]
fn position_and_heading_follow_velocity() {
    let mut p = Vec2::new(U, U);
    let v = Velocity(Vec2::new(0, -4 * U));
    update_position(&mut p, &v, U / 2);
    assert_eq!(p, Vec2::new(U, -U));
    let mut h = Vec2::new(U, 0);
    update_rotation(&mut h, &v);
    assert_eq!(h, Vec2::new(0, -U));
    update_rotation(&mut h, &Velocity(Vec2::new(0, 0)));
    assert_eq!(h, Vec2::new(0, -U));
}

#[test]
fn one_frame_of_integration() {
    let mut body = Body {
        position: Vec2::new(0, 0),
        heading: Vec2::new(0, U),
        velocity: Velocity(Vec2::new(0, 0)),
        acceleration: Acceleration(Vec2::new(100 * U, 0)),
        damping: Some(VelocityDamping(U)),
        max_speed: Some(MaxSpeed(400 * U)),
    };
    body.integrate(U / 10);
    assert_eq!(body.velocity.0, Vec2::new(9 * U, 0));
    assert_eq!(body.acceleration.0, Vec2::new(0, 0));
    assert_eq!(body.position, Vec2::new(900_000, 0));
    assert_eq!(body.heading, Vec2::new(U, 0));
}

#[test]
fn integration_without_damping_or_bound() {
    let body = Body {
        position: Vec2::new(0, 0),
        heading: Vec2::new(U, 0),
        velocity: Velocity(Vec2::new(0, 1000 * U)),
        acceleration: Acceleration(Vec2::new(0, 0)),
        damping: None,
        max_speed: None,
    };
    let mut bodies = vec![body, body];
    integrate_all(&mut bodies, U);
    assert_eq!(bodies.len(), 2);
    assert_eq!(bodies[0].velocity.0, Vec2::new(0, 1000 * U));
    assert_eq!(bodies[1].position, Vec2::new(0, 1000 * U));
    assert_eq!(bodies[1].heading, Vec2::new(0, U));
}

#[test]
fn clamp_with_a_negative_bound_follows_the_formula() {
    assert_eq!(Vec2::new(5 * U, 0).clamp_length_max(-3 * U), Vec2::new(-3 * U, 0));
    assert_eq!(Vec2::new(2 * U, 0).clamp_length_max(-3 * U), Vec2::new(2 * U, 0));
}

#[test]
fn clamp_to_zero_stops() {
    assert_eq!(Vec2::new(5 * U, -7 * U).clamp_length_max(0), Vec2::new(0, 0));
    assert_eq!(Vec2::new(0, 0).clamp_length_max(0), Vec2::new(0, 0));
}

#[test]
fn clamp_reaches_the_bound_up_to_rounding() {
    let max: i64 = 400 * U;
    let r = Vec2::new(123_456_789_123, -987_654_321_987).clamp_length_max(max);
    let reached: u128 = r.length_squared();
    let bound: u128 = (max as u128) * (max as u128);
    let short: u128 = ((max - 3) as u128) * ((max - 3) as u128);
    assert!(reached <= bound);
    assert!(reached >= short);
    assert!(r.x > 0 && r.y < 0);
}

#[test]
fn lengths_are_rounded_up() {
    assert_eq!(Vec2::new(1, 1).length(), 2);
    assert_eq!(Vec2::new(U, U).length(), 1_414_214);
    assert_eq!(Vec2::new(i64::MIN, i64::MIN).length_squared(), 1u128 << 127);
    assert!(Vec2::new(3, 4).shorter_than(6));
    assert!(!Vec2::new(3, 4).shorter_than(5));
    assert!(!Vec2::new(0, 0).shorter_than(0));
    assert!(!Vec2::new(0, 0).shorter_than(-5));
}
