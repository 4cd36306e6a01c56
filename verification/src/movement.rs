//! The kinematic integrator: the per-frame pipeline that every moving entity shares.
//!
//! The stages run in a fixed order: velocity update, damping, speed clamp, position
//! update, heading update. Each stage is a function of its own; `integrate` chains
//! them for one entity.

use vstd::prelude::*;
use crate::fixed::{lemma_ratio_keeps_sign, mul_fixed, mul_scalar, saturate, square, sub_saturating, ONE};
use crate::vector::{lemma_clamp_bounded, lemma_scaled_no_longer, Vec2};

verus! {

/// Squared speed below which a velocity is snapped to exact rest: one hundred
/// thousandth of a squared unit.
pub const SNAP_THRESHOLD: u128 = 10_000_000;

/// The largest speed an entity may have after the clamp stage.
#[derive(Clone, Copy, Debug)]
pub struct MaxSpeed(pub i64);

/// Displacement per second.
#[derive(Clone, Copy, Debug)]
pub struct Velocity(pub Vec2);

/// The share of its velocity that an entity loses per second.
#[derive(Clone, Copy, Debug)]
pub struct VelocityDamping(pub i64);

/// Change of velocity per second, gathered anew every frame.
#[derive(Clone, Copy, Debug)]
pub struct Acceleration(pub Vec2);

/// `v`, or exact rest where `v` is slower than the snap threshold.
pub open spec fn snapped(v: Vec2) -> Vec2 {
    if v.spec_length_squared() < SNAP_THRESHOLD {
        Vec2::zero()
    } else {
        v
    }
}

/// The velocity after `dt` seconds of acceleration `a`, snapped.
pub open spec fn advanced_velocity(v: Vec2, a: Vec2, dt: i64) -> Vec2 {
    snapped(v.spec_plus(a.spec_scaled(dt)))
}

/// The factor `max(0, 1 - damping * dt)` by which damping scales a velocity.
pub open spec fn damping_factor(damping: i64, dt: i64) -> i64 {
    let f = saturate(ONE - mul_fixed(damping as int, dt as int));
    if f < 0 {
        0
    } else {
        f as i64
    }
}

/// The heading after a frame: the direction of the velocity, or the previous heading
/// for an entity at rest.
pub open spec fn turned(heading: Vec2, v: Vec2) -> Vec2 {
    if v == Vec2::zero() {
        heading
    } else {
        v.spec_normalize_or_zero()
    }
}

/// Snaps a velocity below the threshold to exact rest.
pub fn snap_to_zero(v: Vec2) -> (r: Vec2)
    ensures
        r == snapped(v),
{
    if v.length_squared() < SNAP_THRESHOLD {
        Vec2::origin()
    } else {
        v
    }
}

/// Computes the damping factor for one frame.
pub fn damping_factor_for(damping: i64, dt: i64) -> (f: i64)
    ensures
        f == damping_factor(damping, dt),
{
    let f: i64 = sub_saturating(ONE, mul_scalar(damping, dt));
    if f < 0 {
        0
    } else {
        f
    }
}

/// First stage: consumes the acceleration into the velocity, snaps a near-zero
/// velocity to rest and resets the acceleration.
pub fn update_velocity(velocity: &mut Velocity, acceleration: &mut Acceleration, dt: i64)
    ensures
        final(velocity).0 == advanced_velocity(old(velocity).0, old(acceleration).0, dt),
        final(acceleration).0 == Vec2::zero(),
{
    velocity.0 = snap_to_zero(velocity.0.plus(acceleration.0.scaled(dt)));
    acceleration.0 = Vec2::origin();
}

/// Second stage: scales the velocity by the damping factor.
pub fn apply_damping(velocity: &mut Velocity, damping: &VelocityDamping, dt: i64)
    ensures
        final(velocity).0 == old(velocity).0.spec_scaled(damping_factor(damping.0, dt)),
{
    velocity.0 = velocity.0.scaled(damping_factor_for(damping.0, dt));
}

/// Third stage: limits the speed to the bound, keeping the direction.
pub fn clamp_velocity(velocity: &mut Velocity, max_speed: &MaxSpeed)
    ensures
        final(velocity).0 == old(velocity).0.spec_clamp_length_max(max_speed.0),
{
    velocity.0 = velocity.0.clamp_length_max(max_speed.0);
}

/// Fourth stage: moves the position along the velocity.
pub fn update_position(position: &mut Vec2, velocity: &Velocity, dt: i64)
    ensures
        *final(position) == old(position).spec_plus(velocity.0.spec_scaled(dt)),
{
    *position = position.plus(velocity.0.scaled(dt));
}

/// Fifth stage: points the heading along the velocity; an entity at rest keeps its
/// heading.
pub fn update_rotation(heading: &mut Vec2, velocity: &Velocity)
    ensures
        *final(heading) == turned(*old(heading), velocity.0),
{
    if !velocity.0.is_zero() {
        *heading = velocity.0.normalize_or_zero();
    }
}

/// With a non-negative coefficient and a non-negative frame time the damping factor
/// lies between zero and one.
pub proof fn lemma_damping_factor_range(damping: i64, dt: i64)
    requires
        damping >= 0,
        dt >= 0,
    ensures
        0 <= damping_factor(damping, dt) <= ONE,
{
    lemma_ratio_keeps_sign(damping as int, dt as int, ONE as int);
}

/// Damping never increases speed: for a non-negative coefficient and a non-negative
/// frame time the damped velocity is no longer than the velocity was.
pub proof fn lemma_damping_never_speeds_up(v: Vec2, damping: i64, dt: i64)
    requires
        damping >= 0,
        dt >= 0,
    ensures
        v.spec_scaled(damping_factor(damping, dt)).spec_length_squared() <= v.spec_length_squared(),
{
    lemma_damping_factor_range(damping, dt);
    lemma_scaled_no_longer(v, damping_factor(damping, dt));
}

/// The kinematic state of one moving entity.
#[derive(Clone, Copy, Debug)]
pub struct Body {
    pub position: Vec2,
    /// Unit vector along the last non-zero velocity.
    pub heading: Vec2,
    pub velocity: Velocity,
    pub acceleration: Acceleration,
    pub damping: Option<VelocityDamping>,
    pub max_speed: Option<MaxSpeed>,
}

impl Body {
    /// The velocity with which the body leaves a frame of `dt` seconds.
    pub open spec fn next_velocity(self, dt: i64) -> Vec2 {
        let v = advanced_velocity(self.velocity.0, self.acceleration.0, dt);
        let damped = match self.damping {
            Some(d) => v.spec_scaled(damping_factor(d.0, dt)),
            None => v,
        };
        match self.max_speed {
            Some(m) => damped.spec_clamp_length_max(m.0),
            None => damped,
        }
    }

    /// The body after one frame of `dt` seconds.
    pub open spec fn next(self, dt: i64) -> Body {
        let v = self.next_velocity(dt);
        Body {
            position: self.position.spec_plus(v.spec_scaled(dt)),
            heading: turned(self.heading, v),
            velocity: Velocity(v),
            acceleration: Acceleration(Vec2::zero()),
            damping: self.damping,
            max_speed: self.max_speed,
        }
    }

    /// Runs the five stages, in order, on this body.
    pub fn integrate(&mut self, dt: i64)
        ensures
            *final(self) == old(self).next(dt),
    {
        update_velocity(&mut self.velocity, &mut self.acceleration, dt);
        match self.damping {
            Some(d) => {
                apply_damping(&mut self.velocity, &d, dt);
            },
            None => {},
        }
        match self.max_speed {
            Some(m) => {
                clamp_velocity(&mut self.velocity, &m);
            },
            None => {},
        }
        update_position(&mut self.position, &self.velocity, dt);
        update_rotation(&mut self.heading, &self.velocity);
    }
}

/// After a frame no body with a non-negative speed bound is faster than its bound.
pub proof fn lemma_speed_within_bound(body: Body, bound: i64, dt: i64)
    requires
        body.max_speed == Some(MaxSpeed(bound)),
        bound >= 0,
    ensures
        body.next(dt).velocity.0.spec_length_squared() <= square(bound as int),
{
    let v = advanced_velocity(body.velocity.0, body.acceleration.0, dt);
    let damped = match body.damping {
        Some(d) => v.spec_scaled(damping_factor(d.0, dt)),
        None => v,
    };
    lemma_clamp_bounded(damped, bound);
}

/// Runs the integrator on every body, in order.
pub fn integrate_all(bodies: &mut Vec<Body>, dt: i64)
    ensures
        final(bodies)@.len() == old(bodies)@.len(),
        forall|i: int| 0 <= i < old(bodies)@.len() ==> final(bodies)@[i] == old(bodies)@[i].next(dt),
{
    let n: usize = bodies.len();
    let mut i: usize = 0;
    while i < n
        invariant
            i <= n,
            bodies@.len() == n,
            old(bodies)@.len() == n,
            forall|k: int| 0 <= k < i ==> bodies@[k] == old(bodies)@[k].next(dt),
            forall|k: int| i <= k < n ==> bodies@[k] == old(bodies)@[k],
        decreases n - i,
    {
        let mut b: Body = bodies[i];
        b.integrate(dt);
        bodies.set(i, b);
        i += 1;
    }
}

} // verus!
