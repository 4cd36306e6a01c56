//! Steering forces (seek, flee, arrive) and the agents that are driven by them.
//!
//! The forces are pure functions of the kinematic state and a target. Random draws
//! are made by the caller and handed in as plain values, so every function here
//! gives the same output for the same input.

use vstd::prelude::*;
use crate::fixed::{mul_div, ratio, square, ONE};
use crate::movement::{Acceleration, Body, MaxSpeed, Velocity, VelocityDamping};
use crate::vector::{lemma_clamp_bounded, lemma_shorter_than_bounds_length, Vec2};

verus! {

/// Radius of the dead zone around a target inside which `arrive` asks for no force:
/// a tenth of a unit.
pub const ARRIVAL_DEADZONE: i64 = 100_000;

/// Distance from its wander target below which an agent takes a new one.
pub const CAPTURE_DISTANCE: i64 = 1_000_000;

/// The largest magnitude of a single steering force.
#[derive(Clone, Copy, Debug)]
pub struct MaxForce(pub i64);

/// The distance from a target inside which an arriving agent slows down.
#[derive(Clone, Copy, Debug)]
pub struct SlowingRadius(pub i64);

/// Marks an agent that follows the pointer.
#[derive(Clone, Copy, Debug)]
pub struct FollowMouse;

/// A random point on a ring, as drawn by the caller: a unit vector with uniform
/// direction and a distance uniform between the ring's radii.
#[derive(Clone, Copy, Debug)]
pub struct WanderDraw {
    pub direction: Vec2,
    pub distance: i64,
}

/// The wander behaviour's state: a ring of candidate targets and the current one.
#[derive(Clone, Copy, Debug)]
pub struct Wander {
    pub min_radius: i64,
    pub max_radius: i64,
    pub target: Vec2,
}

/// The point that a draw picks on the ring around `origin`.
pub open spec fn ring_point(origin: Vec2, draw: WanderDraw) -> Vec2 {
    origin.spec_plus(draw.direction.spec_scaled(draw.distance))
}

impl Wander {
    /// A wander state whose first target is picked by `draw`.
    pub fn new(origin: Vec2, min_radius: i64, max_radius: i64, draw: WanderDraw) -> (w: Wander)
        ensures
            w == (Wander { min_radius, max_radius, target: ring_point(origin, draw) }),
    {
        let mut wander = Wander { min_radius, max_radius, target: Vec2::origin() };
        wander.randomize(origin, draw);
        wander
    }

    /// Replaces the target by the point that `draw` picks around `origin`.
    pub fn randomize(&mut self, origin: Vec2, draw: WanderDraw)
        ensures
            *final(self) == (Wander { target: ring_point(origin, draw), ..*old(self) }),
    {
        self.target = origin.plus(draw.direction.scaled(draw.distance));
    }

    /// Whether an agent at `position` has reached the target.
    pub open spec fn spec_captured(self, position: Vec2) -> bool {
        position.spec_minus(self.target).spec_shorter_than(CAPTURE_DISTANCE)
    }

    /// Whether an agent at `position` has reached the target and needs a new one.
    pub fn captured(&self, position: Vec2) -> (b: bool)
        ensures
            b == self.spec_captured(position),
    {
        position.minus(self.target).shorter_than(CAPTURE_DISTANCE)
    }
}

/// The force that turns `velocity` into `desired`, limited to `max_force`.
pub open spec fn steering_toward(desired: Vec2, velocity: Vec2, max_force: i64) -> Vec2 {
    desired.spec_minus(velocity).spec_clamp_length_max(max_force)
}

/// The seek force: steer at full speed straight at the target.
pub open spec fn seek_force(pos: Vec2, vel: Vec2, target: Vec2, max_speed: i64, max_force: i64) -> Vec2 {
    steering_toward(
        target.spec_minus(pos).spec_normalize_or_zero().spec_scaled(max_speed),
        vel,
        max_force,
    )
}

/// The flee force: steer at full speed straight away from the target.
pub open spec fn flee_force(pos: Vec2, vel: Vec2, target: Vec2, max_speed: i64, max_force: i64) -> Vec2 {
    steering_toward(
        pos.spec_minus(target).spec_normalize_or_zero().spec_scaled(max_speed),
        vel,
        max_force,
    )
}

/// The speed at which to approach a target that is `delta` away: full speed outside
/// the slowing radius, proportional to the distance inside it.
pub open spec fn approach_speed(delta: Vec2, max_speed: i64, slowing_radius: i64) -> i64 {
    if delta.spec_shorter_than(slowing_radius) {
        ratio(max_speed as int, delta.spec_length() as int, slowing_radius as int) as i64
    } else {
        max_speed
    }
}

/// The arrive force: none inside the dead zone, else steer at the approach speed
/// straight at the target.
pub open spec fn arrive_force(
    pos: Vec2,
    vel: Vec2,
    target: Vec2,
    max_speed: i64,
    max_force: i64,
    slowing_radius: i64,
) -> Vec2 {
    let delta = target.spec_minus(pos);
    if delta.spec_shorter_than(ARRIVAL_DEADZONE) {
        Vec2::zero()
    } else {
        steering_toward(
            delta.spec_normalize_or_zero().spec_scaled(
                approach_speed(delta, max_speed, slowing_radius),
            ),
            vel,
            max_force,
        )
    }
}

/// Inside the dead zone `arrive` asks for no force, whatever the velocity and the
/// limits are.
pub proof fn lemma_arrive_rests_in_deadzone(
    pos: Vec2,
    vel: Vec2,
    target: Vec2,
    max_speed: i64,
    max_force: i64,
    slowing_radius: i64,
)
    requires
        target.spec_minus(pos).spec_shorter_than(ARRIVAL_DEADZONE),
    ensures
        arrive_force(pos, vel, target, max_speed, max_force, slowing_radius) == Vec2::zero(),
{
}

/// No seek force is stronger than a non-negative `max_force`.
pub proof fn lemma_seek_bounded(pos: Vec2, vel: Vec2, target: Vec2, max_speed: i64, max_force: i64)
    requires
        max_force >= 0,
    ensures
        seek_force(pos, vel, target, max_speed, max_force).spec_length_squared() <= square(
            max_force as int,
        ),
{
    lemma_clamp_bounded(
        target.spec_minus(pos).spec_normalize_or_zero().spec_scaled(max_speed).spec_minus(vel),
        max_force,
    );
}

/// No flee force is stronger than a non-negative `max_force`.
pub proof fn lemma_flee_bounded(pos: Vec2, vel: Vec2, target: Vec2, max_speed: i64, max_force: i64)
    requires
        max_force >= 0,
    ensures
        flee_force(pos, vel, target, max_speed, max_force).spec_length_squared() <= square(
            max_force as int,
        ),
{
    lemma_clamp_bounded(
        pos.spec_minus(target).spec_normalize_or_zero().spec_scaled(max_speed).spec_minus(vel),
        max_force,
    );
}

/// No arrive force is stronger than a non-negative `max_force`.
pub proof fn lemma_arrive_bounded(
    pos: Vec2,
    vel: Vec2,
    target: Vec2,
    max_speed: i64,
    max_force: i64,
    slowing_radius: i64,
)
    requires
        max_force >= 0,
    ensures
        arrive_force(pos, vel, target, max_speed, max_force, slowing_radius).spec_length_squared()
            <= square(max_force as int),
{
    let delta = target.spec_minus(pos);
    if !delta.spec_shorter_than(ARRIVAL_DEADZONE) {
        lemma_clamp_bounded(
            delta.spec_normalize_or_zero().spec_scaled(
                approach_speed(delta, max_speed, slowing_radius),
            ).spec_minus(vel),
            max_force,
        );
    }
}

/// Seek: the force that steers at `max_speed` straight at the target, limited to
/// `max_force`. At the target itself the desired velocity is zero.
pub fn seek(
    current_pos: &Vec2,
    current_velocity: &Vec2,
    target_pos: &Vec2,
    max_speed: i64,
    max_force: i64,
) -> (force: Vec2)
    ensures
        force == seek_force(*current_pos, *current_velocity, *target_pos, max_speed, max_force),
{
    let desired_velocity: Vec2 = target_pos.minus(*current_pos).normalize_or_zero().scaled(max_speed);
    desired_velocity.minus(*current_velocity).clamp_length_max(max_force)
}

/// Flee: the force that steers at `max_speed` straight away from the target,
/// limited to `max_force`.
pub fn flee(
    current_pos: &Vec2,
    current_velocity: &Vec2,
    target_pos: &Vec2,
    max_speed: i64,
    max_force: i64,
) -> (force: Vec2)
    ensures
        force == flee_force(*current_pos, *current_velocity, *target_pos, max_speed, max_force),
{
    let desired_velocity: Vec2 = current_pos.minus(*target_pos).normalize_or_zero().scaled(max_speed);
    desired_velocity.minus(*current_velocity).clamp_length_max(max_force)
}

/// Arrive: no force inside the dead zone around the target; else the force that
/// steers straight at the target, at `max_speed` outside the slowing radius and at
/// `max_speed * distance / slowing_radius` inside it, limited to `max_force`.
pub fn arrive(
    current_pos: &Vec2,
    current_velocity: &Vec2,
    target_pos: &Vec2,
    max_speed: i64,
    max_force: i64,
    slowing_radius: i64,
) -> (force: Vec2)
    ensures
        force == arrive_force(
            *current_pos,
            *current_velocity,
            *target_pos,
            max_speed,
            max_force,
            slowing_radius,
        ),
{
    let delta: Vec2 = target_pos.minus(*current_pos);
    if delta.shorter_than(ARRIVAL_DEADZONE) {
        return Vec2::origin();
    }
    let desired_speed: i64 = if delta.shorter_than(slowing_radius) {
        let distance: u128 = delta.length();
        proof {
            lemma_shorter_than_bounds_length(delta, slowing_radius);
        }
        mul_div(max_speed, distance as i64, slowing_radius as i128)
    } else {
        max_speed
    };
    let desired_velocity: Vec2 = delta.normalize_or_zero().scaled(desired_speed);
    desired_velocity.minus(*current_velocity).clamp_length_max(max_force)
}

/// A steering agent: its kinematic state and the limits of its steering.
#[derive(Clone, Copy, Debug)]
pub struct SteeringAgentBundle {
    pub body: Body,
    pub max_force: MaxForce,
    pub slowing_radius: SlowingRadius,
}

impl SteeringAgentBundle {
    /// An agent at rest at `position`, heading along the x axis.
    pub fn new(position: Vec2, max_speed: i64, max_force: i64, slowing_radius: i64, damping: i64) -> (agent: SteeringAgentBundle)
        ensures
            agent == SteeringAgentBundle::spec_new(position, max_speed, max_force, slowing_radius, damping),
    {
        SteeringAgentBundle {
            body: Body {
                position,
                heading: Vec2::new(ONE, 0),
                velocity: Velocity(Vec2::origin()),
                acceleration: Acceleration(Vec2::origin()),
                damping: Some(VelocityDamping(damping)),
                max_speed: Some(MaxSpeed(max_speed)),
            },
            max_force: MaxForce(max_force),
            slowing_radius: SlowingRadius(slowing_radius),
        }
    }

    /// The agent that `new` makes.
    pub open spec fn spec_new(position: Vec2, max_speed: i64, max_force: i64, slowing_radius: i64, damping: i64) -> SteeringAgentBundle {
        SteeringAgentBundle {
            body: Body {
                position,
                heading: Vec2 { x: ONE, y: 0 },
                velocity: Velocity(Vec2::zero()),
                acceleration: Acceleration(Vec2::zero()),
                damping: Some(VelocityDamping(damping)),
                max_speed: Some(MaxSpeed(max_speed)),
            },
            max_force: MaxForce(max_force),
            slowing_radius: SlowingRadius(slowing_radius),
        }
    }

    /// The force with which this agent arrives at `target`.
    pub open spec fn arrive_at(self, target: Vec2) -> Vec2 {
        match self.body.max_speed {
            Some(m) => arrive_force(
                self.body.position,
                self.body.velocity.0,
                target,
                m.0,
                self.max_force.0,
                self.slowing_radius.0,
            ),
            None => Vec2::zero(),
        }
    }

    /// This agent with `force` added to its acceleration.
    pub open spec fn pushed(self, force: Vec2) -> SteeringAgentBundle {
        SteeringAgentBundle {
            body: Body { acceleration: Acceleration(self.body.acceleration.0.spec_plus(force)), ..self.body },
            ..self
        }
    }

    /// Adds the arrive force toward `target` to the acceleration. An agent without a
    /// speed bound does not steer.
    pub fn steer_to(&mut self, target: Vec2)
        ensures
            *final(self) == old(self).pushed(old(self).arrive_at(target)),
    {
        let force: Vec2 = match self.body.max_speed {
            Some(m) => arrive(
                &self.body.position,
                &self.body.velocity.0,
                &target,
                m.0,
                self.max_force.0,
                self.slowing_radius.0,
            ),
            None => Vec2::origin(),
        };
        self.body.acceleration.0 = self.body.acceleration.0.plus(force);
    }
}

/// Pointer following: while the pointer has a position, the agent arrives at it;
/// without one nothing is added.
pub fn follow_mouse(agent: &mut SteeringAgentBundle, pointer: Option<Vec2>)
    ensures
        *final(agent) == match pointer {
            Some(p) => old(agent).pushed(old(agent).arrive_at(p)),
            None => *old(agent),
        },
{
    match pointer {
        Some(p) => {
            agent.steer_to(p);
        },
        None => {},
    }
}

/// The wander state after a frame for an agent at `position`: a captured target is
/// replaced by the point that the draw picks around the world origin.
pub open spec fn wander_retargeted(state: Wander, position: Vec2, draw: WanderDraw) -> Wander {
    if state.spec_captured(position) {
        Wander { target: ring_point(Vec2::zero(), draw), ..state }
    } else {
        state
    }
}

/// Wandering: takes a new target first if the current one is captured, then arrives
/// at the target. The draw is used only on capture.
pub fn wander(agent: &mut SteeringAgentBundle, state: &mut Wander, draw: WanderDraw)
    ensures
        *final(state) == wander_retargeted(*old(state), old(agent).body.position, draw),
        *final(agent) == old(agent).pushed(old(agent).arrive_at(final(state).target)),
{
    if state.captured(agent.body.position) {
        state.randomize(Vec2::origin(), draw);
    }
    agent.steer_to(state.target);
}

/// An agent as an entity: its bundle and the behaviours attached to it.
#[derive(Clone, Copy, Debug)]
pub struct Agent {
    pub bundle: SteeringAgentBundle,
    pub follow_mouse: Option<FollowMouse>,
    pub wander: Option<Wander>,
}

impl Agent {
    /// The agent after the steering part of a frame: pointer following first, if
    /// the agent follows and the pointer has a position, then wandering, if the
    /// agent wanders. The two forces add up in the acceleration.
    pub open spec fn steered(self, pointer: Option<Vec2>, draw: WanderDraw) -> Agent {
        let followed = match (self.follow_mouse, pointer) {
            (Some(_), Some(p)) => self.bundle.pushed(self.bundle.arrive_at(p)),
            _ => self.bundle,
        };
        match self.wander {
            Some(state) => {
                let next = wander_retargeted(state, followed.body.position, draw);
                Agent {
                    bundle: followed.pushed(followed.arrive_at(next.target)),
                    wander: Some(next),
                    ..self
                }
            },
            None => Agent { bundle: followed, ..self },
        }
    }

    /// The agent after a whole frame: steered, then integrated.
    pub open spec fn after_frame(self, pointer: Option<Vec2>, draw: WanderDraw, dt: i64) -> Agent {
        let steered = self.steered(pointer, draw);
        Agent {
            bundle: SteeringAgentBundle { body: steered.bundle.body.next(dt), ..steered.bundle },
            ..steered
        }
    }

    /// Whether the agent will use a draw this frame: it wanders and has captured
    /// its target.
    pub fn needs_draw(&self) -> (b: bool)
        ensures
            b == match self.wander {
                Some(state) => state.spec_captured(self.bundle.body.position),
                None => false,
            },
    {
        match self.wander {
            Some(state) => state.captured(self.bundle.body.position),
            None => false,
        }
    }

    /// Runs one frame on the agent: the steering behaviours in their order, then the
    /// integrator.
    pub fn frame(&mut self, pointer: Option<Vec2>, draw: WanderDraw, dt: i64)
        ensures
            *final(self) == old(self).after_frame(pointer, draw, dt),
    {
        self.steer(pointer, draw);
        self.bundle.body.integrate(dt);
    }

    /// Runs the steering behaviours of one frame, in their order. The draw is used
    /// only if `needs_draw` holds.
    pub fn steer(&mut self, pointer: Option<Vec2>, draw: WanderDraw)
        ensures
            *final(self) == old(self).steered(pointer, draw),
    {
        match self.follow_mouse {
            Some(_) => {
                follow_mouse(&mut self.bundle, pointer);
            },
            None => {},
        }
        match self.wander {
            Some(state) => {
                let mut next: Wander = state;
                wander(&mut self.bundle, &mut next, draw);
                self.wander = Some(next);
            },
            None => {},
        }
    }
}

/// Number of agents in the initial population.
pub const AGENT_COUNT: usize = 8;

/// An agent of the initial population: at rest at the world origin, with the
/// standard limits, wandering on the standard ring toward the point that `draw`
/// picks.
pub open spec fn initial_agent(draw: WanderDraw) -> Agent {
    Agent {
        bundle: SteeringAgentBundle::spec_new(
            Vec2::zero(),
            400_000_000,
            1_000_000_000,
            50_000_000,
            1_000_000,
        ),
        follow_mouse: None,
        wander: Some(
            Wander {
                min_radius: 64_000_000,
                max_radius: 512_000_000,
                target: ring_point(Vec2::zero(), draw),
            },
        ),
    }
}

/// Creates one agent without behaviours.
pub fn spawn_agent(position: Vec2, max_speed: i64, max_force: i64, slowing_radius: i64, damping: i64) -> (agent: Agent)
    ensures
        agent == (Agent {
            bundle: SteeringAgentBundle::spec_new(position, max_speed, max_force, slowing_radius, damping),
            follow_mouse: None,
            wander: None,
        }),
{
    Agent {
        bundle: SteeringAgentBundle::new(position, max_speed, max_force, slowing_radius, damping),
        follow_mouse: None,
        wander: None,
    }
}

/// Creates the initial population: one wandering agent for each of the first
/// `AGENT_COUNT` draws.
pub fn spawn_initial_agents(draws: &Vec<WanderDraw>) -> (agents: Vec<Agent>)
    ensures
        agents@.len() == if draws@.len() < AGENT_COUNT { draws@.len() } else { AGENT_COUNT as nat },
        forall|i: int| 0 <= i < agents@.len() ==> agents@[i] == initial_agent(draws@[i]),
{
    let mut agents: Vec<Agent> = Vec::new();
    let mut i: usize = 0;
    while i < draws.len() && i < AGENT_COUNT
        invariant
            i <= draws@.len(),
            i <= AGENT_COUNT,
            agents@.len() == i,
            forall|k: int| 0 <= k < i ==> agents@[k] == initial_agent(draws@[k]),
        decreases draws@.len() - i,
    {
        let mut agent: Agent = spawn_agent(Vec2::origin(), 400_000_000, 1_000_000_000, 50_000_000, 1_000_000);
        agent.wander = Some(Wander::new(Vec2::origin(), 64_000_000, 512_000_000, draws[i]));
        agents.push(agent);
        i += 1;
    }
    agents
}

} // verus!
