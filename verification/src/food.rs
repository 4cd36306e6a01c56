//! The food population: stochastic duplication gated by local density, damping, and
//! pairwise cohesion and separation.
//!
//! Random draws are made by the caller. The functions here decide whether a draw is
//! due and what follows from its outcome.

use vstd::prelude::*;
use crate::fixed::{
    abs_int, lemma_ratio_keeps_sign, lemma_ratio_magnitude, lemma_some_root_up, mul_div, mul_fixed,
    mul_scalar, saturate, square, square_of, sub_saturating, ONE,
};
use crate::movement::{
    damping_factor, damping_factor_for, lemma_damping_never_speeds_up, snap_to_zero, snapped,
    turned, update_position, update_rotation, Velocity,
};
use crate::vector::{lemma_component_within_length, Vec2};

verus! {

/// Share of its velocity that a food particle loses per second.
pub const FOOD_DAMPING: i64 = 2_000_000;

/// Number of particles in the initial population.
pub const FOOD_COUNT: usize = 4;

/// The growth and flocking parameters of a food particle.
#[derive(Clone, Copy, Debug)]
pub struct Food {
    pub nutritional_value: i64,
    /// Probability of duplication per second.
    pub duplication_chance: i64,
    pub spawn_velocity_min: i64,
    pub spawn_velocity_max: i64,
    pub cohesion_radius: i64,
    pub cohesion_force: i64,
    pub seperation_radius: i64,
    pub seperation_force: i64,
    pub neighbour_radius: i64,
    pub max_neighbours: usize,
}

/// A food particle: its parameters and its kinematic state.
#[derive(Clone, Copy, Debug)]
pub struct FoodBundle {
    pub food: Food,
    pub position: Vec2,
    pub heading: Vec2,
    pub velocity: Velocity,
}

impl FoodBundle {
    /// A particle with the given parameters, position and velocity.
    pub fn from_food(food: Food, position: Vec2, initial_velocity: Vec2) -> (p: FoodBundle)
        ensures
            p == (FoodBundle {
                food,
                position,
                heading: Vec2 { x: ONE, y: 0 },
                velocity: Velocity(initial_velocity),
            }),
    {
        FoodBundle { food, position, heading: Vec2::new(ONE, 0), velocity: Velocity(initial_velocity) }
    }
}

/// The draws for a new particle's velocity: a unit vector with uniform direction and
/// a speed uniform between the parent's spawn speeds.
#[derive(Clone, Copy, Debug)]
pub struct SpawnDraw {
    pub direction: Vec2,
    pub speed: i64,
}

/// The particle that `spawn_food` makes.
pub open spec fn spawned(food: Food, position: Vec2, draw: SpawnDraw) -> FoodBundle {
    FoodBundle {
        food,
        position,
        heading: Vec2 { x: ONE, y: 0 },
        velocity: Velocity(draw.direction.spec_scaled(draw.speed)),
    }
}

/// Creates a particle at `position` that carries `food` unchanged and moves with the
/// drawn speed in the drawn direction.
pub fn spawn_food(food: Food, position: Vec2, draw: SpawnDraw) -> (p: FoodBundle)
    ensures
        p == spawned(food, position, draw),
{
    FoodBundle::from_food(food, position, draw.direction.scaled(draw.speed))
}

/// The template of the initial population.
pub open spec fn base_food() -> Food {
    Food {
        nutritional_value: 4_000_000,
        duplication_chance: 100_000,
        spawn_velocity_min: 5_000_000,
        spawn_velocity_max: 100_000_000,
        cohesion_radius: 64_000_000,
        cohesion_force: 4_000_000,
        seperation_radius: 32_000_000,
        seperation_force: 256_000_000,
        neighbour_radius: 64_000_000,
        max_neighbours: 16,
    }
}

/// The draws for one particle of the initial population: its position in the
/// viewport, the factor by which its nutritional value departs from the template's,
/// and its velocity.
#[derive(Clone, Copy, Debug)]
pub struct InitialFoodDraw {
    pub position: Vec2,
    pub jitter: i64,
    pub spawn: SpawnDraw,
}

/// The particle of the initial population that a draw describes.
pub open spec fn initial_particle(draw: InitialFoodDraw) -> FoodBundle {
    spawned(
        Food {
            nutritional_value: mul_fixed(base_food().nutritional_value as int, draw.jitter as int) as i64,
            ..base_food()
        },
        draw.position,
        draw.spawn,
    )
}

/// Creates the initial population: one particle for each of the first `FOOD_COUNT`
/// draws.
pub fn spawn_initial_food(draws: &Vec<InitialFoodDraw>) -> (particles: Vec<FoodBundle>)
    ensures
        particles@.len() == if draws@.len() < FOOD_COUNT { draws@.len() } else { FOOD_COUNT as nat },
        forall|i: int| 0 <= i < particles@.len() ==> particles@[i] == initial_particle(draws@[i]),
{
    let base: Food = Food {
        nutritional_value: 4_000_000,
        duplication_chance: 100_000,
        spawn_velocity_min: 5_000_000,
        spawn_velocity_max: 100_000_000,
        cohesion_radius: 64_000_000,
        cohesion_force: 4_000_000,
        seperation_radius: 32_000_000,
        seperation_force: 256_000_000,
        neighbour_radius: 64_000_000,
        max_neighbours: 16,
    };
    let mut particles: Vec<FoodBundle> = Vec::new();
    let mut i: usize = 0;
    while i < draws.len() && i < FOOD_COUNT
        invariant
            i <= draws@.len(),
            i <= FOOD_COUNT,
            base == base_food(),
            particles@.len() == i,
            forall|k: int| 0 <= k < i ==> particles@[k] == initial_particle(draws@[k]),
        decreases draws@.len() - i,
    {
        let draw: InitialFoodDraw = draws[i];
        let mut new_food: Food = base;
        new_food.nutritional_value = mul_scalar(new_food.nutritional_value, draw.jitter);
        particles.push(spawn_food(new_food, draw.position, draw.spawn));
        i += 1;
    }
    particles
}

/// Whether a particle at `other` counts as a neighbour of `position`: their squared
/// distance is strictly below the squared radius.
pub open spec fn is_nearby(position: Vec2, other: Vec2, radius: i64) -> bool {
    position.spec_minus(other).spec_length_squared() < square(radius as int)
}

/// The number of particles that count as neighbours of `position`; a particle at
/// `position` itself is one of them.
pub open spec fn nearby_count(particles: Seq<FoodBundle>, position: Vec2, radius: i64) -> nat
    decreases particles.len(),
{
    if particles.len() == 0 {
        0
    } else {
        let rest = nearby_count(particles.drop_last(), position, radius);
        if is_nearby(position, particles.last().position, radius) {
            rest + 1
        } else {
            rest
        }
    }
}

/// Counts the particles within `radius` of `position`.
pub fn count_nearby_food(particles: &Vec<FoodBundle>, position: Vec2, radius: i64) -> (count: usize)
    ensures
        count == nearby_count(particles@, position, radius),
{
    let limit: u128 = square_of(radius);
    let mut count: usize = 0;
    let mut i: usize = 0;
    while i < particles.len()
        invariant
            i <= particles@.len(),
            limit == square(radius as int),
            count == nearby_count(particles@.take(i as int), position, radius),
            count <= i,
        decreases particles@.len() - i,
    {
        assert(particles@.take(i + 1).drop_last() == particles@.take(i as int));
        if position.minus(particles[i].position).length_squared() < limit {
            count += 1;
        }
        i += 1;
    }
    assert(particles@.take(i as int) == particles@);
    count
}

/// What the duplication system does with one particle in one frame.
#[derive(Clone, Copy, Debug, PartialEq, Eq, Structural)]
pub enum DuplicationStep {
    /// The particle is crowded: no trial is made.
    Crowded,
    /// A trial with this probability, between zero and one, decides whether the
    /// particle duplicates.
    Trial { chance: i64 },
}

/// The probability that a particle duplicates in a frame: `duplication_chance * dt`,
/// where anything above one is certain success and anything below zero certain
/// failure.
pub open spec fn trial_probability(food: Food, dt: i64) -> i64 {
    let chance = mul_fixed(food.duplication_chance as int, dt as int);
    if chance < 0 {
        0
    } else if chance > ONE {
        ONE
    } else {
        chance as i64
    }
}

/// The decision for particle `index`: a trial if it has fewer neighbours than its
/// cap, none otherwise.
pub open spec fn duplication_step(particles: Seq<FoodBundle>, index: int, dt: i64) -> DuplicationStep {
    let p = particles[index];
    if nearby_count(particles, p.position, p.food.neighbour_radius) < p.food.max_neighbours {
        DuplicationStep::Trial { chance: trial_probability(p.food, dt) }
    } else {
        DuplicationStep::Crowded
    }
}

/// Decides whether particle `index` is due a duplication trial this frame. The
/// density check comes first: a crowded particle gets no trial, whatever a draw
/// would have given.
pub fn food_duplication(particles: &Vec<FoodBundle>, index: usize, dt: i64) -> (step: DuplicationStep)
    requires
        index < particles@.len(),
    ensures
        step == duplication_step(particles@, index as int, dt),
{
    let p: FoodBundle = particles[index];
    let nearby_food: usize = count_nearby_food(particles, p.position, p.food.neighbour_radius);
    if nearby_food < p.food.max_neighbours {
        let chance: i64 = mul_scalar(p.food.duplication_chance, dt);
        DuplicationStep::Trial {
            chance: if chance < 0 {
                0
            } else if chance > ONE {
                ONE
            } else {
                chance
            },
        }
    } else {
        DuplicationStep::Crowded
    }
}

/// The child of a particle, if the step and the outcome of its trial give one: an
/// exact copy of the parent's parameters at the parent's position.
pub open spec fn offspring(parent: FoodBundle, step: DuplicationStep, success: bool, draw: SpawnDraw) -> Option<FoodBundle> {
    match step {
        DuplicationStep::Crowded => None,
        DuplicationStep::Trial { chance } => if success {
            Some(spawned(parent.food, parent.position, draw))
        } else {
            None
        },
    }
}

/// Completes a duplication: given the step and the outcome of the trial, returns
/// the child to append once the pass over the population is over.
pub fn duplicate(parent: &FoodBundle, step: DuplicationStep, success: bool, draw: SpawnDraw) -> (child: Option<FoodBundle>)
    ensures
        child == offspring(*parent, step, success, draw),
{
    match step {
        DuplicationStep::Crowded => None,
        DuplicationStep::Trial { chance } => {
            if success {
                Some(spawn_food(parent.food, parent.position, draw))
            } else {
                None
            }
        },
    }
}

/// The outcome of particle `index`'s trial in a pass whose outcomes are `outcomes`:
/// the draw for the child's velocity if the trial succeeded. A particle without an
/// entry had no success.
pub open spec fn outcome_at(outcomes: Seq<Option<SpawnDraw>>, index: int) -> Option<SpawnDraw> {
    if 0 <= index < outcomes.len() {
        outcomes[index]
    } else {
        None
    }
}

/// The child that particle `index` has in a pass over `particles`, if any. The
/// density is that of the population as the pass found it.
pub open spec fn child_at(
    particles: Seq<FoodBundle>,
    outcomes: Seq<Option<SpawnDraw>>,
    index: int,
    dt: i64,
) -> Option<FoodBundle> {
    match outcome_at(outcomes, index) {
        Some(draw) => offspring(particles[index], duplication_step(particles, index, dt), true, draw),
        None => None,
    }
}

/// The children of the first `upto` particles, in the order of their parents.
pub open spec fn children(
    particles: Seq<FoodBundle>,
    outcomes: Seq<Option<SpawnDraw>>,
    upto: int,
    dt: i64,
) -> Seq<FoodBundle>
    decreases upto,
{
    if upto <= 0 {
        Seq::empty()
    } else {
        let before = children(particles, outcomes, upto - 1, dt);
        match child_at(particles, outcomes, upto - 1, dt) {
            Some(child) => before.push(child),
            None => before,
        }
    }
}

/// One duplication pass over the population. `outcomes[i]` tells whether particle
/// `i`'s trial succeeded, and with which draw for the child. Every particle is
/// judged against the population as it was before the pass; the children are
/// appended when the pass is over, so none of them is counted or duplicated in the
/// frame of its birth. A success handed in for a crowded particle is ignored.
pub fn grow_population(particles: &mut Vec<FoodBundle>, dt: i64, outcomes: &Vec<Option<SpawnDraw>>)
    ensures
        final(particles)@ == old(particles)@ + children(
            old(particles)@,
            outcomes@,
            old(particles)@.len() as int,
            dt,
        ),
{
    let n: usize = particles.len();
    let mut born: Vec<FoodBundle> = Vec::new();
    let mut i: usize = 0;
    while i < n
        invariant
            i <= n,
            n == particles@.len(),
            particles@ == old(particles)@,
            born@ == children(particles@, outcomes@, i as int, dt),
        decreases n - i,
    {
        if i < outcomes.len() {
            match outcomes[i] {
                Some(draw) => {
                    let step: DuplicationStep = food_duplication(particles, i, dt);
                    match duplicate(&particles[i], step, true, draw) {
                        Some(child) => {
                            born.push(child);
                        },
                        None => {},
                    }
                },
                None => {},
            }
        }
        i += 1;
    }
    let mut k: usize = 0;
    while k < born.len()
        invariant
            k <= born@.len(),
            particles@ == old(particles)@ + born@.take(k as int),
        decreases born@.len() - k,
    {
        particles.push(born[k]);
        assert(born@.take(k + 1) == born@.take(k as int).push(born@[k as int]));
        k += 1;
    }
    assert(born@.take(k as int) == born@);
}

/// A crowded particle has no child in a pass, whatever outcome is handed in for it.
pub proof fn lemma_crowded_has_no_child(
    particles: Seq<FoodBundle>,
    outcomes: Seq<Option<SpawnDraw>>,
    index: int,
    dt: i64,
)
    requires
        0 <= index < particles.len(),
        nearby_count(particles, particles[index].position, particles[index].food.neighbour_radius)
            >= particles[index].food.max_neighbours,
    ensures
        child_at(particles, outcomes, index, dt).is_none(),
{
}

/// A crowded particle never duplicates, whatever the trial and the draws would be.
pub proof fn lemma_crowded_never_duplicates(particles: Seq<FoodBundle>, index: int, dt: i64, success: bool, draw: SpawnDraw)
    requires
        0 <= index < particles.len(),
        nearby_count(particles, particles[index].position, particles[index].food.neighbour_radius)
            >= particles[index].food.max_neighbours,
    ensures
        offspring(particles[index], duplication_step(particles, index, dt), success, draw).is_none(),
{
}

/// The velocity of a food particle after a frame's damping.
pub open spec fn food_damped(v: Vec2, dt: i64) -> Vec2 {
    snapped(v.spec_scaled(damping_factor(FOOD_DAMPING, dt)))
}

/// Food damping never increases speed, for any non-negative frame time.
pub proof fn lemma_food_damping_never_speeds_up(v: Vec2, dt: i64)
    requires
        dt >= 0,
    ensures
        food_damped(v, dt).spec_length_squared() <= v.spec_length_squared(),
{
    lemma_damping_never_speeds_up(v, FOOD_DAMPING, dt);
}

/// The population after a frame's damping: every velocity damped, nothing else
/// changed.
pub open spec fn damped_population(particles: Seq<FoodBundle>, dt: i64) -> Seq<FoodBundle> {
    Seq::new(
        particles.len(),
        |i: int|
            FoodBundle { velocity: Velocity(food_damped(particles[i].velocity.0, dt)), ..particles[i] },
    )
}

/// Damps every particle's velocity at the food's own rate and snaps near-zero
/// velocities to rest.
pub fn food_velocity_damping(particles: &mut Vec<FoodBundle>, dt: i64)
    ensures
        final(particles)@ == damped_population(old(particles)@, dt),
{
    let n: usize = particles.len();
    let factor: i64 = damping_factor_for(FOOD_DAMPING, dt);
    let mut i: usize = 0;
    while i < n
        invariant
            i <= n,
            particles@.len() == n,
            old(particles)@.len() == n,
            factor == damping_factor(FOOD_DAMPING, dt),
            forall|k: int| 0 <= k < i ==> particles@[k] == (FoodBundle {
                velocity: Velocity(food_damped(old(particles)@[k].velocity.0, dt)),
                ..old(particles)@[k]
            }),
            forall|k: int| i <= k < n ==> particles@[k] == old(particles)@[k],
        decreases n - i,
    {
        let mut p: FoodBundle = particles[i];
        p.velocity.0 = snap_to_zero(p.velocity.0.scaled(factor));
        particles.set(i, p);
        i += 1;
    }
    assert(particles@ =~= damped_population(old(particles)@, dt));
}

/// The divisor that softens separation: the distance, but at least one unit.
pub open spec fn softening(delta: Vec2) -> int {
    if delta.spec_length() < ONE {
        ONE as int
    } else {
        delta.spec_length() as int
    }
}

/// The velocity gained from cohesion toward a neighbour that is `delta` away:
/// `cohesion_force * dt` along `delta`.
pub open spec fn cohesion_pull(food: Food, delta: Vec2, dt: i64) -> Vec2 {
    delta.spec_normalize_or_zero().spec_scaled(food.cohesion_force).spec_scaled(dt)
}

/// The velocity gained from separation from a neighbour that is `delta` away:
/// `seperation_force * dt` against `delta`, divided by the softened distance.
pub open spec fn separation_push(food: Food, delta: Vec2, dt: i64) -> Vec2 {
    delta.spec_normalize_or_zero().spec_scaled(saturate(-food.seperation_force) as i64).spec_scaled(
        dt,
    ).spec_times_ratio(ONE, softening(delta))
}

/// The velocity of a particle after its interaction with one neighbour that is
/// `delta` away. A coincident neighbour is skipped; cohesion and separation each
/// apply inside their own radius, cohesion first.
pub open spec fn after_pair(v: Vec2, food: Food, delta: Vec2, dt: i64) -> Vec2 {
    if delta == Vec2::zero() {
        v
    } else {
        let pulled = if delta.spec_shorter_than(food.cohesion_radius) {
            v.spec_plus(cohesion_pull(food, delta, dt))
        } else {
            v
        };
        if delta.spec_shorter_than(food.seperation_radius) {
            pulled.spec_plus(separation_push(food, delta, dt))
        } else {
            pulled
        }
    }
}

/// The velocity of particle `i` after its interactions with the particles from
/// `i + 1` up to, not including, `upto`, taken in order. Only the first member of a
/// pair is moved by it.
pub open spec fn cohesion_velocity(particles: Seq<FoodBundle>, i: int, upto: int, dt: i64) -> Vec2
    decreases upto - i,
{
    if upto <= i + 1 {
        particles[i].velocity.0
    } else {
        after_pair(
            cohesion_velocity(particles, i, upto - 1, dt),
            particles[i].food,
            particles[upto - 1].position.spec_minus(particles[i].position),
            dt,
        )
    }
}

/// Whether no component of `w` points against the matching component of `delta`.
pub open spec fn points_along(w: Vec2, delta: Vec2) -> bool {
    &&& (delta.x >= 0 ==> w.x >= 0)
    &&& (delta.x <= 0 ==> w.x <= 0)
    &&& (delta.y >= 0 ==> w.y >= 0)
    &&& (delta.y <= 0 ==> w.y <= 0)
}

/// With a non-negative force and frame time, the cohesion pull never points away
/// from the neighbour.
pub proof fn lemma_cohesion_pull_points_at_neighbour(food: Food, delta: Vec2, dt: i64)
    requires
        food.cohesion_force >= 0,
        dt >= 0,
    ensures
        points_along(cohesion_pull(food, delta, dt), delta),
{
    let dir = delta.spec_normalize_or_zero();
    let len: nat = delta.spec_length();
    lemma_some_root_up(delta.spec_length_squared());
    if len != 0 {
        lemma_component_within_length(delta);
        lemma_ratio_magnitude(delta.x as int, ONE as int, len as int);
        lemma_ratio_magnitude(delta.y as int, ONE as int, len as int);
    } else {
        lemma_component_within_length(delta);
    }
    assert(points_along(dir, delta));
    let forced = dir.spec_scaled(food.cohesion_force);
    lemma_ratio_keeps_sign(dir.x as int, food.cohesion_force as int, ONE as int);
    lemma_ratio_keeps_sign(dir.y as int, food.cohesion_force as int, ONE as int);
    lemma_ratio_keeps_sign(forced.x as int, dt as int, ONE as int);
    lemma_ratio_keeps_sign(forced.y as int, dt as int, ONE as int);
}

/// The largest coordinate for which the gap law below is stated: far inside the
/// range in which no sum or difference of positions saturates.
pub const GAP_LAW_RANGE: i64 = 0x1000_0000_0000_0000;

/// Whether both coordinates of `p` lie within `GAP_LAW_RANGE` of zero.
pub open spec fn in_gap_law_range(p: Vec2) -> bool {
    &&& -GAP_LAW_RANGE <= p.x <= GAP_LAW_RANGE
    &&& -GAP_LAW_RANGE <= p.y <= GAP_LAW_RANGE
}

/// The displacement in one frame of a particle with velocity `v` and one neighbour
/// `delta` away.
pub open spec fn pair_step(v: Vec2, food: Food, delta: Vec2, dt: i64) -> Vec2 {
    after_pair(v, food, delta, dt).spec_scaled(dt)
}

/// Cohesion alone closes the gap: a particle at `p` whose velocity does not point
/// away from its neighbour at `q`, and which has no separation, is strictly closer
/// to the neighbour after the frame, provided that it moves at all and that the
/// frame does not carry it past the neighbour in either coordinate.
pub proof fn lemma_cohesion_step_closes_gap(v: Vec2, food: Food, p: Vec2, q: Vec2, dt: i64)
    requires
        in_gap_law_range(p),
        in_gap_law_range(q),
        points_along(v, q.spec_minus(p)),
        food.cohesion_force >= 0,
        dt >= 0,
        food.seperation_radius <= 0,
        pair_step(v, food, q.spec_minus(p), dt) != Vec2::zero(),
        abs_int(pair_step(v, food, q.spec_minus(p), dt).x as int) <= abs_int(
            q.spec_minus(p).x as int,
        ),
        abs_int(pair_step(v, food, q.spec_minus(p), dt).y as int) <= abs_int(
            q.spec_minus(p).y as int,
        ),
    ensures
        q.spec_minus(p.spec_plus(pair_step(v, food, q.spec_minus(p), dt))).spec_length_squared()
            < q.spec_minus(p).spec_length_squared(),
{
    let delta = q.spec_minus(p);
    let w = after_pair(v, food, delta, dt);
    let s = pair_step(v, food, delta, dt);
    lemma_cohesion_pull_points_at_neighbour(food, delta, dt);
    assert(points_along(w, delta));
    lemma_ratio_keeps_sign(w.x as int, dt as int, ONE as int);
    lemma_ratio_keeps_sign(w.y as int, dt as int, ONE as int);
    assert(points_along(s, delta));
    let after = q.spec_minus(p.spec_plus(s));
    assert(after.x == delta.x - s.x);
    assert(after.y == delta.y - s.y);
    lemma_shortened_square(delta.x as int, s.x as int);
    lemma_shortened_square(delta.y as int, s.y as int);
}

/// Taking from `d` a part `s` of the same sign and no more magnitude leaves a square
/// that is no larger, and smaller if the part is not zero.
proof fn lemma_shortened_square(d: int, s: int)
    requires
        abs_int(s) <= abs_int(d),
        d >= 0 ==> s >= 0,
        d <= 0 ==> s <= 0,
    ensures
        square(d - s) <= square(d),
        s != 0 ==> square(d - s) < square(d),
{
    assert(0 <= (d - s) * (d - s) <= d * d && (s != 0 ==> (d - s) * (d - s) < d * d))
        by (nonlinear_arith)
        requires
            (0 <= s <= d) || (d <= s <= 0),
    ;
}

/// Applies one neighbour's cohesion and separation to a velocity.
pub fn apply_pair(v: Vec2, food: &Food, delta: Vec2, dt: i64) -> (r: Vec2)
    ensures
        r == after_pair(v, *food, delta, dt),
{
    if delta.is_zero() {
        return v;
    }
    let direction: Vec2 = delta.normalize_or_zero();
    let mut out: Vec2 = v;
    if delta.shorter_than(food.cohesion_radius) {
        out = out.plus(direction.scaled(food.cohesion_force).scaled(dt));
    }
    if delta.shorter_than(food.seperation_radius) {
        let distance: u128 = delta.length();
        let divisor: i128 = if distance < ONE as u128 {
            ONE as i128
        } else {
            distance as i128
        };
        let push: Vec2 = direction.scaled(sub_saturating(0, food.seperation_force)).scaled(dt);
        out = out.plus(
            Vec2::new(mul_div(push.x, ONE, divisor), mul_div(push.y, ONE, divisor)),
        );
    }
    out
}

/// The population after a frame's cohesion and separation: every particle's velocity
/// changed by its interactions with the particles after it, nothing else changed.
pub open spec fn cohered_population(particles: Seq<FoodBundle>, dt: i64) -> Seq<FoodBundle> {
    Seq::new(
        particles.len(),
        |i: int|
            FoodBundle {
                velocity: Velocity(cohesion_velocity(particles, i, particles.len() as int, dt)),
                ..particles[i]
            },
    )
}

/// Cohesion and separation over every unordered pair of particles, each pair once:
/// the pair `(i, j)` with `i < j` moves particle `i` only, by `i`'s own radii and
/// forces. Positions are not changed.
pub fn food_cohesion(particles: &mut Vec<FoodBundle>, dt: i64)
    ensures
        final(particles)@ == cohered_population(old(particles)@, dt),
{
    let n: usize = particles.len();
    let mut i: usize = 0;
    while i < n
        invariant
            i <= n,
            particles@.len() == n,
            old(particles)@.len() == n,
            forall|k: int| 0 <= k < i ==> particles@[k] == (FoodBundle {
                velocity: Velocity(cohesion_velocity(old(particles)@, k, n as int, dt)),
                ..old(particles)@[k]
            }),
            forall|k: int| i <= k < n ==> particles@[k] == old(particles)@[k],
        decreases n - i,
    {
        let mut p: FoodBundle = particles[i];
        let mut j: usize = i + 1;
        let mut v: Vec2 = p.velocity.0;
        while j < n
            invariant
                i < j <= n,
                particles@.len() == n,
                old(particles)@.len() == n,
                p.food == old(particles)@[i as int].food,
                p.position == old(particles)@[i as int].position,
                v == cohesion_velocity(old(particles)@, i as int, j as int, dt),
                forall|k: int| i <= k < n ==> particles@[k] == old(particles)@[k],
            decreases n - j,
        {
            let delta: Vec2 = particles[j].position.minus(p.position);
            v = apply_pair(v, &p.food, delta, dt);
            j += 1;
        }
        p.velocity.0 = v;
        particles.set(i, p);
        i += 1;
    }
    assert(particles@ =~= cohered_population(old(particles)@, dt));
}

/// A particle after the frame's movement: carried along its velocity and turned to
/// head along it.
pub open spec fn moved(p: FoodBundle, dt: i64) -> FoodBundle {
    FoodBundle {
        position: p.position.spec_plus(p.velocity.0.spec_scaled(dt)),
        heading: turned(p.heading, p.velocity.0),
        ..p
    }
}

/// The population after the frame's movement.
pub open spec fn moved_population(particles: Seq<FoodBundle>, dt: i64) -> Seq<FoodBundle> {
    Seq::new(particles.len(), |i: int| moved(particles[i], dt))
}

/// Moves every particle along its velocity and turns it to head along it.
pub fn move_food(particles: &mut Vec<FoodBundle>, dt: i64)
    ensures
        final(particles)@ == moved_population(old(particles)@, dt),
{
    let n: usize = particles.len();
    let mut i: usize = 0;
    while i < n
        invariant
            i <= n,
            particles@.len() == n,
            old(particles)@.len() == n,
            forall|k: int| 0 <= k < i ==> particles@[k] == moved(old(particles)@[k], dt),
            forall|k: int| i <= k < n ==> particles@[k] == old(particles)@[k],
        decreases n - i,
    {
        let mut p: FoodBundle = particles[i];
        update_position(&mut p.position, &p.velocity, dt);
        update_rotation(&mut p.heading, &p.velocity);
        particles.set(i, p);
        i += 1;
    }
    assert(particles@ =~= moved_population(old(particles)@, dt));
}

/// The population after the deterministic part of a frame: damping, then cohesion
/// and separation, then movement.
pub open spec fn population_after_frame(particles: Seq<FoodBundle>, dt: i64) -> Seq<FoodBundle> {
    moved_population(cohered_population(damped_population(particles, dt), dt), dt)
}

/// Runs the deterministic part of a frame on the population, in its fixed order.
/// Duplication comes before it and needs the caller's draws.
pub fn food_frame(particles: &mut Vec<FoodBundle>, dt: i64)
    ensures
        final(particles)@ == population_after_frame(old(particles)@, dt),
{
    food_velocity_damping(particles, dt);
    food_cohesion(particles, dt);
    move_food(particles, dt);
}

} // verus!
