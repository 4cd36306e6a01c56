use steering_sim::fixed::ONE;
use steering_sim::food::{
    apply_pair, count_nearby_food, duplicate, food_cohesion, food_duplication, food_frame,
    food_velocity_damping, grow_population, move_food, spawn_food, spawn_initial_food,
    DuplicationStep, Food, FoodBundle, InitialFoodDraw, SpawnDraw, FOOD_COUNT,
};
use steering_sim::vector::Vec2;

const U: i64 = ONE;

fn template() -> Food {
    Food {
        nutritional_value: 4 * U,
        duplication_chance: U / 10,
        spawn_velocity_min: 5 * U,
        spawn_velocity_max: 100 * U,
        cohesion_radius: 64 * U,
        cohesion_force: 4 * U,
        seperation_radius: 0,
        seperation_force: 256 * U,
        neighbour_radius: 64 * U,
        max_neighbours: 16,
    }
}

fn at(food: Food, x: i64, y: i64) -> FoodBundle {
    FoodBundle::from_food(food, Vec2::new(x, y), Vec2::new(0, 0))
}

#[test]
fn cohesion_moves_only_the_first_of_a_pair() {
    let mut particles = vec![at(template(), 0, 0), at(template(), 10 * U, 0)];
    food_cohesion(&mut particles, U);
    assert_eq!(particles[0].velocity.0, Vec2::new(4 * U, 0));
    assert_eq!(particles[1].velocity.0, Vec2::new(0, 0));
    assert_eq!(particles[0].position, Vec2::new(0, 0));
    assert_eq!(particles[1].position, Vec2::new(10 * U, 0));
}

#[test]
fn separation_pushes_away_softened_by_distance() {
    let mut food = template();
    food.seperation_radius = 32 * U;
    let mut particles = vec![at(food, 0, 0), at(food, 10 * U, 0)];
    food_cohesion(&mut particles, U);
    assert_eq!(particles[0].velocity.0, Vec2::new(4 * U - 25_600_000, 0));
    assert_eq!(particles[1].velocity.0, Vec2::new(0, 0));
}

#[test]
fn separation_is_not_divided_by_less_than_one() {
    let mut food = template();
    food.seperation_radius = 32 * U;
    food.cohesion_radius = 0;
    let v = apply_pair(Vec2::new(0, 0), &food, Vec2::new(0, U / 2), U);
    assert_eq!(v, Vec2::new(0, -256 * U));
}

#[test]
fn coincident_particles_do_not_interact() {
    let mut food = template();
    food.seperation_radius = 32 * U;
    let mut particles = vec![at(food, 7 * U, 7 * U), at(food, 7 * U, 7 * U)];
    food_cohesion(&mut particles, U);
    assert_eq!(particles[0].velocity.0, Vec2::new(0, 0));
    assert_eq!(particles[1].velocity.0, Vec2::new(0, 0));
}

#[test]
fn particles_beyond_the_radius_do_not_attract() {
    let mut particles = vec![at(template(), 0, 0), at(template(), 64 * U, 0)];
    food_cohesion(&mut particles, U);
    assert_eq!(particles[0].velocity.0, Vec2::new(0, 0));
}

#[test]
fn pairs_are_taken_in_order() {
    let mut particles =
        vec![at(template(), 0, 0), at(template(), 10 * U, 0), at(template(), 0, -10 * U)];
    food_cohesion(&mut particles, U / 2);
    assert_eq!(particles[0].velocity.0, Vec2::new(2 * U, -2 * U));
    assert_eq!(particles[1].velocity.0, Vec2::new(-1_414_212, -1_414_212));
    assert_eq!(particles[2].velocity.0, Vec2::new(0, 0));
}

#[test]
fn cohesion_alone_closes_the_gap() {
    let mut particles = vec![at(template(), 0, 0), at(template(), 10 * U, 0)];
    let mut gap: u128 = particles[1].position.minus(particles[0].position).length_squared();
    let mut frame = 0;
    while frame < 5 {
        food_cohesion(&mut particles, U / 10);
        let v = particles[0].velocity.0;
        particles[0].position = particles[0].position.plus(v.scaled(U / 10));
        let now: u128 = particles[1].position.minus(particles[0].position).length_squared();
        assert!(now < gap);
        gap = now;
        frame += 1;
    }
}

#[test]
fn neighbours_are_counted_with_a_strict_threshold() {
    let particles =
        vec![at(template(), 0, 0), at(template(), 10 * U, 0), at(template(), 100 * U, 0)];
    assert_eq!(count_nearby_food(&particles, Vec2::new(0, 0), 64 * U), 2);
    assert_eq!(count_nearby_food(&particles, Vec2::new(0, 0), 10 * U), 1);
    assert_eq!(count_nearby_food(&particles, Vec2::new(0, 0), 10 * U + 1), 2);
    assert_eq!(count_nearby_food(&particles, Vec2::new(0, 0), 0), 0);
    assert_eq!(count_nearby_food(&Vec::new(), Vec2::new(0, 0), 64 * U), 0);
}

#[test]
fn uncrowded_particle_gets_a_trial() {
    let particles = vec![at(template(), 0, 0), at(template(), 10 * U, 0)];
    assert_eq!(food_duplication(&particles, 0, U / 2), DuplicationStep::Trial { chance: 50_000 });
    assert_eq!(food_duplication(&particles, 1, 20 * U), DuplicationStep::Trial { chance: U });
    assert_eq!(food_duplication(&particles, 1, -U), DuplicationStep::Trial { chance: 0 });
}

#[test]
fn crowded_particle_never_duplicates() {
    let mut food = template();
    food.max_neighbours = 2;
    let particles = vec![at(food, 0, 0), at(food, 10 * U, 0), at(food, 500 * U, 0)];
    let draw = SpawnDraw { direction: Vec2::new(U, 0), speed: 5 * U };
    let step = food_duplication(&particles, 0, U);
    assert_eq!(step, DuplicationStep::Crowded);
    assert!(duplicate(&particles[0], step, true, draw).is_none());
    assert!(duplicate(&particles[0], step, false, draw).is_none());
    let lonely = food_duplication(&particles, 2, U);
    assert_eq!(lonely, DuplicationStep::Trial { chance: U / 10 });
    assert!(duplicate(&particles[2], lonely, false, draw).is_none());
    assert!(duplicate(&particles[2], lonely, true, draw).is_some());
}

#[test]
fn child_copies_the_parent() {
    let mut food = template();
    food.nutritional_value = 4_321_000;
    let parent = FoodBundle::from_food(food, Vec2::new(3 * U, -2 * U), Vec2::new(U, U));
    let draw = SpawnDraw { direction: Vec2::new(0, -U), speed: 50 * U };
    let child = duplicate(&parent, DuplicationStep::Trial { chance: U / 10 }, true, draw).unwrap();
    assert_eq!(child.position, Vec2::new(3 * U, -2 * U));
    assert_eq!(child.velocity.0, Vec2::new(0, -50 * U));
    assert_eq!(child.food.nutritional_value, 4_321_000);
    assert_eq!(child.food.max_neighbours, 16);
    assert_eq!(child.food.cohesion_force, 4 * U);
}

#[test]
fn spawned_particle_moves_as_drawn() {
    let draw = SpawnDraw { direction: Vec2::new(600_000, 800_000), speed: 10 * U };
    let p = spawn_food(template(), Vec2::new(U, U), draw);
    assert_eq!(p.velocity.0, Vec2::new(6 * U, 8 * U));
    assert_eq!(p.position, Vec2::new(U, U));
}

#[test]
fn initial_population_of_food() {
    let mut draws = Vec::new();
    let mut i: i64 = 0;
    while i < 6 {
        draws.push(InitialFoodDraw {
            position: Vec2::new(i * U, -i * U),
            jitter: 1_100_000,
            spawn: SpawnDraw { direction: Vec2::new(U, 0), speed: (5 + i) * U },
        });
        i += 1;
    }
    let particles = spawn_initial_food(&draws);
    assert_eq!(particles.len(), FOOD_COUNT);
    assert_eq!(particles.len(), 4);
    assert_eq!(particles[2].position, Vec2::new(2 * U, -2 * U));
    assert_eq!(particles[2].velocity.0, Vec2::new(7 * U, 0));
    assert_eq!(particles[2].food.nutritional_value, 4_400_000);
    assert_eq!(particles[2].food.duplication_chance, 100_000);
    assert_eq!(particles[2].food.seperation_radius, 32 * U);
    assert_eq!(particles[2].food.seperation_force, 256 * U);
    assert_eq!(particles[2].food.max_neighbours, 16);
}

#[test]
fn food_damping_uses_its_own_rate() {
    let mut particles = vec![
        FoodBundle::from_food(template(), Vec2::new(0, 0), Vec2::new(10 * U, -10 * U)),
        FoodBundle::from_food(template(), Vec2::new(U, 0), Vec2::new(4000, 0)),
    ];
    food_velocity_damping(&mut particles, U / 4);
    assert_eq!(particles[0].velocity.0, Vec2::new(5 * U, -5 * U));
    assert_eq!(particles[1].velocity.0, Vec2::new(0, 0));
    assert_eq!(particles[1].position, Vec2::new(U, 0));
}

#[test]
fn food_damping_stops_particles_in_long_frames() {
    let mut particles =
        vec![FoodBundle::from_food(template(), Vec2::new(0, 0), Vec2::new(10 * U, -10 * U))];
    food_velocity_damping(&mut particles, U);
    assert_eq!(particles[0].velocity.0, Vec2::new(0, 0));
}

#[test]
fn food_velocity_near_zero_snaps() {
    let mut particles = vec![
        FoodBundle::from_food(template(), Vec2::new(0, 0), Vec2::new(3000, 2000)),
        FoodBundle::from_food(template(), Vec2::new(0, 0), Vec2::new(2000, 2000)),
    ];
    food_velocity_damping(&mut particles, 0);
    assert_eq!(particles[0].velocity.0, Vec2::new(3000, 2000));
    assert_eq!(particles[1].velocity.0, Vec2::new(0, 0));
}

#[test]
fn children_join_after_the_pass() {
    let mut food = template();
    food.max_neighbours = 3;
    let mut particles = vec![at(food, 0, 0), at(food, 10 * U, 0), at(food, 500 * U, 0)];
    let east = SpawnDraw { direction: Vec2::new(U, 0), speed: 5 * U };
    let north = SpawnDraw { direction: Vec2::new(0, U), speed: 7 * U };
    // With the first child counted, the second particle would be crowded.
    grow_population(&mut particles, U, &vec![Some(east), Some(north), None]);
    assert_eq!(particles.len(), 5);
    assert_eq!(particles[3].position, Vec2::new(0, 0));
    assert_eq!(particles[3].velocity.0, Vec2::new(5 * U, 0));
    assert_eq!(particles[4].position, Vec2::new(10 * U, 0));
    assert_eq!(particles[4].velocity.0, Vec2::new(0, 7 * U));
    assert_eq!(particles[0].velocity.0, Vec2::new(0, 0));
}

#[test]
fn a_pass_ignores_success_for_crowded_particles() {
    let mut food = template();
    food.max_neighbours = 2;
    let mut particles = vec![at(food, 0, 0), at(food, 10 * U, 0), at(food, 500 * U, 0)];
    let east = SpawnDraw { direction: Vec2::new(U, 0), speed: 5 * U };
    grow_population(&mut particles, U, &vec![Some(east), Some(east), Some(east)]);
    assert_eq!(particles.len(), 4);
    assert_eq!(particles[3].position, Vec2::new(500 * U, 0));
    let mut few = vec![at(food, 0, 0)];
    grow_population(&mut few, U, &Vec::new());
    assert_eq!(few.len(), 1);
}

#[test]
fn food_moves_along_its_velocity() {
    let mut particles =
        vec![FoodBundle::from_food(template(), Vec2::new(U, U), Vec2::new(0, -4 * U))];
    move_food(&mut particles, U / 2);
    assert_eq!(particles[0].position, Vec2::new(U, -U));
    assert_eq!(particles[0].heading, Vec2::new(0, -U));
    assert_eq!(particles[0].velocity.0, Vec2::new(0, -4 * U));
}

#[test]
fn a_food_frame_damps_then_attracts_then_moves() {
    let mut particles = vec![
        FoodBundle::from_food(template(), Vec2::new(0, 0), Vec2::new(0, 8 * U)),
        at(template(), 10 * U, 0),
    ];
    food_frame(&mut particles, U / 4);
    assert_eq!(particles[0].velocity.0, Vec2::new(U, 4 * U));
    assert_eq!(particles[0].position, Vec2::new(U / 4, U));
    assert_eq!(particles[1].velocity.0, Vec2::new(0, 0));
    assert_eq!(particles[1].position, Vec2::new(10 * U, 0));
}
