use web_particle::components::{
    Motion1State, ParticleGroupState, TrajectoryCircle, TrajectoryState,
};
use web_particle::constants::{MOTION_MIN_RADIUS, TRAJECTORY_MIN_RADIUS};
use web_particle::fixed::{COORD_MAX, ONE};
use web_particle::systems::motion::{
    animate_motion1_particles, isqrt, toggle_motion1, toggle_trajectory,
    update_trajectory_visualization, TrajectorySpawn, SQRT_MAX,
};
use web_particle::systems::particles::toggle_particle_selection;
use web_particle::vector::Vec3;
use web_particle::world::ParticleWorld;

fn p(x: f64, y: f64, z: f64) -> Vec3 {
    Vec3::new(
        (x * 1_000_000.0).round() as i64,
        (y * 1_000_000.0).round() as i64,
        (z * 1_000_000.0).round() as i64,
    )
}

fn world_of(positions: &[Vec3]) -> (ParticleWorld, Vec<u64>) {
    let mut world = ParticleWorld::new();
    let ids = positions.iter().map(|q| world.spawn(*q, Vec3::zero()).unwrap()).collect();
    (world, ids)
}

fn moving(world: &ParticleWorld) -> Vec<bool> {
    (0..world.len()).map(|i| world.particle(i).in_motion).collect()
}

fn active() -> Motion1State {
    Motion1State { is_active: true, rotation_speed: ONE }
}

#[test]
fn animation_starts_at_rest() {
    let state = Motion1State::default();
    assert!(!state.is_active);
    assert_eq!(state.rotation_speed, ONE);
    assert!(!TrajectoryState::default().is_visible);
    assert_eq!(MOTION_MIN_RADIUS, 1_000);
    assert_eq!(TRAJECTORY_MIN_RADIUS, 100_000);
}

#[test]
fn button_without_selection_starts_all_particles() {
    let (mut world, _) = world_of(&[p(1.0, 0.0, 0.0), p(2.0, 0.0, 0.0), p(3.0, 0.0, 0.0)]);
    let mut state = Motion1State::default();
    toggle_motion1(&mut world, &mut state);
    assert_eq!(moving(&world), vec![true, true, true]);
    assert!(state.is_active);
    toggle_motion1(&mut world, &mut state);
    assert_eq!(moving(&world), vec![false, false, false]);
    assert!(!state.is_active);
}

#[test]
fn button_without_selection_starts_the_rest_when_some_move() {
    let (mut world, _) = world_of(&[p(1.0, 0.0, 0.0), p(2.0, 0.0, 0.0), p(3.0, 0.0, 0.0)]);
    world.set_in_motion(1, true);
    let mut state = Motion1State::default();
    toggle_motion1(&mut world, &mut state);
    assert_eq!(moving(&world), vec![true, true, true]);
    assert!(state.is_active);
}

#[test]
fn button_with_selection_flips_the_selected_particles() {
    let (mut world, ids) = world_of(&[p(1.0, 0.0, 0.0), p(2.0, 0.0, 0.0), p(3.0, 0.0, 0.0)]);
    world.set_in_motion(0, true);
    world.set_in_motion(2, true);
    toggle_particle_selection(ids[0], &mut world);
    toggle_particle_selection(ids[1], &mut world);
    let mut state = active();
    toggle_motion1(&mut world, &mut state);
    assert_eq!(moving(&world), vec![false, true, true]);
    assert!(state.is_active);
    assert_eq!(state.rotation_speed, ONE);
}

#[test]
fn animation_stops_when_the_last_particle_stops() {
    let (mut world, ids) = world_of(&[p(1.0, 0.0, 0.0), p(2.0, 0.0, 0.0)]);
    world.set_in_motion(0, true);
    toggle_particle_selection(ids[0], &mut world);
    let mut state = active();
    toggle_motion1(&mut world, &mut state);
    assert_eq!(moving(&world), vec![false, false]);
    assert!(!state.is_active);
    toggle_motion1(&mut world, &mut state);
    assert_eq!(moving(&world), vec![true, false]);
    assert!(state.is_active);
}

#[test]
fn button_on_an_empty_scene() {
    let mut world = ParticleWorld::new();
    let mut state = active();
    toggle_motion1(&mut world, &mut state);
    assert!(!state.is_active);
    assert_eq!(world.len(), 0);
}

#[test]
fn trajectory_button_flips_visibility() {
    let mut state = TrajectoryState::default();
    toggle_trajectory(&mut state);
    assert!(state.is_visible);
    toggle_trajectory(&mut state);
    assert!(!state.is_visible);
}

#[test]
fn quarter_turn_about_the_vertical_axis() {
    let (mut world, ids) = world_of(&[p(1.0, 2.0, 0.0), p(0.0, -1.0, 3.0), p(5.0, 5.0, 5.0)]);
    toggle_particle_selection(ids[0], &mut world);
    toggle_particle_selection(ids[1], &mut world);
    let group = ParticleGroupState::default();
    animate_motion1_particles(&mut world, &active(), &group, 0, ONE);
    assert_eq!(world.particle(0).translation, p(0.0, 2.0, 1.0));
    assert_eq!(world.particle(1).translation, p(-3.0, -1.0, 0.0));
    // Unselected particles stay.
    assert_eq!(world.particle(2).translation, p(5.0, 5.0, 5.0));
}

#[test]
fn half_turn_and_no_turn() {
    let (mut world, ids) = world_of(&[p(1.0, 2.0, -4.0)]);
    toggle_particle_selection(ids[0], &mut world);
    let group = ParticleGroupState::default();
    animate_motion1_particles(&mut world, &active(), &group, ONE, 0);
    assert_eq!(world.particle(0).translation, p(1.0, 2.0, -4.0));
    animate_motion1_particles(&mut world, &active(), &group, -ONE, 0);
    assert_eq!(world.particle(0).translation, p(-1.0, 2.0, 4.0));
}

#[test]
fn turn_by_an_angle_with_cosine_and_sine_of_three_and_four_fifths() {
    let (mut world, ids) = world_of(&[p(5.0, 1.0, 0.0)]);
    toggle_particle_selection(ids[0], &mut world);
    let group = ParticleGroupState::default();
    animate_motion1_particles(&mut world, &active(), &group, 600_000, 800_000);
    assert_eq!(world.particle(0).translation, p(3.0, 1.0, 4.0));
    animate_motion1_particles(&mut world, &active(), &group, 600_000, 800_000);
    assert_eq!(world.particle(0).translation, p(-1.4, 1.0, 4.8));
}

#[test]
fn axis_stands_at_the_group_offset() {
    let (mut world, ids) = world_of(&[p(2.0, 2.0, 0.0)]);
    toggle_particle_selection(ids[0], &mut world);
    let mut group = ParticleGroupState::default();
    group.offset = p(1.0, 50.0, -1.0);
    animate_motion1_particles(&mut world, &active(), &group, 0, ONE);
    // Relative to the axis at (1, -1): (1, 1) turns into (-1, 1).
    assert_eq!(world.particle(0).translation, p(0.0, 2.0, 0.0));
}

#[test]
fn particles_on_the_axis_stay() {
    let (mut world, ids) = world_of(&[p(0.0, 2.0, 0.0), p(0.001, 3.0, 0.0), p(0.001, 4.0, 0.000001)]);
    for id in ids.iter() {
        toggle_particle_selection(*id, &mut world);
    }
    let group = ParticleGroupState::default();
    animate_motion1_particles(&mut world, &active(), &group, 0, ONE);
    assert_eq!(world.particle(0).translation, p(0.0, 2.0, 0.0));
    assert_eq!(world.particle(1).translation, p(0.001, 3.0, 0.0));
    assert_eq!(world.particle(2).translation, p(-0.000001, 4.0, 0.001));
}

#[test]
fn nothing_moves_while_the_animation_is_off() {
    let (mut world, ids) = world_of(&[p(1.0, 2.0, 0.0)]);
    toggle_particle_selection(ids[0], &mut world);
    let group = ParticleGroupState::default();
    animate_motion1_particles(&mut world, &Motion1State::default(), &group, 0, ONE);
    assert_eq!(world.particle(0).translation, p(1.0, 2.0, 0.0));
}

#[test]
fn cosine_and_sine_are_saturated() {
    let (mut world, ids) = world_of(&[p(1.0, 2.0, 0.0)]);
    toggle_particle_selection(ids[0], &mut world);
    let mut group = ParticleGroupState::default();
    animate_motion1_particles(&mut world, &active(), &group, i64::MAX, i64::MIN);
    assert_eq!(world.particle(0).translation, p(1.0, 2.0, -1.0));
    group.offset = Vec3::new(i64::MAX, 0, i64::MIN);
    animate_motion1_particles(&mut world, &active(), &group, 0, ONE);
    let t = world.particle(0).translation;
    assert!(t.x.abs() <= COORD_MAX && t.z.abs() <= COORD_MAX);
    assert_eq!(t.y, 2 * ONE);
}

#[test]
fn square_roots_are_rounded_down() {
    assert_eq!(isqrt(0), 0);
    assert_eq!(isqrt(1), 1);
    assert_eq!(isqrt(2), 1);
    assert_eq!(isqrt(3), 1);
    assert_eq!(isqrt(4), 2);
    assert_eq!(isqrt(15), 3);
    assert_eq!(isqrt(16), 4);
    assert_eq!(isqrt(999_999_999_999), 999_999);
    assert_eq!(isqrt(1_000_000_000_000), 1_000_000);
    assert_eq!(isqrt(25_000_000_000_000), 5_000_000);
    assert_eq!(isqrt(SQRT_MAX), 141_421_356_237);
    assert_eq!(isqrt(SQRT_MAX - 1), 141_421_356_237);
}

#[test]
fn selected_particles_get_a_circle() {
    let (mut world, ids) = world_of(&[p(3.0, 1.0, 4.0), p(9.0, 9.0, 9.0), p(0.05, 2.0, 0.0)]);
    toggle_particle_selection(ids[0], &mut world);
    toggle_particle_selection(ids[2], &mut world);
    let shown = TrajectoryState { is_visible: true };
    let update = update_trajectory_visualization(&shown, &world, &Vec::new());
    assert_eq!(
        update.spawn,
        vec![
            TrajectorySpawn { particle_entity: ids[0], radius: 5 * ONE, height: ONE },
            // Nearer to the axis than the smallest radius drawn.
            TrajectorySpawn { particle_entity: ids[2], radius: 100_000, height: 2 * ONE },
        ]
    );
    assert!(update.despawn.is_empty());
}

#[test]
fn circles_follow_the_selection() {
    let (mut world, ids) = world_of(&[p(3.0, 1.0, 4.0), p(1.0, 0.0, 0.0), p(0.0, 2.0, 2.0)]);
    toggle_particle_selection(ids[0], &mut world);
    toggle_particle_selection(ids[2], &mut world);
    let circles = vec![
        TrajectoryCircle { circle: 100, particle_entity: ids[0] },
        TrajectoryCircle { circle: 101, particle_entity: ids[1] },
        TrajectoryCircle { circle: 102, particle_entity: 999 },
    ];
    let shown = TrajectoryState { is_visible: true };
    let update = update_trajectory_visualization(&shown, &world, &circles);
    assert_eq!(
        update.spawn,
        vec![TrajectorySpawn { particle_entity: ids[2], radius: 2 * ONE, height: 2 * ONE }]
    );
    assert_eq!(update.despawn, vec![101, 102]);
}

#[test]
fn hidden_orbits_remove_every_circle() {
    let (mut world, ids) = world_of(&[p(3.0, 1.0, 4.0)]);
    toggle_particle_selection(ids[0], &mut world);
    let circles = vec![
        TrajectoryCircle { circle: 100, particle_entity: ids[0] },
        TrajectoryCircle { circle: 101, particle_entity: 5 },
    ];
    let hidden = TrajectoryState { is_visible: false };
    let update = update_trajectory_visualization(&hidden, &world, &circles);
    assert!(update.spawn.is_empty());
    assert_eq!(update.despawn, vec![100, 101]);
}

#[test]
fn orbit_radius_is_rounded_down() {
    let (mut world, ids) = world_of(&[p(1.0, 0.0, 1.0), Vec3::new(COORD_MAX, 7, -COORD_MAX)]);
    toggle_particle_selection(ids[0], &mut world);
    toggle_particle_selection(ids[1], &mut world);
    let shown = TrajectoryState { is_visible: true };
    let update = update_trajectory_visualization(&shown, &world, &Vec::new());
    assert_eq!(update.spawn[0].radius, 1_414_213);
    assert_eq!(update.spawn[1].radius, 141_421_356_237);
    assert_eq!(update.spawn[1].height, 7);
}
