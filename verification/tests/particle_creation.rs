use web_particle::components::{ParticleBoundsState, ParticleCreationState, ParticlePlacementMode};
use web_particle::constants::{PARTICLE_COUNT, PARTICLE_GRID_BOUNDS};
use web_particle::fixed::{COORD_MAX, HALF, ONE};
use web_particle::setup::spawn_particles;
use web_particle::systems::particle_creation::{
    clamp_length, handle_particle_creation, handle_particle_removal, middle, place_at_offset,
    place_in_ball, spawn_particles_in_ball, spawn_particles_in_cube, spawn_particles_random,
    spawn_single_particle, MAX_BALL_ATTEMPTS,
};
use web_particle::systems::particles::toggle_particle_selection;
use web_particle::vector::Vec3;
use web_particle::world::{Particle, ParticleMaterial, ParticleWorld};

fn v(x: f64, y: f64, z: f64) -> Vec3 {
    Vec3::new(
        (x * 1_000_000.0).round() as i64,
        (y * 1_000_000.0).round() as i64,
        (z * 1_000_000.0).round() as i64,
    )
}

fn all(world: &ParticleWorld) -> Vec<Particle> {
    (0..world.len()).map(|i| world.particle(i)).collect()
}

fn is_fresh(p: &Particle) -> bool {
    !p.selected && !p.in_motion && p.material == ParticleMaterial::White
}

#[test]
fn arena_starts_empty() {
    let world = ParticleWorld::new();
    assert_eq!(world.len(), 0);
    assert_eq!(world.get(0), None);
    assert_eq!(world.index_of(0), None);
    assert!(world.selected_entities().is_empty());
}

#[test]
fn spawned_particles_get_consecutive_identities() {
    let mut world = ParticleWorld::new();
    let a = world.spawn(v(1.0, 2.0, 3.0), v(0.1, 0.2, 0.3));
    let b = world.spawn(v(4.0, 5.0, 6.0), v(0.4, 0.5, 0.6));
    assert_eq!((a, b), (Some(0), Some(1)));
    assert_eq!(world.len(), 2);
    assert_eq!(world.index_of(1), Some(1));
    assert_eq!(
        world.get(1),
        Some(Particle {
            entity: 1,
            translation: v(4.0, 5.0, 6.0),
            base_position: v(0.4, 0.5, 0.6),
            selected: false,
            in_motion: false,
            material: ParticleMaterial::White,
        })
    );
    assert_eq!(world.particle(0).translation, v(1.0, 2.0, 3.0));
}

#[test]
fn spawn_saturates_positions() {
    let mut world = ParticleWorld::new();
    let id = world.spawn(Vec3::new(i64::MAX, 0, i64::MIN), Vec3::new(i64::MIN, i64::MAX, 1)).unwrap();
    let p = world.get(id).unwrap();
    assert_eq!(p.translation, Vec3::new(COORD_MAX, 0, -COORD_MAX));
    assert_eq!(p.base_position, Vec3::new(-COORD_MAX, COORD_MAX, 1));
}

#[test]
fn identities_are_not_reused_after_removal() {
    let mut world = ParticleWorld::new();
    let a = world.spawn(v(0.0, 0.0, 0.0), middle()).unwrap();
    let b = world.spawn(v(0.0, 0.0, 0.0), middle()).unwrap();
    toggle_particle_selection(b, &mut world);
    world.remove_selected();
    let c = world.spawn(v(0.0, 0.0, 0.0), middle()).unwrap();
    assert_eq!((a, b, c), (0, 1, 2));
    world.clear();
    assert_eq!(world.len(), 0);
    assert_eq!(world.spawn(v(0.0, 0.0, 0.0), middle()), Some(3));
}

#[test]
fn arena_setters_change_one_particle() {
    let mut world = ParticleWorld::new();
    world.spawn(v(0.0, 0.0, 0.0), middle()).unwrap();
    world.spawn(v(1.0, 1.0, 1.0), middle()).unwrap();
    world.set_translation(1, v(2.0, 3.0, 4.0));
    world.set_selected(0, true, ParticleMaterial::Purple);
    world.set_in_motion(1, true);
    let p0 = world.particle(0);
    let p1 = world.particle(1);
    assert_eq!(p0.translation, v(0.0, 0.0, 0.0));
    assert!(p0.selected && !p0.in_motion);
    assert_eq!(p0.material, ParticleMaterial::Purple);
    assert_eq!(p1.translation, v(2.0, 3.0, 4.0));
    assert!(!p1.selected && p1.in_motion);
    assert_eq!(p1.material, ParticleMaterial::White);
}

#[test]
fn single_particle_sits_in_the_middle_of_the_volume() {
    assert_eq!(middle(), Vec3::new(HALF, HALF, HALF));
    let mut world = ParticleWorld::new();
    let id = spawn_single_particle(&mut world, v(3.0, 4.0, 5.0)).unwrap();
    let p = world.get(id).unwrap();
    assert_eq!(p.translation, v(3.0, 4.0, 5.0));
    // Wherever it is put, its normalized position is the middle.
    assert_eq!(p.base_position, v(0.5, 0.5, 0.5));
    assert!(is_fresh(&p));
}

#[test]
fn lengths_are_clamped() {
    assert_eq!(clamp_length(-1), 0);
    assert_eq!(clamp_length(0), 0);
    assert_eq!(clamp_length(17), 17);
    assert_eq!(clamp_length(i64::MAX), COORD_MAX);
    assert_eq!(clamp_length(i64::MIN), 0);
}

#[test]
fn offsets_are_added_and_lifted() {
    assert_eq!(place_at_offset(v(0.0, 1.5, 0.0), v(1.0, 0.25, -1.0), ONE), v(1.0, 1.75, -1.0));
    assert_eq!(place_at_offset(v(0.0, 1.5, 0.0), v(1.0, -1.0, -1.0), ONE), v(1.0, 1.0, -1.0));
    assert_eq!(place_at_offset(v(0.0, 1.5, 0.0), v(0.0, -0.5, 0.0), ONE), v(0.0, 1.0, 0.0));
    assert_eq!(
        place_at_offset(Vec3::new(i64::MAX, 0, i64::MIN), Vec3::new(i64::MAX, 0, i64::MIN), i64::MAX),
        Vec3::new(COORD_MAX, COORD_MAX, -COORD_MAX)
    );
}

#[test]
fn points_are_accepted_inside_the_ball_only() {
    let c = v(0.0, 10.0, 0.0);
    let r = 2 * ONE;
    assert_eq!(place_in_ball(c, r, 0, v(0.0, 0.0, 0.0)), Some(c));
    assert_eq!(place_in_ball(c, r, 0, v(2.0, 0.0, 0.0)), Some(v(2.0, 10.0, 0.0)));
    assert_eq!(place_in_ball(c, r, 0, v(0.0, -2.0, 0.0)), Some(v(0.0, 8.0, 0.0)));
    assert_eq!(place_in_ball(c, r, 0, v(1.0, 1.0, 1.0)), Some(v(1.0, 11.0, 1.0)));
    assert_eq!(place_in_ball(c, r, 0, v(2.000001, 0.0, 0.0)), None);
    assert_eq!(place_in_ball(c, r, 0, v(1.2, 1.2, 1.2)), None);
    assert_eq!(place_in_ball(c, r, 0, v(-2.0, 0.0, 0.000001)), None);
    assert_eq!(place_in_ball(c, r, 0, v(-1.999999, 0.0, 0.001)), Some(v(-1.999999, 10.0, 0.001)));
    assert_eq!(place_in_ball(c, r, 0, Vec3::new(i64::MAX, i64::MIN, 0)), None);
    // Lifted to the floor.
    assert_eq!(place_in_ball(c, r, 9 * ONE + HALF, v(0.0, -1.0, 0.0)), Some(v(0.0, 9.5, 0.0)));
    // A negative radius is a point.
    assert_eq!(place_in_ball(c, -5, 0, v(0.0, 0.0, 0.0)), Some(c));
    assert_eq!(place_in_ball(c, -5, 0, Vec3::new(1, 0, 0)), None);
}

#[test]
fn random_batch_lies_in_the_bounds_volume() {
    let mut bounds = ParticleBoundsState::default();
    bounds.bounds_x = 4 * ONE;
    bounds.bounds_z = 6 * ONE;
    bounds.bounds_y_height = 2 * ONE;
    let mut world = ParticleWorld::new();
    let keep = world.spawn(v(9.0, 9.0, 9.0), v(0.1, 0.1, 0.1)).unwrap();
    let spawned = spawn_particles_random(&mut world, Some(&bounds), 200);
    assert_eq!(spawned, 200);
    assert_eq!(world.len(), 201);
    assert_eq!(world.get(keep).unwrap().translation, v(9.0, 9.0, 9.0));
    for (k, p) in all(&world).iter().enumerate().skip(1) {
        assert_eq!(p.entity, k as u64);
        assert!(is_fresh(p));
        assert_eq!(p.base_position, v(0.5, 0.5, 0.5));
        assert!(-2 * ONE <= p.translation.x && p.translation.x <= 2 * ONE);
        assert!(ONE <= p.translation.y && p.translation.y <= 3 * ONE);
        assert!(-3 * ONE <= p.translation.z && p.translation.z <= 3 * ONE);
    }
}

#[test]
fn random_batch_without_bounds_uses_the_default_extent() {
    assert_eq!(PARTICLE_GRID_BOUNDS, 5 * ONE);
    let mut world = ParticleWorld::new();
    assert_eq!(spawn_particles_random(&mut world, None, 100), 100);
    for p in all(&world) {
        assert!(-5 * HALF <= p.translation.x && p.translation.x <= 5 * HALF);
        assert!(ONE <= p.translation.y && p.translation.y <= 2 * ONE);
        assert!(-5 * HALF <= p.translation.z && p.translation.z <= 5 * HALF);
    }
}

#[test]
fn random_batch_is_spread_out() {
    let mut world = ParticleWorld::new();
    spawn_particles_random(&mut world, None, 200);
    let particles = all(&world);
    let first = particles[0].translation;
    assert!(particles.iter().any(|p| p.translation.x != first.x));
    assert!(particles.iter().any(|p| p.translation.y != first.y));
    assert!(particles.iter().any(|p| p.translation.z != first.z));
    // Not stuck at the ends of the range either.
    assert!(particles.iter().any(|p| p.translation.x != -5 * HALF && p.translation.x != 5 * HALF));
    assert!(particles.iter().any(|p| p.translation.x < 0));
    assert!(particles.iter().any(|p| p.translation.x > 0));
}

#[test]
fn empty_batch_adds_nothing() {
    let mut world = ParticleWorld::new();
    assert_eq!(spawn_particles_random(&mut world, None, 0), 0);
    assert_eq!(spawn_particles_in_ball(&mut world, v(0.0, 0.0, 0.0), ONE, 0, 0), 0);
    assert_eq!(spawn_particles_in_cube(&mut world, v(0.0, 0.0, 0.0), v(1.0, 1.0, 1.0), 0, 0), 0);
    assert_eq!(world.len(), 0);
}

#[test]
fn ball_batch_lies_in_the_ball() {
    assert_eq!(MAX_BALL_ATTEMPTS, 64);
    let center = v(1.0, 20.0, -3.0);
    let mut world = ParticleWorld::new();
    assert_eq!(spawn_particles_in_ball(&mut world, center, 2 * ONE, 0, 300), 300);
    let mut off_centre = 0;
    for p in all(&world) {
        let dx = (p.translation.x - center.x) as i128;
        let dy = (p.translation.y - center.y) as i128;
        let dz = (p.translation.z - center.z) as i128;
        assert!(dx * dx + dy * dy + dz * dz <= 4_000_000_000_000);
        assert_eq!(p.base_position, v(0.5, 0.5, 0.5));
        assert!(is_fresh(&p));
        if p.translation != center {
            off_centre += 1;
        }
    }
    assert!(off_centre > 250);
}

#[test]
fn ball_batch_is_lifted_to_the_floor() {
    let mut world = ParticleWorld::new();
    spawn_particles_in_ball(&mut world, v(0.0, 1.5, 0.0), 2 * ONE, ONE, 300);
    let particles = all(&world);
    assert!(particles.iter().all(|p| p.translation.y >= ONE));
    assert!(particles.iter().all(|p| p.translation.y <= 3 * ONE + HALF));
    assert!(particles.iter().any(|p| p.translation.y == ONE));
    assert!(particles.iter().any(|p| p.translation.y > ONE));
}

#[test]
fn ball_without_radius_is_its_centre() {
    let mut world = ParticleWorld::new();
    spawn_particles_in_ball(&mut world, v(1.0, 2.0, 3.0), 0, 0, 5);
    spawn_particles_in_ball(&mut world, v(1.0, 2.0, 3.0), -7, 0, 5);
    assert_eq!(world.len(), 10);
    assert!(all(&world).iter().all(|p| p.translation == v(1.0, 2.0, 3.0)));
}

#[test]
fn cube_batch_lies_in_the_box() {
    let center = v(0.0, 1.5, 0.0);
    let mut world = ParticleWorld::new();
    assert_eq!(spawn_particles_in_cube(&mut world, center, v(2.0, 1.0, 4.0), ONE, 300), 300);
    let particles = all(&world);
    for p in particles.iter() {
        assert!(-ONE <= p.translation.x && p.translation.x <= ONE);
        assert!(ONE <= p.translation.y && p.translation.y <= 2 * ONE);
        assert!(-2 * ONE <= p.translation.z && p.translation.z <= 2 * ONE);
        assert_eq!(p.base_position, v(0.5, 0.5, 0.5));
    }
    let first = particles[0].translation;
    assert!(particles.iter().any(|p| p.translation.x != first.x));
    assert!(particles.iter().any(|p| p.translation.x < 0));
    assert!(particles.iter().any(|p| p.translation.x > 0));
    assert!(particles.iter().any(|p| p.translation.z.abs() > ONE));
}

#[test]
fn cube_batch_is_lifted_to_the_floor() {
    let mut world = ParticleWorld::new();
    spawn_particles_in_cube(&mut world, v(0.0, 1.0, 0.0), v(2.0, 2.0, 2.0), ONE, 200);
    let particles = all(&world);
    assert!(particles.iter().all(|p| ONE <= p.translation.y && p.translation.y <= 2 * ONE));
    assert!(particles.iter().any(|p| p.translation.y == ONE));
}

#[test]
fn flat_and_negative_boxes() {
    let mut world = ParticleWorld::new();
    spawn_particles_in_cube(&mut world, v(1.0, 5.0, 1.0), v(0.0, -3.0, 0.000001), 0, 20);
    assert!(all(&world).iter().all(|p| p.translation == v(1.0, 5.0, 1.0)));
    // An edge of three millionths: offsets of one millionth either way.
    let mut world = ParticleWorld::new();
    spawn_particles_in_cube(&mut world, v(0.0, 5.0, 0.0), Vec3::new(3, 0, 0), 0, 200);
    let particles = all(&world);
    assert!(particles.iter().all(|p| p.translation.x.abs() <= 1));
    assert!(particles.iter().any(|p| p.translation.x == 1));
    assert!(particles.iter().any(|p| p.translation.x == -1));
    assert!(particles.iter().any(|p| p.translation.x == 0));
}

#[test]
fn controls_start_with_a_random_batch_of_ten() {
    let state = ParticleCreationState::default();
    assert!(state.placement_mode == ParticlePlacementMode::Random);
    assert_eq!(state.batch_count, 10);
    assert_eq!(state.ball_center, v(0.0, 1.5, 0.0));
    assert_eq!(state.ball_radius, 2 * ONE);
    assert_eq!(state.cube_center, v(0.0, 1.5, 0.0));
    assert_eq!(state.cube_size, v(2.0, 1.0, 2.0));
    assert_eq!(state.y_min, ONE);
    assert!(!state.create_requested);
    assert!(!state.remove_selected_requested);
    assert!(!state.remove_all_requested);
}

#[test]
fn creation_waits_for_a_request() {
    let mut world = ParticleWorld::new();
    let mut state = ParticleCreationState::default();
    assert_eq!(handle_particle_creation(&mut world, &mut state, None), 0);
    assert_eq!(world.len(), 0);
    assert_eq!(state, ParticleCreationState::default());
}

#[test]
fn creation_request_is_served_once() {
    let mut world = ParticleWorld::new();
    let mut state = ParticleCreationState::default();
    state.create_requested = true;
    state.batch_count = 7;
    assert_eq!(handle_particle_creation(&mut world, &mut state, None), 7);
    assert_eq!(world.len(), 7);
    assert!(!state.create_requested);
    assert_eq!(state.batch_count, 7);
    assert_eq!(handle_particle_creation(&mut world, &mut state, None), 0);
    assert_eq!(world.len(), 7);
}

#[test]
fn creation_follows_the_placement_mode() {
    let bounds = ParticleBoundsState::default();
    let mut state = ParticleCreationState::default();
    state.batch_count = 100;
    state.ball_center = v(100.0, 50.0, 0.0);
    state.ball_radius = ONE;
    state.cube_center = v(-100.0, 50.0, 0.0);
    state.cube_size = v(2.0, 2.0, 2.0);
    state.y_min = 0;

    let mut world = ParticleWorld::new();
    state.placement_mode = ParticlePlacementMode::Ball;
    state.create_requested = true;
    handle_particle_creation(&mut world, &mut state, Some(&bounds));
    assert!(all(&world).iter().all(|p| (p.translation.x - 100 * ONE).abs() <= ONE));

    let mut world = ParticleWorld::new();
    state.placement_mode = ParticlePlacementMode::Cube;
    state.create_requested = true;
    handle_particle_creation(&mut world, &mut state, Some(&bounds));
    assert!(all(&world).iter().all(|p| (p.translation.x + 100 * ONE).abs() <= ONE));

    let mut world = ParticleWorld::new();
    state.placement_mode = ParticlePlacementMode::Random;
    state.create_requested = true;
    handle_particle_creation(&mut world, &mut state, Some(&bounds));
    assert!(all(&world).iter().all(|p| p.translation.x.abs() <= 5 * ONE));
    assert!(all(&world).iter().all(|p| ONE <= p.translation.y && p.translation.y <= 2 * ONE));
}

#[test]
fn removal_of_the_selected_particles() {
    let mut world = ParticleWorld::new();
    let ids: Vec<u64> = (0..5).map(|i| world.spawn(v(i as f64, 0.0, 0.0), middle()).unwrap()).collect();
    toggle_particle_selection(ids[1], &mut world);
    toggle_particle_selection(ids[4], &mut world);
    let mut state = ParticleCreationState::default();
    state.remove_selected_requested = true;
    handle_particle_removal(&mut world, &mut state);
    assert!(!state.remove_selected_requested);
    assert_eq!(all(&world).iter().map(|p| p.entity).collect::<Vec<_>>(), vec![ids[0], ids[2], ids[3]]);
    assert_eq!(world.get(ids[2]).unwrap().translation, v(2.0, 0.0, 0.0));
    assert!(world.selected_entities().is_empty());
    assert_eq!(world.get(ids[1]), None);
    assert!(!world.is_selected(ids[4]));
}

#[test]
fn removal_of_all_particles_goes_first() {
    let mut world = ParticleWorld::new();
    let a = world.spawn(v(0.0, 0.0, 0.0), middle()).unwrap();
    world.spawn(v(1.0, 0.0, 0.0), middle()).unwrap();
    toggle_particle_selection(a, &mut world);
    let mut state = ParticleCreationState::default();
    state.remove_all_requested = true;
    state.remove_selected_requested = true;
    handle_particle_removal(&mut world, &mut state);
    assert_eq!(world.len(), 0);
    assert!(world.selected_entities().is_empty());
    assert!(!state.remove_all_requested);
    assert!(state.remove_selected_requested);
    handle_particle_removal(&mut world, &mut state);
    assert!(!state.remove_selected_requested);
    assert_eq!(world.len(), 0);
}

#[test]
fn removal_waits_for_a_request() {
    let mut world = ParticleWorld::new();
    let a = world.spawn(v(0.0, 0.0, 0.0), middle()).unwrap();
    toggle_particle_selection(a, &mut world);
    let mut state = ParticleCreationState::default();
    handle_particle_removal(&mut world, &mut state);
    assert_eq!(world.len(), 1);
    assert_eq!(world.selected_entities(), vec![a]);
    assert_eq!(state, ParticleCreationState::default());
}

#[test]
fn initial_scene_has_fifty_particles() {
    assert_eq!(PARTICLE_COUNT, 50);
    let mut world = ParticleWorld::new();
    assert_eq!(spawn_particles(&mut world, None), 50);
    assert_eq!(world.len(), 50);
    let p0 = world.particle(0);
    assert_eq!(p0.base_position, v(0.07, 0.03, 0.11));
    assert_eq!(p0.translation, v(-2.15, 1.03, -1.95));
    let p1 = world.particle(1);
    assert_eq!(p1.base_position, v(0.24, 0.16, 0.34));
    assert_eq!(p1.translation, v(-1.3, 1.16, -0.8));
    let p49 = world.particle(49);
    // 49 * 17 + 7 = 840, 49 * 13 + 3 = 640, 49 * 23 + 11 = 1138.
    assert_eq!(p49.base_position, v(0.40, 0.40, 0.38));
    assert_eq!(p49.entity, 49);
    assert!(all(&world).iter().all(is_fresh));
}

#[test]
fn initial_scene_follows_the_bounds() {
    let mut bounds = ParticleBoundsState::default();
    bounds.bounds_y_height = 2 * ONE;
    let mut world = ParticleWorld::new();
    spawn_particles(&mut world, Some(&bounds));
    let p0 = world.particle(0);
    assert_eq!(p0.base_position, v(0.07, 0.03, 0.11));
    assert_eq!(p0.translation, v(-4.3, 1.06, -3.9));
    for p in all(&world) {
        assert!(0 <= p.base_position.x && p.base_position.x < ONE);
        assert!(p.translation.x.abs() <= 5 * ONE);
        assert!(ONE <= p.translation.y && p.translation.y <= 3 * ONE);
    }
}
