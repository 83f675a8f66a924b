use web_particle::components::{ParticleBoundsState, ParticleGroupState};
use web_particle::coords::{apply_group_transform, to_normalized, to_world, BOUNDS_Y_MIN};
use web_particle::fixed::{div_floor, mul_scaled, saturate, COORD_MAX, HALF, ONE};
use web_particle::systems::particles::{update_particle_bounds, update_particle_group_transform};
use web_particle::vector::Vec3;
use web_particle::world::ParticleWorld;

fn metres(x: f64, y: f64, z: f64) -> Vec3 {
    Vec3::new(
        (x * 1_000_000.0).round() as i64,
        (y * 1_000_000.0).round() as i64,
        (z * 1_000_000.0).round() as i64,
    )
}

fn bounds(x: f64, z: f64, height: f64) -> ParticleBoundsState {
    let mut b = ParticleBoundsState::default();
    b.bounds_x = (x * 1_000_000.0) as i64;
    b.bounds_z = (z * 1_000_000.0) as i64;
    b.bounds_y_height = (height * 1_000_000.0) as i64;
    b
}

#[test]
fn units_are_millionths() {
    assert_eq!(ONE, 1_000_000);
    assert_eq!(HALF, 500_000);
    assert_eq!(BOUNDS_Y_MIN, 1_000_000);
    assert_eq!(COORD_MAX, 100_000_000_000);
}

#[test]
fn division_rounds_toward_negative_infinity() {
    assert_eq!(div_floor(7, 2), 3);
    assert_eq!(div_floor(-7, 2), -4);
    assert_eq!(div_floor(-8, 2), -4);
    assert_eq!(div_floor(0, 5), 0);
    assert_eq!(div_floor(-1, 1_000_000), -1);
    assert_eq!(div_floor(i128::MIN, 1), i128::MIN);
    assert_eq!(div_floor(i128::MIN, 2), i128::MIN / 2);
    assert_eq!(div_floor(i128::MIN + 1, 2), i128::MIN / 2);
    assert_eq!(div_floor(i128::MAX, i128::MAX), 1);
    assert_eq!(div_floor(-1, i128::MAX), -1);
}

#[test]
fn scaled_product_rounds_down() {
    assert_eq!(mul_scaled(1_500_000, 2_000_000), 3_000_000);
    assert_eq!(mul_scaled(1, 1), 0);
    assert_eq!(mul_scaled(-1, 1), -1);
    assert_eq!(mul_scaled(-1_500_000, 2_000_000), -3_000_000);
    assert_eq!(mul_scaled(3, 500_000), 1);
    assert_eq!(mul_scaled(-3, 500_000), -2);
}

#[test]
fn saturation_stops_at_the_coordinate_range() {
    assert_eq!(saturate(COORD_MAX as i128 + 1), COORD_MAX);
    assert_eq!(saturate(-(COORD_MAX as i128) - 1), -COORD_MAX);
    assert_eq!(saturate(12), 12);
    assert_eq!(saturate(i128::MAX), COORD_MAX);
    assert_eq!(saturate(i128::MIN), -COORD_MAX);
    assert_eq!(
        Vec3::new(i64::MAX, i64::MIN, 5).clamped(),
        Vec3::new(COORD_MAX, -COORD_MAX, 5)
    );
}

#[test]
fn centre_of_the_volume_is_above_the_origin() {
    let world = to_world(metres(0.5, 0.5, 0.5), &bounds(10.0, 10.0, 1.0));
    assert_eq!(world, metres(0.0, 1.5, 0.0));
}

#[test]
fn centre_stays_when_the_volume_widens() {
    let world = to_world(metres(0.5, 0.5, 0.5), &bounds(20.0, 10.0, 1.0));
    assert_eq!(world, metres(0.0, 1.5, 0.0));
}

#[test]
fn edge_of_a_wider_volume() {
    let world = to_world(metres(1.0, 0.5, 0.5), &bounds(20.0, 10.0, 1.0));
    assert_eq!(world, metres(10.0, 1.5, 0.0));
}

#[test]
fn corners_of_the_volume() {
    let b = bounds(10.0, 4.0, 2.0);
    assert_eq!(to_world(metres(0.0, 0.0, 0.0), &b), metres(-5.0, 1.0, -2.0));
    assert_eq!(to_world(metres(1.0, 1.0, 1.0), &b), metres(5.0, 3.0, 2.0));
}

#[test]
fn normalized_position_outside_the_unit_cube_lands_outside_the_volume() {
    let b = bounds(10.0, 10.0, 1.0);
    assert_eq!(to_world(metres(1.5, 2.0, -0.5), &b), metres(10.0, 3.0, -10.0));
}

#[test]
fn projection_saturates() {
    let mut b = ParticleBoundsState::default();
    b.bounds_x = i64::MAX;
    b.bounds_z = i64::MAX;
    b.bounds_y_height = i64::MAX;
    let world = to_world(Vec3::new(i64::MAX, i64::MAX, i64::MIN), &b);
    assert_eq!(world, Vec3::new(COORD_MAX, COORD_MAX, -COORD_MAX));
}

#[test]
fn projection_is_linear_along_each_axis() {
    let b = bounds(8.0, 6.0, 3.0);
    let a = to_world(metres(0.25, 0.25, 0.25), &b);
    let m = to_world(metres(0.5, 0.5, 0.5), &b);
    let c = to_world(metres(0.75, 0.75, 0.75), &b);
    assert_eq!(a, metres(-2.0, 1.75, -1.5));
    assert_eq!(m, metres(0.0, 2.5, 0.0));
    assert_eq!(c, metres(2.0, 3.25, 1.5));
    assert_eq!(m.x - a.x, c.x - m.x);
    assert_eq!(m.y - a.y, c.y - m.y);
    assert_eq!(m.z - a.z, c.z - m.z);
    // Changing one coordinate moves the position along that axis only.
    let moved = to_world(metres(0.75, 0.25, 0.25), &b);
    assert_eq!(moved, Vec3::new(c.x, a.y, a.z));
}

#[test]
fn projection_follows_the_extents_without_jumps() {
    let n = metres(0.9, 0.3, 0.1);
    let before = to_world(n, &bounds(10.0, 10.0, 1.0));
    let mut wider = bounds(10.0, 10.0, 1.0);
    wider.bounds_x += 2;
    wider.bounds_z += 2;
    wider.bounds_y_height += 2;
    let after = to_world(n, &wider);
    assert!((after.x - before.x).abs() <= 3);
    assert!((after.y - before.y).abs() <= 4);
    assert!((after.z - before.z).abs() <= 3);
}

#[test]
fn inverse_projection_recovers_the_normalized_position() {
    let b = bounds(10.0, 4.0, 2.0);
    assert_eq!(to_normalized(metres(-5.0, 1.0, -2.0), &b), Some(metres(0.0, 0.0, 0.0)));
    assert_eq!(to_normalized(metres(5.0, 3.0, 2.0), &b), Some(metres(1.0, 1.0, 1.0)));
    assert_eq!(to_normalized(metres(0.0, 2.0, 1.0), &b), Some(metres(0.5, 0.5, 0.75)));
    let n = metres(0.123456, 0.654321, 0.999999);
    let back = to_normalized(to_world(n, &b), &b).unwrap();
    assert!(back.x <= n.x && n.x - back.x <= 2);
    assert!(back.y <= n.y && n.y - back.y <= 2);
    assert!(back.z <= n.z && n.z - back.z <= 2);
}

#[test]
fn inverse_projection_needs_a_volume() {
    assert_eq!(to_normalized(metres(0.0, 1.0, 0.0), &bounds(0.0, 10.0, 1.0)), None);
    assert_eq!(to_normalized(metres(0.0, 1.0, 0.0), &bounds(10.0, 0.0, 1.0)), None);
    assert_eq!(to_normalized(metres(0.0, 1.0, 0.0), &bounds(10.0, 10.0, 0.0)), None);
    assert_eq!(to_normalized(metres(0.0, 1.0, 0.0), &bounds(-1.0, 10.0, 1.0)), None);
}

#[test]
fn group_transform_scales_then_offsets() {
    let placed = apply_group_transform(metres(1.0, 1.5, 0.0), 2 * ONE, metres(5.0, 0.0, 0.0));
    assert_eq!(placed, metres(7.0, 3.0, 0.0));
}

#[test]
fn group_transform_identity_and_saturation() {
    let p = metres(-3.25, 2.0, 9.5);
    assert_eq!(apply_group_transform(p, ONE, Vec3::zero()), p);
    assert_eq!(apply_group_transform(p, 0, metres(1.0, 2.0, 3.0)), metres(1.0, 2.0, 3.0));
    assert_eq!(
        apply_group_transform(p, i64::MAX, Vec3::zero()),
        Vec3::new(-COORD_MAX, COORD_MAX, COORD_MAX)
    );
}

#[test]
fn default_bounds_and_group() {
    let b = ParticleBoundsState::default();
    assert_eq!((b.bounds_x, b.bounds_z, b.bounds_y_height), (10 * ONE, 10 * ONE, ONE));
    assert_eq!(
        (b.previous_bounds_x, b.previous_bounds_z, b.previous_bounds_y_height),
        (10 * ONE, 10 * ONE, ONE)
    );
    let g = ParticleGroupState::default();
    assert_eq!(g.offset, Vec3::zero());
    assert_eq!(g.scale, ONE);
    assert_eq!(g.previous_offset, Vec3::zero());
    assert_eq!(g.previous_scale, ONE);
    assert_eq!(Vec3::zero(), Vec3::new(0, 0, 0));
    assert_eq!(Vec3::one(), Vec3::new(ONE, ONE, ONE));
}

#[test]
fn bounds_pass_reprojects_only_after_a_change() {
    let mut world = ParticleWorld::new();
    let a = world.spawn(metres(9.0, 9.0, 9.0), metres(1.0, 0.5, 0.5)).unwrap();
    let b = world.spawn(metres(8.0, 8.0, 8.0), metres(0.0, 1.0, 0.25)).unwrap();
    let mut state = ParticleBoundsState::default();

    update_particle_bounds(&mut world, &mut state);
    assert_eq!(world.get(a).unwrap().translation, metres(9.0, 9.0, 9.0));
    assert_eq!(world.get(b).unwrap().translation, metres(8.0, 8.0, 8.0));

    state.bounds_x = 20 * ONE;
    update_particle_bounds(&mut world, &mut state);
    assert_eq!(world.get(a).unwrap().translation, metres(10.0, 1.5, 0.0));
    assert_eq!(world.get(b).unwrap().translation, metres(-10.0, 2.0, -2.5));
    assert_eq!(state.previous_bounds_x, 20 * ONE);
    // Normalized positions are never resampled.
    assert_eq!(world.get(a).unwrap().base_position, metres(1.0, 0.5, 0.5));
    assert_eq!(world.get(b).unwrap().base_position, metres(0.0, 1.0, 0.25));

    state.bounds_y_height = 3 * ONE;
    update_particle_bounds(&mut world, &mut state);
    assert_eq!(world.get(b).unwrap().translation, metres(-10.0, 4.0, -2.5));
    assert_eq!(state.previous_bounds_y_height, 3 * ONE);
}

#[test]
fn group_pass_places_all_particles_after_a_change() {
    let mut world = ParticleWorld::new();
    let a = world.spawn(metres(0.0, 0.0, 0.0), metres(0.6, 0.5, 0.5)).unwrap();
    let bounds_state = ParticleBoundsState::default();
    let mut group = ParticleGroupState::default();

    update_particle_group_transform(&mut world, &mut group, &bounds_state);
    assert_eq!(world.get(a).unwrap().translation, metres(0.0, 0.0, 0.0));

    group.offset = metres(5.0, 0.0, 0.0);
    group.scale = 2 * ONE;
    update_particle_group_transform(&mut world, &mut group, &bounds_state);
    // Base world position (1, 1.5, 0), doubled and moved 5 m along X.
    assert_eq!(world.get(a).unwrap().translation, metres(7.0, 3.0, 0.0));
    assert_eq!(group.previous_offset, metres(5.0, 0.0, 0.0));
    assert_eq!(group.previous_scale, 2 * ONE);
}
