use web_particle::components::MouseButtonState;
use web_particle::constants::PARTICLE_RADIUS;
use web_particle::fixed::{COORD_MAX, ONE};
use web_particle::ray::{raycast_particle, Ray3d, DIRECTION_MAX};
use web_particle::screen::{CameraView, Viewport};
use web_particle::systems::particles::{
    find_closest_particle_hit, handle_particle_selection, toggle_particle_selection,
};
use web_particle::vector::{Vec2, Vec3};
use web_particle::world::{ParticleMaterial, ParticleWorld};

fn at(x: f64, y: f64, z: f64) -> Vec3 {
    Vec3::new(
        (x * 1_000_000.0).round() as i64,
        (y * 1_000_000.0).round() as i64,
        (z * 1_000_000.0).round() as i64,
    )
}

fn down_the_z_axis() -> Ray3d {
    Ray3d::new(at(0.0, 0.0, 10.0), at(0.0, 0.0, -1.0))
}

fn world_with(positions: &[Vec3]) -> (ParticleWorld, Vec<u64>) {
    let mut world = ParticleWorld::new();
    let mut ids = Vec::new();
    for p in positions {
        ids.push(world.spawn(*p, at(0.5, 0.5, 0.5)).unwrap());
    }
    (world, ids)
}

fn released() -> MouseButtonState {
    MouseButtonState {
        left_pressed: false,
        right_pressed: false,
        left_was_pressed: true,
        right_was_pressed: false,
    }
}

fn full_window_camera(ray: Option<Ray3d>) -> CameraView {
    CameraView {
        viewport: Some(Viewport { x: 0, y: 0, width: 800, height: 600 }),
        pick_ray: ray,
        points: Vec::new(),
    }
}

fn pixels(x: i64, y: i64) -> Vec2 {
    Vec2::new(x * ONE, y * ONE)
}

#[test]
fn particle_radius_is_25_millimetres() {
    assert_eq!(PARTICLE_RADIUS, 25_000);
}

#[test]
fn ray_through_the_centre_hits() {
    let hit = raycast_particle(&down_the_z_axis(), at(0.0, 0.0, 0.0));
    // 10 m along a direction of length 1: 1e7 * 1e6.
    assert_eq!(hit, Some(10_000_000_000_000));
}

#[test]
fn ray_within_the_radius_hits() {
    let hit = raycast_particle(&down_the_z_axis(), at(0.02, 0.0, 5.0));
    assert_eq!(hit, Some(5_000_000_000_000));
    let hit = raycast_particle(&down_the_z_axis(), at(0.024999, 0.0, 5.0));
    assert_eq!(hit, Some(5_000_000_000_000));
}

#[test]
fn ray_at_exactly_the_radius_misses() {
    assert_eq!(raycast_particle(&down_the_z_axis(), at(0.025, 0.0, 5.0)), None);
    assert_eq!(raycast_particle(&down_the_z_axis(), at(0.0, -0.025, 5.0)), None);
}

#[test]
fn ray_beyond_the_radius_misses() {
    assert_eq!(raycast_particle(&down_the_z_axis(), at(0.03, 0.0, 0.0)), None);
    assert_eq!(raycast_particle(&down_the_z_axis(), at(0.02, 0.02, 0.0)), None);
}

#[test]
fn particle_behind_the_origin_is_not_hit() {
    assert_eq!(raycast_particle(&down_the_z_axis(), at(0.0, 0.0, 20.0)), None);
    assert_eq!(raycast_particle(&down_the_z_axis(), at(0.0, 0.0, 10.000001)), None);
}

#[test]
fn particle_at_the_origin_of_the_ray_is_hit_at_zero() {
    assert_eq!(raycast_particle(&down_the_z_axis(), at(0.0, 0.0, 10.0)), Some(0));
}

#[test]
fn hit_test_does_not_depend_on_the_length_of_the_direction() {
    let long = Ray3d::new(at(0.0, 0.0, 10.0), at(0.0, 0.0, -2.0));
    assert_eq!(raycast_particle(&long, at(0.02, 0.0, 5.0)), Some(10_000_000_000_000));
    assert_eq!(raycast_particle(&long, at(0.025, 0.0, 5.0)), None);
    let short = Ray3d::new(at(0.0, 0.0, 10.0), at(0.0, 0.0, -0.001));
    assert_eq!(raycast_particle(&short, at(0.02, 0.0, 5.0)), Some(5_000_000_000));
    assert_eq!(raycast_particle(&short, at(0.03, 0.0, 5.0)), None);
}

#[test]
fn slanted_ray() {
    // From the origin along (1, 1, 0): passes through (3, 3, 0).
    let ray = Ray3d::new(at(0.0, 0.0, 0.0), at(1.0, 1.0, 0.0));
    assert_eq!(raycast_particle(&ray, at(3.0, 3.0, 0.0)), Some(6_000_000_000_000));
    assert_eq!(raycast_particle(&ray, at(3.0, 3.0, 0.02)), Some(6_000_000_000_000));
    assert_eq!(raycast_particle(&ray, at(3.0, 3.1, 0.0)), None);
    assert_eq!(raycast_particle(&ray, at(-3.0, -3.0, 0.0)), None);
}

#[test]
fn ray_without_direction_hits_nothing() {
    let ray = Ray3d::new(at(0.0, 0.0, 0.0), at(0.0, 0.0, 0.0));
    assert_eq!(raycast_particle(&ray, at(0.0, 0.0, 0.0)), None);
    assert_eq!(raycast_particle(&ray, at(0.0, 0.0, 1.0)), None);
}

#[test]
fn ray_constructor_saturates() {
    let ray = Ray3d::new(Vec3::new(i64::MAX, 0, i64::MIN), Vec3::new(i64::MAX, i64::MIN, 7));
    assert_eq!(ray.origin, Vec3::new(COORD_MAX, 0, -COORD_MAX));
    assert_eq!(ray.direction, Vec3::new(DIRECTION_MAX, -DIRECTION_MAX, 7));
    let kept = Ray3d::new(at(1.0, 2.0, 3.0), at(0.0, 1.0, 0.0));
    assert_eq!(kept.origin, at(1.0, 2.0, 3.0));
    assert_eq!(kept.direction, at(0.0, 1.0, 0.0));
}

#[test]
fn hit_test_at_the_limits_of_the_range() {
    let ray = Ray3d::new(
        Vec3::new(-COORD_MAX, -COORD_MAX, -COORD_MAX),
        Vec3::new(DIRECTION_MAX, DIRECTION_MAX, DIRECTION_MAX),
    );
    let far = Vec3::new(COORD_MAX, COORD_MAX, COORD_MAX);
    assert_eq!(raycast_particle(&ray, far), Some(1_200_000_000_000_000_000));
    assert_eq!(raycast_particle(&ray, Vec3::new(COORD_MAX, COORD_MAX, COORD_MAX - 1_000_000)), None);
}

#[test]
fn single_particle_on_the_ray_is_found() {
    let (world, ids) = world_with(&[at(3.0, 0.0, 0.0), at(0.0, 0.0, 2.0), at(0.0, 4.0, 0.0)]);
    assert_eq!(find_closest_particle_hit(&down_the_z_axis(), &world), Some(ids[1]));
}

#[test]
fn found_particle_is_named_by_its_identity() {
    let mut world = ParticleWorld::new();
    let gone = world.spawn(at(9.0, 9.0, 9.0), at(0.5, 0.5, 0.5)).unwrap();
    let kept = world.spawn(at(0.0, 0.0, 2.0), at(0.5, 0.5, 0.5)).unwrap();
    toggle_particle_selection(gone, &mut world);
    world.remove_selected();
    assert_eq!(world.index_of(kept), Some(0));
    assert_eq!(find_closest_particle_hit(&down_the_z_axis(), &world), Some(kept));
    assert_eq!(kept, 1);
}

#[test]
fn nearer_of_two_particles_is_found() {
    let (world, _) = world_with(&[at(0.0, 0.0, 0.0), at(0.0, 0.0, 5.0)]);
    assert_eq!(find_closest_particle_hit(&down_the_z_axis(), &world), Some(1));
    let (world, _) = world_with(&[at(0.0, 0.0, 5.0), at(0.0, 0.0, 0.0)]);
    assert_eq!(find_closest_particle_hit(&down_the_z_axis(), &world), Some(0));
}

#[test]
fn nearer_particle_wins_whether_selected_or_not() {
    let (mut world, ids) = world_with(&[at(0.0, 0.0, 0.0), at(0.0, 0.0, 5.0)]);
    toggle_particle_selection(ids[1], &mut world);
    assert_eq!(find_closest_particle_hit(&down_the_z_axis(), &world), Some(1));
    let (mut world, ids) = world_with(&[at(0.0, 0.0, 0.0), at(0.0, 0.0, 5.0)]);
    toggle_particle_selection(ids[0], &mut world);
    assert_eq!(find_closest_particle_hit(&down_the_z_axis(), &world), Some(1));
}

#[test]
fn nothing_on_the_ray_finds_nothing() {
    let (world, _) = world_with(&[at(3.0, 0.0, 0.0), at(0.0, 0.0, 20.0)]);
    assert_eq!(find_closest_particle_hit(&down_the_z_axis(), &world), None);
    assert_eq!(find_closest_particle_hit(&down_the_z_axis(), &ParticleWorld::new()), None);
}

#[test]
fn equally_near_particles_first_unselected_then_in_order() {
    let (world, _) = world_with(&[at(0.0, 0.0, 5.0), at(0.01, 0.0, 5.0), at(0.0, 0.01, 5.0)]);
    assert_eq!(find_closest_particle_hit(&down_the_z_axis(), &world), Some(0));
    let (mut world, ids) = world_with(&[at(0.0, 0.0, 5.0), at(0.01, 0.0, 5.0), at(0.0, 0.01, 5.0)]);
    toggle_particle_selection(ids[0], &mut world);
    assert_eq!(find_closest_particle_hit(&down_the_z_axis(), &world), Some(1));
    toggle_particle_selection(ids[1], &mut world);
    assert_eq!(find_closest_particle_hit(&down_the_z_axis(), &world), Some(2));
    toggle_particle_selection(ids[2], &mut world);
    assert_eq!(find_closest_particle_hit(&down_the_z_axis(), &world), Some(0));
}

#[test]
fn picking_is_repeatable() {
    let (world, _) = world_with(&[at(0.0, 0.0, 1.0), at(0.0, 0.0, 5.0), at(0.0, 0.0, 3.0)]);
    let first = find_closest_particle_hit(&down_the_z_axis(), &world);
    let second = find_closest_particle_hit(&down_the_z_axis(), &world);
    assert_eq!(first, Some(1));
    assert_eq!(first, second);
}

#[test]
fn toggling_changes_membership_and_colour_together() {
    let (mut world, ids) = world_with(&[at(0.0, 0.0, 0.0), at(1.0, 0.0, 0.0)]);
    let before = world.get(ids[0]).unwrap();
    assert!(!before.selected);
    assert_eq!(before.material, ParticleMaterial::White);

    toggle_particle_selection(ids[0], &mut world);
    let picked = world.get(ids[0]).unwrap();
    assert!(picked.selected);
    assert_eq!(picked.material, ParticleMaterial::Green);
    assert_eq!(picked.translation, before.translation);
    let other = world.get(ids[1]).unwrap();
    assert!(!other.selected);
    assert_eq!(other.material, ParticleMaterial::White);
    assert_eq!(world.selected_entities(), vec![ids[0]]);
    assert!(world.is_selected(ids[0]));
    assert!(!world.is_selected(ids[1]));

    toggle_particle_selection(ids[0], &mut world);
    let dropped = world.get(ids[0]).unwrap();
    assert!(!dropped.selected);
    assert_eq!(dropped.material, ParticleMaterial::White);
    assert!(world.selected_entities().is_empty());
}

#[test]
fn toggling_an_unknown_particle_changes_nothing() {
    let (mut world, ids) = world_with(&[at(0.0, 0.0, 0.0)]);
    toggle_particle_selection(ids[0] + 17, &mut world);
    assert_eq!(world.len(), 1);
    assert!(!world.get(ids[0]).unwrap().selected);
    assert!(!world.is_selected(ids[0] + 17));
}

#[test]
fn click_selects_the_nearest_particle_under_the_cursor() {
    let (mut world, ids) = world_with(&[at(0.0, 0.0, 0.0), at(0.0, 0.0, 5.0), at(2.0, 0.0, 0.0)]);
    let cameras = vec![full_window_camera(Some(down_the_z_axis()))];
    let flipped =
        handle_particle_selection(&mut world, &released(), Some(pixels(400, 300)), ONE, &cameras);
    assert_eq!(flipped, Some(ids[1]));
    assert_eq!(world.selected_entities(), vec![ids[1]]);
    assert_eq!(world.get(ids[1]).unwrap().material, ParticleMaterial::Green);

    // A second click on the same place takes it out again.
    let flipped =
        handle_particle_selection(&mut world, &released(), Some(pixels(400, 300)), ONE, &cameras);
    assert_eq!(flipped, Some(ids[1]));
    assert!(world.selected_entities().is_empty());
    assert_eq!(world.get(ids[1]).unwrap().material, ParticleMaterial::White);
}

#[test]
fn click_needs_a_release_of_the_left_button() {
    let (mut world, _) = world_with(&[at(0.0, 0.0, 0.0)]);
    let cameras = vec![full_window_camera(Some(down_the_z_axis()))];
    let states = [
        MouseButtonState { left_pressed: true, right_pressed: false, left_was_pressed: true, right_was_pressed: false },
        MouseButtonState { left_pressed: true, right_pressed: false, left_was_pressed: false, right_was_pressed: false },
        MouseButtonState { left_pressed: false, right_pressed: false, left_was_pressed: false, right_was_pressed: false },
        MouseButtonState { left_pressed: false, right_pressed: false, left_was_pressed: false, right_was_pressed: true },
    ];
    for state in states.iter() {
        let flipped =
            handle_particle_selection(&mut world, state, Some(pixels(400, 300)), ONE, &cameras);
        assert_eq!(flipped, None);
        assert!(world.selected_entities().is_empty());
    }
}

#[test]
fn click_outside_every_viewport_is_rejected() {
    let (mut world, _) = world_with(&[at(0.0, 0.0, 0.0)]);
    let cameras = vec![CameraView {
        viewport: Some(Viewport { x: 200, y: 40, width: 400, height: 300 }),
        pick_ray: Some(down_the_z_axis()),
        points: Vec::new(),
    }];
    for cursor in [pixels(199, 100), pixels(600, 100), pixels(300, 39), pixels(300, 340)] {
        let flipped = handle_particle_selection(&mut world, &released(), Some(cursor), ONE, &cameras);
        assert_eq!(flipped, None);
    }
    // The left and top edges belong to the viewport.
    let flipped =
        handle_particle_selection(&mut world, &released(), Some(pixels(200, 40)), ONE, &cameras);
    assert!(flipped.is_some());
}

#[test]
fn click_uses_physical_pixels() {
    let (mut world, _) = world_with(&[at(0.0, 0.0, 0.0)]);
    let cameras = vec![CameraView {
        viewport: Some(Viewport { x: 400, y: 0, width: 400, height: 600 }),
        pick_ray: Some(down_the_z_axis()),
        points: Vec::new(),
    }];
    // 250 logical pixels are 500 physical pixels at a scale factor of 2.
    let flipped = handle_particle_selection(
        &mut world,
        &released(),
        Some(pixels(250, 100)),
        2 * ONE,
        &cameras,
    );
    assert!(flipped.is_some());
    let flipped =
        handle_particle_selection(&mut world, &released(), Some(pixels(250, 100)), ONE, &cameras);
    assert_eq!(flipped, None);
}

#[test]
fn click_without_cursor_camera_or_ray_does_nothing() {
    let (mut world, _) = world_with(&[at(0.0, 0.0, 0.0)]);
    let cameras = vec![full_window_camera(Some(down_the_z_axis()))];
    assert_eq!(handle_particle_selection(&mut world, &released(), None, ONE, &cameras), None);
    let none: Vec<CameraView> = Vec::new();
    assert_eq!(
        handle_particle_selection(&mut world, &released(), Some(pixels(1, 1)), ONE, &none),
        None
    );
    let blind = vec![full_window_camera(None)];
    assert_eq!(
        handle_particle_selection(&mut world, &released(), Some(pixels(1, 1)), ONE, &blind),
        None
    );
    let unbounded = vec![CameraView {
        viewport: None,
        pick_ray: Some(down_the_z_axis()),
        points: Vec::new(),
    }];
    assert_eq!(
        handle_particle_selection(&mut world, &released(), Some(pixels(1, 1)), ONE, &unbounded),
        None
    );
    assert!(world.selected_entities().is_empty());
}

#[test]
fn click_takes_the_first_camera_under_the_cursor() {
    let (mut world, ids) = world_with(&[at(0.0, 0.0, 0.0), at(5.0, 0.0, 0.0)]);
    let sideways = Ray3d::new(at(5.0, 0.0, 10.0), at(0.0, 0.0, -1.0));
    let cameras = vec![
        CameraView {
            viewport: Some(Viewport { x: 0, y: 0, width: 400, height: 600 }),
            pick_ray: Some(down_the_z_axis()),
            points: Vec::new(),
        },
        CameraView {
            viewport: Some(Viewport { x: 400, y: 0, width: 400, height: 600 }),
            pick_ray: Some(sideways),
            points: Vec::new(),
        },
    ];
    let flipped =
        handle_particle_selection(&mut world, &released(), Some(pixels(500, 10)), ONE, &cameras);
    assert_eq!(flipped, Some(ids[1]));
    let flipped =
        handle_particle_selection(&mut world, &released(), Some(pixels(399, 10)), ONE, &cameras);
    assert_eq!(flipped, Some(ids[0]));
}

#[test]
fn click_that_hits_nothing_keeps_the_selection() {
    let (mut world, ids) = world_with(&[at(0.0, 0.0, 0.0), at(3.0, 0.0, 0.0)]);
    toggle_particle_selection(ids[1], &mut world);
    let away = Ray3d::new(at(0.0, 5.0, 10.0), at(0.0, 0.0, -1.0));
    let cameras = vec![full_window_camera(Some(away))];
    let flipped =
        handle_particle_selection(&mut world, &released(), Some(pixels(10, 10)), ONE, &cameras);
    assert_eq!(flipped, None);
    assert_eq!(world.selected_entities(), vec![ids[1]]);
}
