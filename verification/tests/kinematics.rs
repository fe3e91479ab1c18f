use floating_objects::Circle;
use floating_objects::RGBColor;

fn grey() -> RGBColor {
    RGBColor { r: 127, g: 127, b: 127 }
}

fn plain_circle(x_pos: i32, y_pos: i32, x_vel: i32, y_vel: i32, radius: i32, mass: i32) -> Circle {
    Circle::new(
        String::from("test"),
        x_pos,
        y_pos,
        x_vel,
        y_vel,
        radius,
        0,
        mass,
        grey(),
        grey(),
    )
}

#[test]
fn low_boundary_reflection_follows_the_literal_formula() {
    // pos = 5, vel = -10, radius = 5 (times 256 subunits): the low-boundary
    // formula gives 2*5 - 5 - (-10) = 15.
    let mut c = plain_circle(5 * 256, 50 * 256, -10 * 256, 0, 5 * 256, 256);
    c.move_circle(0, 100 * 256, 0, 100 * 256);
    assert_eq!(c.x_pos, 15 * 256);
    assert_eq!(c.x_vel, 10 * 256);
    assert_eq!(c.y_pos, 50 * 256);
    assert_eq!(c.y_vel, 0);
}

#[test]
fn low_boundary_triggers_when_next_step_touches_radius() {
    // radius = 10, bounds 0..100, pos = 5, vel = -8: next = -3 <= 0 + 10
    // triggers the low branch: 2*10 - 5 - (-8) = 23.
    let mut c = plain_circle(5 * 256, 50 * 256, -8 * 256, 0, 10 * 256, 256);
    c.move_circle(0, 100 * 256, 0, 100 * 256);
    assert_eq!(c.x_pos, 23 * 256);
    assert_eq!(c.x_vel, 8 * 256);
}

#[test]
fn high_boundary_reflection_follows_the_literal_formula() {
    // pos = 95, vel = 10, radius = 5, bounds 0..100: next = 105 >= 95
    // triggers the high branch: 2*100 - 2*5 - 95 - 10 = 85.
    let mut c = plain_circle(95 * 256, 50 * 256, 10 * 256, 0, 5 * 256, 256);
    c.move_circle(0, 100 * 256, 0, 100 * 256);
    assert_eq!(c.x_pos, 85 * 256);
    assert_eq!(c.x_vel, -10 * 256);
}

#[test]
fn free_motion_adds_velocity() {
    let mut c = plain_circle(50 * 256, 40 * 256, 256, -512, 5 * 256, 256);
    c.move_circle(0, 100 * 256, 0, 100 * 256);
    assert_eq!(c.x_pos, 51 * 256);
    assert_eq!(c.x_vel, 256);
    assert_eq!(c.y_pos, 38 * 256);
    assert_eq!(c.y_vel, -512);
}

#[test]
fn overlap_is_strict_so_tangent_circles_do_not_collide() {
    let probe = plain_circle(0, 0, 0, 0, 5 * 256, 256);
    // Center distance exactly the sum of radii: no overlap.
    let tangent = vec![plain_circle(10 * 256, 0, 0, 0, 5 * 256, 256)];
    assert!(!Circle::check_on_top(&probe, &tangent, 999999));
    // One subunit closer: overlap.
    let closer = vec![plain_circle(10 * 256 - 1, 0, 0, 0, 5 * 256, 256)];
    assert!(Circle::check_on_top(&probe, &closer, 999999));
}

#[test]
fn check_on_top_excludes_the_given_index() {
    let probe = plain_circle(0, 0, 0, 0, 5 * 256, 256);
    // The array holds a copy of the probe itself at index 0.
    let array = vec![plain_circle(0, 0, 0, 0, 5 * 256, 256)];
    assert!(!Circle::check_on_top(&probe, &array, 0));
    assert!(Circle::check_on_top(&probe, &array, 1));
    assert!(Circle::check_on_top(&probe, &array, 999999));
}

#[test]
fn collision_adds_mass_weighted_relative_velocity() {
    // Other circle with twice the mass moving at (100, 50) relative to a
    // resting circle: transfer = rel * other_mass / own_mass = (200, 100).
    let mut me = plain_circle(0, 0, 0, 0, 5 * 256, 256);
    let others = vec![plain_circle(1000, 0, 100, 50, 5 * 256, 512)];
    me.collide_with_other_circles(&others, 999999);
    assert_eq!(me.x_vel, 200);
    assert_eq!(me.y_vel, 100);
}

#[test]
fn collision_accumulates_over_several_overlaps_in_order() {
    let mut me = plain_circle(0, 0, 0, 0, 5 * 256, 256);
    let others = vec![
        plain_circle(1000, 0, 100, 50, 5 * 256, 512),
        plain_circle(0, 1000, -100, 0, 5 * 256, 256),
    ];
    me.collide_with_other_circles(&others, 2);
    // After the first: (200, 100).  Against the second, the relative
    // velocity uses the running value: (-100 - 200, 0 - 100) transfers
    // (-300, -100) at equal mass.
    assert_eq!(me.x_vel, -100);
    assert_eq!(me.y_vel, 0);
}

#[test]
fn collision_transfer_truncates_toward_zero() {
    // rel * other_mass / own_mass = 50 * 100 / 300 = 16.67: truncation
    // toward zero gives 16 and -16, not a floor of -17.
    let mut me = plain_circle(0, 0, 0, 0, 5 * 256, 300);
    let approaching = vec![plain_circle(1000, 0, 50, -50, 5 * 256, 100)];
    me.collide_with_other_circles(&approaching, 999999);
    assert_eq!(me.x_vel, 16);
    assert_eq!(me.y_vel, -16);
}

#[test]
fn collision_skips_the_own_index() {
    let mut me = plain_circle(0, 0, 0, 0, 5 * 256, 256);
    let others = vec![plain_circle(1000, 0, 100, 50, 5 * 256, 512)];
    me.collide_with_other_circles(&others, 0);
    assert_eq!(me.x_vel, 0);
    assert_eq!(me.y_vel, 0);
}

#[test]
fn accelerate_gives_the_one_step_displacement_as_velocity() {
    let mut c = plain_circle(10 * 256, 10 * 256, 77, -77, 5 * 256, 256);
    c.accelerate_to_position(20 * 256, 5 * 256);
    assert_eq!(c.x_pos, 20 * 256);
    assert_eq!(c.y_pos, 5 * 256);
    assert_eq!(c.x_vel, 10 * 256);
    assert_eq!(c.y_vel, -5 * 256);
}

#[test]
fn border_wider_than_radius_is_clamped_at_construction() {
    let c = Circle::new(
        String::from("clamped"),
        0,
        0,
        0,
        0,
        4 * 256,
        9 * 256,
        256,
        grey(),
        grey(),
    );
    assert_eq!(c.border_width, 4 * 256);
    let kept = Circle::new(
        String::from("kept"),
        0,
        0,
        0,
        0,
        4 * 256,
        3 * 256,
        256,
        grey(),
        grey(),
    );
    assert_eq!(kept.border_width, 3 * 256);
}

#[test]
fn clone_copies_every_attribute() {
    let c = plain_circle(7, 8, 9, 10, 11, 12);
    let d = c.clone();
    assert_eq!(d.name, c.name);
    assert_eq!(d.x_pos, 7);
    assert_eq!(d.y_pos, 8);
    assert_eq!(d.x_vel, 9);
    assert_eq!(d.y_vel, 10);
    assert_eq!(d.radius, 11);
    assert_eq!(d.mass, 12);
}
