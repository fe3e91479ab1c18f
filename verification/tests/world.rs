use floating_objects::Circle;
use floating_objects::RGBColor;
use floating_objects::State;

fn color(r: u8, g: u8, b: u8) -> RGBColor {
    RGBColor { r, g, b }
}

fn resting_circle(x_px: i32, y_px: i32, radius_px: i32, fill: RGBColor) -> Circle {
    Circle::new(
        String::from("resting"),
        x_px * 256,
        y_px * 256,
        0,
        0,
        radius_px * 256,
        2 * 256,
        25600,
        fill,
        color(1, 1, 1),
    )
}

fn byte_index(width: i32, x: i32, y: i32) -> usize {
    (3 * (width * y + x)) as usize
}

#[test]
fn selecting_on_an_empty_world_never_selects() {
    let mut world = State::new(100, 100);
    world.select_circle(37, 12);
    assert!(!world.has_selected_circle);
    world.select_circle(0, 0);
    assert!(!world.has_selected_circle);
}

#[test]
fn adding_a_circle_on_top_of_another_is_rejected() {
    let mut world = State::new(100, 100);
    world.add_circle(resting_circle(50, 50, 10, color(9, 9, 9)));
    assert_eq!(world.circles.len(), 1);
    world.add_circle(resting_circle(55, 50, 10, color(8, 8, 8)));
    assert_eq!(world.circles.len(), 1);
    world.add_circle(resting_circle(20, 20, 10, color(7, 7, 7)));
    assert_eq!(world.circles.len(), 2);
}

#[test]
fn selection_moves_the_hit_circle_to_the_top() {
    let mut world = State::new(100, 100);
    world.add_circle(resting_circle(20, 20, 10, color(9, 9, 9)));
    world.add_circle(resting_circle(60, 60, 10, color(8, 8, 8)));
    world.select_circle(20, 20);
    assert!(world.has_selected_circle);
    assert_eq!(world.selected_circle_index, 1);
    assert_eq!(world.circles[0].x_pos, 60 * 256);
    assert_eq!(world.circles[1].x_pos, 20 * 256);
}

#[test]
fn selection_prefers_the_topmost_of_overlapping_circles() {
    let mut world = State::new(100, 100);
    world.circles.push(resting_circle(40, 40, 10, color(9, 9, 9)));
    world.circles.push(resting_circle(41, 40, 10, color(8, 8, 8)));
    world.select_circle(40, 40);
    assert!(world.has_selected_circle);
    let selected = &world.circles[world.selected_circle_index];
    assert_eq!(selected.x_pos, 41 * 256);
}

#[test]
fn selection_requires_the_pointer_strictly_inside() {
    let mut world = State::new(100, 100);
    world.add_circle(resting_circle(50, 50, 10, color(9, 9, 9)));
    world.select_circle(60, 50);
    assert!(!world.has_selected_circle);
    world.select_circle(59, 50);
    assert!(world.has_selected_circle);
}

#[test]
fn removing_twice_is_a_no_op_the_second_time() {
    let mut world = State::new(100, 100);
    world.add_circle(resting_circle(50, 50, 10, color(9, 9, 9)));
    world.select_circle(50, 50);
    assert!(world.has_selected_circle);
    world.remove_circle();
    assert_eq!(world.circles.len(), 0);
    assert!(!world.has_selected_circle);
    world.remove_circle();
    assert_eq!(world.circles.len(), 0);
    assert!(!world.has_selected_circle);
}

#[test]
fn removing_without_a_selection_keeps_every_circle() {
    let mut world = State::new(100, 100);
    world.add_circle(resting_circle(20, 20, 10, color(9, 9, 9)));
    world.add_circle(resting_circle(60, 60, 10, color(8, 8, 8)));
    world.remove_circle();
    assert_eq!(world.circles.len(), 2);
    assert!(!world.has_selected_circle);
}

#[test]
fn dragging_the_selection_throws_the_circle() {
    let mut world = State::new(100, 100);
    world.add_circle(resting_circle(20, 20, 10, color(9, 9, 9)));
    world.select_circle(20, 20);
    world.drag_selected_to(70, 65);
    let dragged = &world.circles[world.selected_circle_index];
    assert_eq!(dragged.x_pos, 70 * 256);
    assert_eq!(dragged.y_pos, 65 * 256);
    assert_eq!(dragged.x_vel, 50 * 256);
    assert_eq!(dragged.y_vel, 45 * 256);
}

#[test]
fn dragging_without_a_selection_is_ignored() {
    let mut world = State::new(100, 100);
    world.add_circle(resting_circle(20, 20, 10, color(9, 9, 9)));
    world.drag_selected_to(70, 65);
    assert_eq!(world.circles[0].x_pos, 20 * 256);
    assert_eq!(world.circles[0].x_vel, 0);
}

#[test]
fn replacing_the_background_shows_in_the_rendered_view() {
    let mut world = State::new(4, 3);
    world.replace_background(vec![7; 36]);
    let view = world.get_rendered_view();
    assert_eq!(view.data, vec![7; 36]);
}

#[test]
fn three_resting_circles_stay_put_for_one_tick() {
    let mut world = State::new(100, 100);
    world.add_circle(resting_circle(10, 10, 10, color(200, 0, 0)));
    world.add_circle(resting_circle(50, 50, 10, color(0, 200, 0)));
    world.add_circle(resting_circle(90, 90, 10, color(0, 0, 200)));
    assert_eq!(world.circles.len(), 3);

    assert!(world.can_progress());
    world.progress_one_step();

    let expected = [(10, 10), (50, 50), (90, 90)];
    for (i, (x, y)) in expected.iter().enumerate() {
        assert_eq!(world.circles[i].x_pos, x * 256);
        assert_eq!(world.circles[i].y_pos, y * 256);
        assert_eq!(world.circles[i].x_vel, 0);
        assert_eq!(world.circles[i].y_vel, 0);
    }

    let view = world.get_rendered_view();
    for (i, (x, y)) in expected.iter().enumerate() {
        let k = byte_index(100, *x, *y);
        let want: (u8, u8, u8) = match i {
            0 => (200, 0, 0),
            1 => (0, 200, 0),
            _ => (0, 0, 200),
        };
        assert_eq!((view.data[k], view.data[k + 1], view.data[k + 2]), want);
    }
    let empty = byte_index(100, 30, 70);
    assert_eq!(view.data[empty], 0);
    assert_eq!(view.data[empty + 1], 0);
    assert_eq!(view.data[empty + 2], 0);
}

#[test]
fn rendering_twice_without_mutation_is_byte_identical() {
    let mut world = State::new(100, 100);
    world.add_circle(resting_circle(33, 44, 12, color(120, 130, 140)));
    world.add_circle(resting_circle(70, 20, 8, color(10, 20, 30)));
    let first = world.get_rendered_view();
    let second = world.get_rendered_view();
    assert_eq!(first.data, second.data);
}

#[test]
fn a_bouncing_circle_never_escapes_the_world() {
    let mut world = State::new(100, 100);
    world.add_circle(Circle::new(
        String::from("bouncer"),
        50 * 256,
        50 * 256,
        300,
        -200,
        10 * 256,
        2 * 256,
        25600,
        color(9, 9, 9),
        color(1, 1, 1),
    ));
    for _ in 0..200 {
        assert!(world.can_progress());
        world.progress_one_step();
        let c = &world.circles[0];
        assert!(0 <= c.x_pos && c.x_pos <= 100 * 256);
        assert!(0 <= c.y_pos && c.y_pos <= 100 * 256);
    }
}

#[test]
fn random_circle_lands_at_the_pointer_with_documented_ranges() {
    let mut world = State::new(100, 100);
    world.add_random_circle_at_coords(50, 50);
    assert_eq!(world.circles.len(), 1);
    let c = &world.circles[0];
    assert_eq!(c.x_pos, 50 * 256);
    assert_eq!(c.y_pos, 50 * 256);
    assert!(-512 <= c.x_vel && c.x_vel < 512);
    assert!(-512 <= c.y_vel && c.y_vel < 512);
    assert!(15 * 256 <= c.radius && c.radius < 25 * 256);
    assert!(3 * 256 <= c.border_width && c.border_width < 12 * 256);
    let expected_mass = ((c.radius as i64) * (c.radius as i64) / 256) as i32;
    assert_eq!(c.mass, expected_mass);
}

#[test]
fn random_circle_is_rejected_on_top_of_an_existing_one() {
    let mut world = State::new(100, 100);
    world.add_circle(resting_circle(50, 50, 30, color(9, 9, 9)));
    world.add_random_circle_at_coords(50, 50);
    assert_eq!(world.circles.len(), 1);
}
