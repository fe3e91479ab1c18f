use floating_objects::Circle;
use floating_objects::RGBCanvas;
use floating_objects::RGBColor;

fn byte_index(width: i32, x: i32, y: i32) -> usize {
    (3 * (width * y + x)) as usize
}

fn pixel(canvas: &RGBCanvas, x: i32, y: i32) -> (u8, u8, u8) {
    let k = byte_index(canvas.width, x, y);
    (canvas.data[k], canvas.data[k + 1], canvas.data[k + 2])
}

fn test_circle() -> Circle {
    // Center at pixel (100, 100), radius 10 pixels, border 2 pixels, so the
    // inner radius is 8 pixels (2048 subunits).
    Circle::new(
        String::from("bands"),
        100 * 256,
        100 * 256,
        0,
        0,
        10 * 256,
        2 * 256,
        256,
        RGBColor { r: 200, g: 10, b: 20 },
        RGBColor { r: 100, g: 30, b: 40 },
    )
}

#[test]
fn canvas_starts_black_with_three_bytes_per_pixel() {
    let canvas = RGBCanvas::new(4, 3);
    assert_eq!(canvas.data.len(), 36);
    assert!(canvas.data.iter().all(|&b| b == 0));
}

#[test]
fn write_pixel_sets_exactly_one_pixel() {
    let mut canvas = RGBCanvas::new(4, 3);
    canvas.write_pixel(1, 2, RGBColor { r: 9, g: 8, b: 7 });
    assert_eq!(pixel(&canvas, 1, 2), (9, 8, 7));
    assert_eq!(canvas.data.iter().map(|&b| b as u32).sum::<u32>(), 24);
}

#[test]
fn write_pixel_outside_the_canvas_is_a_no_op() {
    let mut canvas = RGBCanvas::new(4, 3);
    canvas.write_pixel(4, 0, RGBColor { r: 9, g: 8, b: 7 });
    canvas.write_pixel(0, 3, RGBColor { r: 9, g: 8, b: 7 });
    canvas.write_pixel(-1, 1, RGBColor { r: 9, g: 8, b: 7 });
    assert!(canvas.data.iter().all(|&b| b == 0));
}

#[test]
fn copy_duplicates_the_buffer() {
    let mut canvas = RGBCanvas::new(4, 3);
    canvas.write_pixel(2, 1, RGBColor { r: 1, g: 2, b: 3 });
    let duplicate = canvas.copy();
    assert_eq!(duplicate.width, 4);
    assert_eq!(duplicate.height, 3);
    assert_eq!(duplicate.data, canvas.data);
    // The duplicate is independent of the original.
    canvas.write_pixel(0, 0, RGBColor { r: 5, g: 5, b: 5 });
    assert_eq!(pixel(&duplicate, 0, 0), (0, 0, 0));
}

#[test]
fn pixels_within_the_inner_radius_take_the_fill_color() {
    let mut canvas = RGBCanvas::new(200, 200);
    test_circle().put_on_canvas_smoothed(&mut canvas);
    assert_eq!(pixel(&canvas, 100, 100), (200, 10, 20));
    // Distance exactly the inner radius still counts as fill.
    assert_eq!(pixel(&canvas, 108, 100), (200, 10, 20));
}

#[test]
fn fill_to_border_blend_truncates_the_linear_formula() {
    let mut canvas = RGBCanvas::new(200, 200);
    test_circle().put_on_canvas_smoothed(&mut canvas);
    // Pixel (106, 106): distance sqrt(2) * 6 pixels from the center, 2172
    // subunits; blend factor 124/256 between fill and border:
    // r = (200*132 + 100*124) / 256 = 151, and likewise 19 and 29.
    assert_eq!(pixel(&canvas, 106, 106), (151, 19, 29));
    // One pixel past the inner radius the factor reaches one: pure border.
    assert_eq!(pixel(&canvas, 109, 100), (100, 30, 40));
}

#[test]
fn border_band_takes_the_border_color() {
    let mut canvas = RGBCanvas::new(200, 200);
    test_circle().put_on_canvas_smoothed(&mut canvas);
    assert_eq!(pixel(&canvas, 106, 107), (100, 30, 40));
    // Distance exactly the radius still counts as border.
    assert_eq!(pixel(&canvas, 110, 100), (100, 30, 40));
}

#[test]
fn rim_blends_border_into_existing_canvas_content() {
    let mut canvas = RGBCanvas::new(200, 200);
    test_circle().put_on_canvas_smoothed(&mut canvas);
    // Pixel (110, 101): distance 2572 subunits, 12 past the radius; the
    // border blends into the black background with factor 12/256:
    // r = (100*244 + 0*12) / 256 = 95, and likewise 28 and 38.
    assert_eq!(pixel(&canvas, 110, 101), (95, 28, 38));
}

#[test]
fn pixels_beyond_the_rim_are_untouched() {
    let mut canvas = RGBCanvas::new(200, 200);
    test_circle().put_on_canvas_smoothed(&mut canvas);
    assert_eq!(pixel(&canvas, 150, 150), (0, 0, 0));
    assert_eq!(pixel(&canvas, 100, 88), (0, 0, 0));
}

#[test]
fn later_circles_paint_over_earlier_ones() {
    let mut canvas = RGBCanvas::new(200, 200);
    test_circle().put_on_canvas_smoothed(&mut canvas);
    let over = Circle::new(
        String::from("over"),
        100 * 256,
        100 * 256,
        0,
        0,
        5 * 256,
        256,
        256,
        RGBColor { r: 1, g: 2, b: 3 },
        RGBColor { r: 4, g: 5, b: 6 },
    );
    over.put_on_canvas_smoothed(&mut canvas);
    assert_eq!(pixel(&canvas, 100, 100), (1, 2, 3));
    // The first circle's border ring is still visible outside the second.
    assert_eq!(pixel(&canvas, 110, 100), (100, 30, 40));
}

#[test]
fn circle_far_off_the_canvas_paints_nothing() {
    let mut canvas = RGBCanvas::new(200, 200);
    let far = Circle::new(
        String::from("far"),
        500 * 256,
        500 * 256,
        0,
        0,
        10 * 256,
        2 * 256,
        256,
        RGBColor { r: 200, g: 10, b: 20 },
        RGBColor { r: 100, g: 30, b: 40 },
    );
    far.put_on_canvas_smoothed(&mut canvas);
    assert!(canvas.data.iter().all(|&b| b == 0));
}
