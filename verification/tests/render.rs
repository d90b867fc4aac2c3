use wemoji_render::canvas::{draw_pictograph, Canvas};
use wemoji_render::compositor::draw_fetched_pictograph;

fn png_bytes(r: u8, g: u8, b: u8) -> Vec<u8> {
    let img = image::DynamicImage::ImageRgba8(image::RgbaImage::from_pixel(
        4,
        4,
        image::Rgba([r, g, b, 255]),
    ));
    let mut buf: Vec<u8> = Vec::new();
    img.write_to(&mut std::io::Cursor::new(&mut buf), image::ImageOutputFormat::Png)
        .unwrap();
    buf
}

fn blank_canvas() -> Canvas {
    Canvas::new(image::DynamicImage::new_rgb8(100, 100))
}

fn raw(canvas: Canvas) -> Vec<u8> {
    canvas.into_surface().to_rgba8().into_raw()
}

#[test]
fn pictograph_draws_a_square_and_advances_by_edge() {
    let mut canvas = blank_canvas();
    let bytes = png_bytes(255, 0, 0);
    let adv = draw_pictograph(&mut canvas, &bytes, 10, 5, 16);
    assert_eq!(adv, 16);
    let img = canvas.into_surface().to_rgba8();
    // The 4x4 source is stretched to a 16x16 square at (10, 5).
    assert_eq!(img.get_pixel(10, 5), &image::Rgba([255, 0, 0, 255]));
    assert_eq!(img.get_pixel(25, 20), &image::Rgba([255, 0, 0, 255]));
    // Outside the square the canvas keeps its background.
    assert_eq!(img.get_pixel(9, 5), &image::Rgba([0, 0, 0, 255]));
    assert_eq!(img.get_pixel(26, 5), &image::Rgba([0, 0, 0, 255]));
    assert_eq!(img.get_pixel(10, 4), &image::Rgba([0, 0, 0, 255]));
}

#[test]
fn corrupt_pictograph_is_skipped_silently() {
    let mut canvas = blank_canvas();
    let bytes: Vec<u8> = vec![1, 2, 3, 4, 5];
    let adv = draw_pictograph(&mut canvas, &bytes, 5, 0, 20);
    // Zero advance: a cursor that started at 5 stays at 5.
    assert_eq!(adv, 0);
    assert_eq!(raw(canvas), raw(blank_canvas()));
}

#[test]
fn skipped_token_leaves_later_positions_unchanged() {
    // Rendering [corrupt, valid] from x = 5 equals rendering [valid] alone:
    // the failed token neither paints nor moves the cursor.
    let corrupt: Vec<u8> = vec![0xFF, 0x00, 0xFF];
    let valid = png_bytes(0, 0, 255);

    let mut with_failure = blank_canvas();
    let adv0 = draw_pictograph(&mut with_failure, &corrupt, 5, 0, 16);
    let adv1 = draw_pictograph(&mut with_failure, &valid, 5 + adv0 as i64, 0, 16);

    let mut without = blank_canvas();
    let adv2 = draw_pictograph(&mut without, &valid, 5, 0, 16);

    assert_eq!(adv0, 0);
    assert_eq!(adv1, adv2);
    assert_eq!(raw(with_failure), raw(without));
}

#[test]
fn two_pictographs_composite_in_program_order() {
    // Painted at the same position, the later draw lands on top.
    let red = png_bytes(255, 0, 0);
    let green = png_bytes(0, 255, 0);
    let mut canvas = blank_canvas();
    draw_pictograph(&mut canvas, &red, 0, 0, 16);
    draw_pictograph(&mut canvas, &green, 0, 0, 16);
    let img = canvas.into_surface().to_rgba8();
    assert_eq!(img.get_pixel(0, 0), &image::Rgba([0, 255, 0, 255]));
}

#[test]
fn adjacent_pictographs_abut_without_overlap() {
    let red = png_bytes(255, 0, 0);
    let green = png_bytes(0, 255, 0);
    let mut canvas = blank_canvas();
    let mut x: i64 = 0;
    x += draw_pictograph(&mut canvas, &red, x, 0, 16) as i64;
    x += draw_pictograph(&mut canvas, &green, x, 0, 16) as i64;
    assert_eq!(x, 32);
    let img = canvas.into_surface().to_rgba8();
    assert_eq!(img.get_pixel(15, 0), &image::Rgba([255, 0, 0, 255]));
    assert_eq!(img.get_pixel(16, 0), &image::Rgba([0, 255, 0, 255]));
}

#[test]
fn fetch_failure_is_silent() {
    let mut canvas = blank_canvas();
    let (adv, _) = draw_fetched_pictograph(&mut canvas, None, 5, 5, 20);
    assert_eq!(adv, 0);
    assert_eq!(raw(canvas), raw(blank_canvas()));
}

#[test]
fn fetched_corrupt_bytes_are_silent() {
    let mut canvas = blank_canvas();
    let (adv, _) = draw_fetched_pictograph(&mut canvas, Some(vec![9, 9, 9]), 5, 5, 20);
    assert_eq!(adv, 0);
    assert_eq!(raw(canvas), raw(blank_canvas()));
}

#[test]
fn fetched_valid_bytes_composite_and_advance() {
    let mut canvas = blank_canvas();
    let (adv, _) = draw_fetched_pictograph(&mut canvas, Some(png_bytes(255, 255, 0)), 3, 2, 20);
    assert_eq!(adv, 20);
    let img = canvas.into_surface().to_rgba8();
    assert_eq!(img.get_pixel(3, 2), &image::Rgba([255, 255, 0, 255]));
    assert_eq!(img.get_pixel(22, 21), &image::Rgba([255, 255, 0, 255]));
    assert_eq!(img.get_pixel(23, 2), &image::Rgba([0, 0, 0, 255]));
}

#[test]
fn canvas_roundtrip_keeps_the_surface() {
    let canvas = Canvas::new(image::DynamicImage::new_rgb8(31, 17));
    let img = canvas.into_surface();
    assert_eq!(img.to_rgba8().dimensions(), (31, 17));
}
