use mandelbrot_animation::color::Color;
use mandelbrot_animation::layout::{frame_len, pixel_coords, pixel_index};
use mandelbrot_animation::raster::Frame;
use mandelbrot_animation::render::render_frame;

fn pattern(x: u32, y: u32) -> Color {
    Color { r: (x * 10) as u8, g: (y * 10) as u8, b: ((x + y) % 2) as u8 }
}

#[test]
fn frame_len_is_three_bytes_per_pixel() {
    assert_eq!(frame_len(1920, 1080), Some(6_220_800));
    assert_eq!(frame_len(16, 16), Some(768));
    assert_eq!(frame_len(1, 1), Some(3));
}

#[test]
fn frame_len_of_empty_frame_is_zero() {
    assert_eq!(frame_len(0, 1080), Some(0));
    assert_eq!(frame_len(1920, 0), Some(0));
}

#[test]
fn frame_len_refuses_what_no_vector_holds() {
    // 3 * (2^32 - 1)^2 is more than any signed word of 64 bits or fewer.
    assert_eq!(frame_len(u32::MAX, u32::MAX), None);
}

#[test]
fn pixel_coords_walk_rows_from_the_left() {
    assert_eq!(pixel_coords(0, 4), (0, 0));
    assert_eq!(pixel_coords(3, 4), (3, 0));
    assert_eq!(pixel_coords(4, 4), (0, 1));
    assert_eq!(pixel_coords(11, 4), (3, 2));
    assert_eq!(pixel_coords(5, 1), (0, 5));
}

#[test]
fn pixel_index_undoes_pixel_coords() {
    let width: u32 = 7;
    for idx in 0..(7 * 5) {
        let (x, y) = pixel_coords(idx, width);
        assert!(x < width);
        assert_eq!(pixel_index(x, y, width), idx);
    }
    assert_eq!(pixel_index(3, 2, 4), 11);
}

#[test]
fn blank_frame_is_black_and_sized() {
    let frame = Frame::blank(3, 2);
    assert_eq!(frame.width(), 3);
    assert_eq!(frame.height(), 2);
    assert_eq!(frame.into_bytes(), vec![0u8; 18]);
}

#[test]
fn blank_frame_without_pixels_is_empty() {
    let frame = Frame::blank(0, 5);
    assert_eq!(frame.width(), 0);
    assert_eq!(frame.height(), 5);
    assert_eq!(frame.into_bytes(), Vec::<u8>::new());
}

#[test]
fn put_pixel_sets_three_bytes_in_place() {
    let mut frame = Frame::blank(3, 2);
    frame.put_pixel(1, 1, Color { r: 9, g: 8, b: 7 });
    frame.put_pixel(2, 0, Color { r: 1, g: 2, b: 3 });
    assert_eq!(frame.width(), 3);
    assert_eq!(frame.height(), 2);
    assert_eq!(
        frame.into_bytes(),
        vec![0, 0, 0, 0, 0, 0, 1, 2, 3, 0, 0, 0, 9, 8, 7, 0, 0, 0]
    );
}

#[test]
fn render_frame_has_three_bytes_per_pixel() {
    let frame = render_frame(16, 9, pattern);
    assert_eq!(frame.width(), 16);
    assert_eq!(frame.height(), 9);
    assert_eq!(frame.into_bytes().len(), 3 * 16 * 9);
}

#[test]
fn render_frame_lays_rows_out_from_the_top() {
    let bytes = render_frame(3, 2, pattern).into_bytes();
    assert_eq!(
        bytes,
        vec![0, 0, 0, 10, 0, 1, 20, 0, 0, 0, 10, 1, 10, 10, 0, 20, 10, 1]
    );
}

#[test]
fn render_frame_does_not_flip_the_vertical_axis() {
    let bytes = render_frame(1, 3, |_x, y| Color { r: y as u8, g: 0, b: 0 }).into_bytes();
    assert_eq!(bytes, vec![0, 0, 0, 1, 0, 0, 2, 0, 0]);
}

#[test]
fn render_frame_of_no_pixels_is_empty() {
    let frame = render_frame(0, 4, pattern);
    assert_eq!(frame.width(), 0);
    assert_eq!(frame.height(), 4);
    assert!(frame.into_bytes().is_empty());
}

#[test]
fn render_frame_twice_gives_identical_buffers() {
    let first = render_frame(16, 16, pattern).into_bytes();
    let second = render_frame(16, 16, pattern).into_bytes();
    assert_eq!(first.len(), 768);
    assert_eq!(first, second);
}

#[test]
fn render_frame_asks_for_each_pixel_once_by_its_place() {
    let width: u32 = 5;
    let height: u32 = 4;
    let bytes = render_frame(width, height, |x, y| Color { r: x as u8, g: y as u8, b: 255 })
        .into_bytes();
    for y in 0..height {
        for x in 0..width {
            let at = 3 * pixel_index(x, y, width);
            assert_eq!(bytes[at], x as u8);
            assert_eq!(bytes[at + 1], y as u8);
            assert_eq!(bytes[at + 2], 255);
        }
    }
}
