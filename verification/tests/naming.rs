use mandelbrot_animation::naming::{
    decimal_len, frame_file_name, mux_hint, progress_line, push_decimal, push_zero_padded,
};

#[test]
fn first_frame_file_name() {
    assert_eq!(frame_file_name(0), "frame_000000.png");
}

#[test]
fn frame_file_name_pads_to_six_digits() {
    assert_eq!(frame_file_name(7), "frame_000007.png");
    assert_eq!(frame_file_name(42), "frame_000042.png");
    assert_eq!(frame_file_name(299), "frame_000299.png");
    assert_eq!(frame_file_name(123_456), "frame_123456.png");
    assert_eq!(frame_file_name(999_999), "frame_999999.png");
}

#[test]
fn frame_file_name_grows_past_six_digits() {
    assert_eq!(frame_file_name(1_000_000), "frame_1000000.png");
    assert_eq!(frame_file_name(u32::MAX), "frame_4294967295.png");
}

#[test]
fn frame_file_name_agrees_with_std_formatting() {
    for k in [0u32, 1, 9, 10, 99, 100, 1_000, 99_999, 100_000, 1_234_567, 4_000_000_000] {
        assert_eq!(frame_file_name(k), format!("frame_{:06}.png", k));
    }
}

#[test]
fn frame_file_names_differ() {
    assert_ne!(frame_file_name(1), frame_file_name(10));
    assert_ne!(frame_file_name(100_000), frame_file_name(1_000_000));
}

#[test]
fn push_decimal_appends_digits() {
    let mut text = String::from("n=");
    push_decimal(&mut text, 0);
    assert_eq!(text, "n=0");
    push_decimal(&mut text, 1905);
    assert_eq!(text, "n=01905");
    push_decimal(&mut text, u32::MAX);
    assert_eq!(text, "n=019054294967295");
}

#[test]
fn push_zero_padded_fills_on_the_left() {
    let mut text = String::new();
    push_zero_padded(&mut text, 5, 3);
    assert_eq!(text, "005");
    push_zero_padded(&mut text, 1234, 3);
    assert_eq!(text, "0051234");
    push_zero_padded(&mut text, 0, 0);
    assert_eq!(text, "00512340");
}

#[test]
fn decimal_len_counts_digits() {
    assert_eq!(decimal_len(0), 1);
    assert_eq!(decimal_len(9), 1);
    assert_eq!(decimal_len(10), 2);
    assert_eq!(decimal_len(999_999), 6);
    assert_eq!(decimal_len(1_000_000), 7);
    assert_eq!(decimal_len(999_999_999), 9);
    assert_eq!(decimal_len(1_000_000_000), 10);
    assert_eq!(decimal_len(u32::MAX), 10);
}

#[test]
fn decimal_digits_read_back_as_the_number() {
    for n in [0u32, 7, 10, 4096, 65_535, 1_000_000, u32::MAX] {
        let mut text = String::new();
        push_decimal(&mut text, n);
        assert_eq!(text.parse::<u32>().unwrap(), n);
        let mut padded = String::new();
        push_zero_padded(&mut padded, n, 6);
        assert!(padded.len() >= 6);
        assert_eq!(padded.parse::<u32>().unwrap(), n);
    }
}

#[test]
fn progress_line_counts_from_one() {
    assert_eq!(
        progress_line(0, 300, "out/frames/frame_000000.png"),
        "frame 1/300 -> out/frames/frame_000000.png"
    );
    assert_eq!(
        progress_line(299, 300, "out/frames/frame_000299.png"),
        "frame 300/300 -> out/frames/frame_000299.png"
    );
    assert_eq!(progress_line(0, 1, ""), "frame 1/1 -> ");
}

#[test]
fn mux_hint_names_rate_and_directory() {
    assert_eq!(
        mux_hint(30, "out/frames"),
        "ffmpeg -framerate 30 -i out/frames/frame_%06d.png -c:v libx264 -pix_fmt yuv420p out/mandelbrot.mp4"
    );
    assert_eq!(
        mux_hint(0, ""),
        "ffmpeg -framerate 0 -i /frame_%06d.png -c:v libx264 -pix_fmt yuv420p out/mandelbrot.mp4"
    );
}
