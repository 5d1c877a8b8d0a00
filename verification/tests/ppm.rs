use raytracer::ppm::header;
use raytracer::ppm::pixel_at;
use raytracer::ppm::pixel_line;
use raytracer::ppm::push_decimal;
use raytracer::ppm::quantize;
use raytracer::ppm::MAX_VALUE;
use raytracer::scalar::Scalar;

fn s(x: f32) -> Scalar {
    Scalar::from_bits(x.to_bits())
}

#[test]
fn the_header_names_the_format_the_sizes_and_the_largest_value() {
    assert_eq!(header(600, 300), b"P3\n600 300\n255\n".to_vec());
    assert_eq!(header(2, 1), b"P3\n2 1\n255\n".to_vec());
    assert_eq!(header(0, 0), b"P3\n0 0\n255\n".to_vec());
    assert_eq!(MAX_VALUE, 255);
}

#[test]
fn a_pixel_is_a_line_of_three_numerals() {
    assert_eq!(pixel_line(0, 128, 255), b"0 128 255\n".to_vec());
    assert_eq!(pixel_line(7, 70, 9), b"7 70 9\n".to_vec());
    assert_eq!(pixel_line(-5, 1000, 10), b"-5 1000 10\n".to_vec());
}

#[test]
fn numerals_agree_with_the_formatting_of_the_language() {
    let samples =
        [0, 1, 9, 10, 11, 99, 100, 101, 255, 256, 1000, 65_535, 1_000_000, i32::MAX, -1, -10, -255, i32::MIN];
    for n in samples {
        let mut out = Vec::new();
        push_decimal(&mut out, n);
        assert_eq!(out, format!("{}", n).into_bytes());
    }
}

#[test]
fn push_decimal_appends_to_what_is_there() {
    let mut out = b"x=".to_vec();
    push_decimal(&mut out, 42);
    push_decimal(&mut out, -7);
    assert_eq!(out, b"x=42-7".to_vec());
}

#[test]
fn channels_are_cut_to_their_whole_part() {
    assert_eq!(quantize(s(255.999 * 1.0), s(255.999 * 0.5), s(0.0)), (255, 127, 0));
    assert_eq!(quantize(s(0.999), s(1.0), s(254.999_98)), (0, 1, 254));
    assert_eq!(quantize(s(300.7), s(-3.5), s(f32::NAN)), (300, -3, 0));
}

#[test]
fn lines_run_from_the_top_row_down_and_from_left_to_right() {
    assert_eq!(pixel_at(0, 600, 300), (0, 299));
    assert_eq!(pixel_at(599, 600, 300), (599, 299));
    assert_eq!(pixel_at(600, 600, 300), (0, 298));
    assert_eq!(pixel_at(600 * 300 - 1, 600, 300), (599, 0));
    assert_eq!(pixel_at(0, 2, 1), (0, 0));
    assert_eq!(pixel_at(1, 2, 1), (1, 0));
}

#[test]
fn the_lines_visit_the_pixels_as_two_nested_loops_do() {
    let (width, height) = (7u32, 5u32);
    let mut k = 0;
    for j in (0..height).rev() {
        for i in 0..width {
            assert_eq!(pixel_at(k, width, height), (i, j));
            k += 1;
        }
    }
    assert_eq!(k, width * height);
}
