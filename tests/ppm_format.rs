use raytracer::ppm::{push_decimal, Ppm};

fn text(bytes: &[u8]) -> String {
    String::from_utf8(bytes.to_vec()).unwrap()
}

#[test]
fn decimal_of_zero_is_one_digit() {
    let mut out = Vec::new();
    push_decimal(&mut out, 0);
    assert_eq!(text(&out), "0");
}

#[test]
fn decimal_appends_after_existing_bytes() {
    let mut out = b"x=".to_vec();
    push_decimal(&mut out, 4096);
    assert_eq!(text(&out), "x=4096");
}

#[test]
fn decimal_of_largest_u32() {
    let mut out = Vec::new();
    push_decimal(&mut out, u32::MAX);
    assert_eq!(text(&out), "4294967295");
}

#[test]
fn header_of_default_image() {
    assert_eq!(text(&Ppm::header(400, 225)), "P3\n400 225\n255\n");
}

#[test]
fn header_of_empty_image() {
    assert_eq!(text(&Ppm::header(0, 0)), "P3\n0 0\n255\n");
}

#[test]
fn pixel_line_of_white() {
    assert_eq!(text(&Ppm::pixel_line(255, 255, 255)), "255 255 255\n");
}

#[test]
fn pixel_line_of_horizon_blend() {
    assert_eq!(text(&Ppm::pixel_line(128, 179, 255)), "128 179 255\n");
}

#[test]
fn pixel_line_of_black() {
    assert_eq!(text(&Ppm::pixel_line(0, 0, 0)), "0 0 0\n");
}

#[test]
fn encode_gives_header_then_pixels_in_order() {
    let pixels = vec![(255, 255, 255), (128, 179, 255), (0, 7, 42), (9, 10, 99)];
    let image = Ppm::encode(2, 2, &pixels);
    assert_eq!(
        text(&image),
        "P3\n2 2\n255\n255 255 255\n128 179 255\n0 7 42\n9 10 99\n"
    );
}

#[test]
fn encode_without_pixels_is_the_header() {
    assert_eq!(text(&Ppm::encode(0, 0, &Vec::new())), "P3\n0 0\n255\n");
}

#[test]
fn encoding_twice_gives_identical_bytes() {
    let pixels = vec![(1, 2, 3), (250, 100, 0)];
    assert_eq!(Ppm::encode(2, 1, &pixels), Ppm::encode(2, 1, &pixels));
}
