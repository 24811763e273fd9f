use raytracer::formats;
use raytracer::ppm::{Pixel, PPM};

#[test]
fn pixel_text_separates_channels_by_spaces() {
    assert_eq!(Pixel::new(255, 0, 7).to_string(), "255 0 7");
    assert_eq!(Pixel::new(10, 99, 100).to_string(), "10 99 100");
}

#[test]
fn pixel_new_keeps_channels() {
    let p = Pixel::new(1, 2, 3);
    assert_eq!((p.r, p.g, p.b), (1, 2, 3));
}

#[test]
fn new_pixmap_is_white() {
    let img = PPM::new(2, 1);
    assert_eq!(img.get_dimensions(), (2, 1));
    assert_eq!(img.to_string(), "P3\n2 1\n255\n255 255 255\n255 255 255");
}

#[test]
fn empty_pixmap_is_header_only() {
    assert_eq!(PPM::new(0, 0).to_string(), "P3\n0 0\n255");
    assert_eq!(PPM::new(3, 0).to_string(), "P3\n3 0\n255");
}

#[test]
fn set_hands_back_previous_pixel() {
    let mut img = PPM::new(3, 2);
    let red = Pixel::new(255, 0, 0);
    assert_eq!(img.set(2, 1, red), Ok(Pixel::new(255, 255, 255)));
    assert_eq!(img.set(2, 1, Pixel::new(0, 0, 0)), Ok(red));
}

#[test]
fn set_outside_reports_place_and_size() {
    let mut img = PPM::new(2, 1);
    assert_eq!(
        img.set(2, 0, Pixel::new(0, 0, 0)),
        Err(String::from("set(2, 0) out of bounds for 2x1 image"))
    );
    assert_eq!(
        img.set(0, 1, Pixel::new(0, 0, 0)),
        Err(String::from("set(0, 1) out of bounds for 2x1 image"))
    );
    assert_eq!(img.to_string(), PPM::new(2, 1).to_string());
}

#[test]
fn pixels_are_written_row_by_row() {
    let mut img = PPM::new(2, 2);
    assert!(img.set(0, 0, Pixel::new(0, 0, 0)).is_ok());
    assert!(img.set(1, 0, Pixel::new(1, 1, 1)).is_ok());
    assert!(img.set(0, 1, Pixel::new(2, 2, 2)).is_ok());
    assert!(img.set(1, 1, Pixel::new(3, 3, 3)).is_ok());
    assert_eq!(img.to_string(), "P3\n2 2\n255\n0 0 0\n1 1 1\n2 2 2\n3 3 3");
}

#[test]
fn large_dimensions_in_header() {
    let img = formats::PPM::new(1000, 1);
    assert_eq!(img.get_dimensions(), (1000, 1));
    assert!(img.to_string().starts_with("P3\n1000 1\n255\n255 255 255\n"));
    let p = formats::Pixel::new(0, 100, 200);
    assert_eq!(p.to_string(), "0 100 200");
}

#[test]
fn decimal_text_of_edge_values() {
    for (n, text) in [(0u32, "0"), (9, "9"), (10, "10"), (255, "255"), (65535, "65535"), (u32::MAX, "4294967295")] {
        let mut s = String::from("x=");
        raytracer::decimal::push_decimal(&mut s, n);
        assert_eq!(s, format!("x={}", text));
    }
}
