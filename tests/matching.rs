use pixelmatch::{color_delta, gray_pixel, has_many_siblings, is_antialiased, match_pixel};
use pixelmatch::{Error, Image, Pixel};

fn px(r: u8, g: u8, b: u8, a: u8) -> Pixel {
    Pixel::new(r, g, b, a)
}

fn black() -> Pixel {
    px(0, 0, 0, 255)
}

fn white() -> Pixel {
    px(255, 255, 255, 255)
}

fn red() -> Pixel {
    px(255, 0, 0, 255)
}

fn yellow() -> Pixel {
    px(255, 255, 0, 255)
}

fn dim_black() -> Pixel {
    px(229, 229, 229, 255)
}

fn filled(width: u32, height: u32, p: Pixel) -> Image {
    Image::from_pixels(width, height, vec![p; (width * height) as usize]).unwrap()
}


#[test]
fn one_white_pixel_is_a_difference() {
    let before = filled(2, 2, black());
    let mut after = filled(2, 2, black());
    after.put_pixel(1, 1, white());
    let mut out = Image::new(2, 2);
    let diff = match_pixel(&before, &after, &mut out, 100_000, false).unwrap();
    assert_eq!(diff, 1);
    assert_eq!(out.get_pixel(1, 1), red());
    assert_eq!(out.get_pixel(0, 0), dim_black());
    assert_eq!(out.get_pixel(1, 0), dim_black());
    assert_eq!(out.get_pixel(0, 1), dim_black());
}

#[test]
fn full_threshold_suppresses_the_difference() {
    let before = filled(2, 2, black());
    let mut after = filled(2, 2, black());
    after.put_pixel(1, 1, white());
    let mut out = Image::new(2, 2);
    let diff = match_pixel(&before, &after, &mut out, 1_000_000, false).unwrap();
    assert_eq!(diff, 0);
    assert_eq!(out.get_pixel(1, 1), dim_black());
}

#[test]
fn transparent_pixel_blends_to_white() {
    let mut before = filled(2, 2, white());
    before.put_pixel(0, 1, px(10, 20, 30, 0));
    let after = filled(2, 2, white());
    assert_eq!(color_delta(px(10, 20, 30, 0), white(), false), 0);
    let mut out = Image::new(2, 2);
    assert_eq!(match_pixel(&before, &after, &mut out, 100_000, false).unwrap(), 0);

    let dark = filled(2, 2, black());
    let mut out = Image::new(2, 2);
    assert_eq!(match_pixel(&before, &dark, &mut out, 100_000, false).unwrap(), 4);
}

#[test]
fn half_transparent_black_is_mid_grey() {
    assert_eq!(color_delta(px(0, 0, 0, 128), px(127, 127, 127, 255), false), 0);
    assert!(color_delta(px(0, 0, 0, 128), px(128, 128, 128, 255), false) > 0);
}

#[test]
fn size_mismatch_is_refused_before_drawing() {
    let before = filled(2, 2, black());
    let after = filled(3, 2, black());
    let mut out = filled(2, 2, white());
    let r = match_pixel(&before, &after, &mut out, 100_000, false);
    assert_eq!(r, Err(Error::SizeUnmatch { before: (2, 2), after: (3, 2) }));
    for y in 0..2 {
        for x in 0..2 {
            assert_eq!(out.get_pixel(x, y), white());
        }
    }
}

#[test]
fn identical_images_match() {
    let mut img = filled(4, 3, px(200, 10, 90, 255));
    img.put_pixel(2, 1, px(0, 0, 0, 255));
    let mut out = Image::new(4, 3);
    assert_eq!(match_pixel(&img, &img, &mut out, 0, false).unwrap(), 0);
    for y in 0..3 {
        for x in 0..4 {
            let v = gray_pixel(img.get_pixel(x, y));
            assert_eq!(out.get_pixel(x, y), px(v, v, v, 255));
        }
    }
}

#[test]
fn border_is_never_antialiased() {
    let img = filled(3, 3, black());
    for (x, y) in [(0, 0), (1, 0), (2, 1), (1, 2), (0, 2)] {
        assert!(!is_antialiased(&img, &img, x, y));
    }
    assert!(is_antialiased(&img, &img, 1, 1));
}

#[test]
fn uniform_darker_neighbours_are_not_antialiased() {
    let black = filled(3, 3, black());
    let white = filled(3, 3, white());
    assert!(!is_antialiased(&black, &white, 1, 1));
    assert!(!is_antialiased(&white, &black, 1, 1));
}

#[test]
fn antialiased_pixel_is_drawn_yellow() {
    let before = filled(3, 3, black());
    let mut after = filled(3, 3, black());
    after.put_pixel(1, 1, white());
    let mut out = Image::new(3, 3);
    assert_eq!(match_pixel(&before, &after, &mut out, 100_000, false).unwrap(), 0);
    assert_eq!(out.get_pixel(1, 1), yellow());
    let mut out = Image::new(3, 3);
    assert_eq!(match_pixel(&before, &after, &mut out, 100_000, true).unwrap(), 1);
    assert_eq!(out.get_pixel(1, 1), red());
}

#[test]
fn siblings_need_more_than_two_equal_neighbours() {
    let img = filled(3, 3, black());
    assert!(has_many_siblings(&img, 1, 1));
    assert!(!has_many_siblings(&img, 0, 1));
    let mut lone = filled(3, 3, white());
    lone.put_pixel(1, 1, black());
    lone.put_pixel(0, 0, black());
    lone.put_pixel(2, 2, black());
    assert!(!has_many_siblings(&lone, 1, 1));
    lone.put_pixel(2, 0, black());
    assert!(has_many_siblings(&lone, 1, 1));
}

#[test]
fn delta_exact_values() {
    assert_eq!(color_delta(white(), black(), true), 25_500_000_255);
    assert_eq!(color_delta(black(), white(), true), -25_500_000_255);
    assert_eq!(color_delta(white(), black(), false), 3_285_713_315_714_265_328_571_325);
    assert_eq!(color_delta(px(7, 7, 7, 255), px(7, 7, 7, 255), true), 0);
}

#[test]
fn delta_symmetry() {
    let a = px(12, 200, 45, 255);
    let b = px(90, 3, 250, 100);
    assert_eq!(color_delta(a, b, false), color_delta(b, a, false));
    assert_eq!(color_delta(a, b, true), -color_delta(b, a, true));
    assert!(color_delta(a, b, false) > 0);
}

#[test]
fn gray_levels() {
    assert_eq!(gray_pixel(black()), 229);
    assert_eq!(gray_pixel(white()), 255);
    assert_eq!(gray_pixel(px(0, 0, 0, 0)), 255);
}

#[test]
fn higher_threshold_counts_fewer() {
    let before = filled(3, 1, black());
    let after = Image::from_pixels(3, 1, vec![px(20, 20, 20, 255), px(120, 120, 120, 255), white()]).unwrap();
    let mut counts = Vec::new();
    for t in [0u32, 100_000, 500_000, 1_000_000] {
        let mut out = Image::new(3, 1);
        counts.push(match_pixel(&before, &after, &mut out, t, false).unwrap());
    }
    assert_eq!(counts, vec![3, 2, 1, 0]);
}

#[test]
fn image_construction() {
    assert!(Image::from_pixels(2, 2, vec![black(); 3]).is_none());
    let img = Image::new(2, 3);
    assert_eq!((img.width(), img.height()), (2, 3));
    assert_eq!(img.get_pixel(1, 2), px(0, 0, 0, 0));
}
