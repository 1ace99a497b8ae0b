use raytracer::image::{bands, Band, Resolution};
use raytracer::ppm::{ppm, Rgb8};

fn band(first_row: usize, rows: usize, start: usize, len: usize) -> Band {
    Band { first_row, rows, start, len }
}

#[test]
fn resolution_of_addressable_size() {
    let res = Resolution::new(1200, 800).unwrap();
    assert_eq!(res.width, 1200);
    assert_eq!(res.height, 800);
    assert_eq!(res.pixel_count(), 960_000);
}

#[test]
fn resolution_too_large_is_refused() {
    assert_eq!(Resolution::new(usize::MAX, 2), None);
    assert!(Resolution::new(usize::MAX, 1).is_some());
}

#[test]
fn pixel_index_is_row_major_from_bottom() {
    let res = Resolution::new(4, 3).unwrap();
    assert_eq!(res.pixel_index(0, 0), 0);
    assert_eq!(res.pixel_index(3, 0), 3);
    assert_eq!(res.pixel_index(1, 2), 9);
}

#[test]
fn one_row_per_band() {
    let res = Resolution::new(3, 4).unwrap();
    assert_eq!(
        bands(res, 1),
        vec![band(0, 1, 0, 3), band(1, 1, 3, 3), band(2, 1, 6, 3), band(3, 1, 9, 3)]
    );
}

#[test]
fn last_band_takes_what_is_left() {
    let res = Resolution::new(3, 5).unwrap();
    assert_eq!(bands(res, 2), vec![band(0, 2, 0, 6), band(2, 2, 6, 6), band(4, 1, 12, 3)]);
}

#[test]
fn bands_larger_than_image() {
    let res = Resolution::new(2, 3).unwrap();
    assert_eq!(bands(res, 10), vec![band(0, 3, 0, 6)]);
}

#[test]
fn empty_image_has_no_bands() {
    let res = Resolution::new(5, 0).unwrap();
    assert_eq!(bands(res, 3), vec![]);
}

#[test]
fn bands_cover_buffer_exactly_once() {
    let res = Resolution::new(7, 11).unwrap();
    let bs = bands(res, 3);
    let mut seen = vec![0u32; res.pixel_count()];
    for b in &bs {
        for i in b.start..b.start + b.len {
            seen[i] += 1;
        }
    }
    assert!(seen.iter().all(|&n| n == 1));
}

#[test]
fn ppm_header_and_rows_top_down() {
    let res = Resolution::new(2, 2).unwrap();
    let black = Rgb8 { r: 0, g: 0, b: 0 };
    let white = Rgb8 { r: 255, g: 255, b: 255 };
    let sky = Rgb8 { r: 128, g: 179, b: 255 };
    let red = Rgb8 { r: 200, g: 7, b: 30 };
    // bottom row first in the buffer
    let pixels = vec![black, white, sky, red];
    let text = String::from_utf8(ppm(res, &pixels)).unwrap();
    assert_eq!(
        text,
        "P3\n2 2\n255\n128 179 255\n200 7 30\n0 0 0\n255 255 255\n"
    );
}

#[test]
fn ppm_of_wide_image() {
    let res = Resolution::new(12, 1).unwrap();
    let pixels: Vec<Rgb8> = (0..12u8).map(|i| Rgb8 { r: i, g: i * 10, b: 100 + i }).collect();
    let text = String::from_utf8(ppm(res, &pixels)).unwrap();
    let lines: Vec<&str> = text.lines().collect();
    assert_eq!(lines[0], "P3");
    assert_eq!(lines[1], "12 1");
    assert_eq!(lines[2], "255");
    assert_eq!(lines.len(), 15);
    assert_eq!(lines[3], "0 0 100");
    assert_eq!(lines[14], "11 110 111");
}

#[test]
fn ppm_of_empty_image_is_header_only() {
    let res = Resolution::new(0, 0).unwrap();
    let text = String::from_utf8(ppm(res, &vec![])).unwrap();
    assert_eq!(text, "P3\n0 0\n255\n");
}
