use imgrow::compose::blit;
use imgrow::config::{parse_height, parse_spacing, Config, ConfigError, DEFAULT_SPACING};
use imgrow::decode::{decode, trimmed};
use imgrow::image_set::{ImageSet, LayoutError};
use imgrow::picture::{buffer_len, pixel_index, Picture};
use imgrow::resample::{fit_height, scaled_width, ResizeError};

fn solid(width: u32, height: u32, rgba: [u8; 4]) -> Picture {
    let mut data = Vec::new();
    for _ in 0..(width * height) {
        data.extend_from_slice(&rgba);
    }
    Picture::new(width, height, data).unwrap()
}

fn gradient(width: u32, height: u32) -> Picture {
    let mut data = Vec::new();
    for y in 0..height {
        for x in 0..width {
            data.extend_from_slice(&[x as u8, y as u8, (x + y) as u8, 255 - x as u8]);
        }
    }
    Picture::new(width, height, data).unwrap()
}

const RED: [u8; 4] = [255, 0, 0, 255];
const BLUE: [u8; 4] = [0, 0, 255, 255];
const CLEAR: [u8; 4] = [0, 0, 0, 0];

#[test]
fn red_and_blue_with_gap() {
    let set = ImageSet::new(vec![solid(10, 20, RED), solid(15, 5, BLUE)], 10).unwrap();
    assert_eq!((set.total_width, set.max_height), (35, 20));
    let out = set.compose();
    assert_eq!((out.width, out.height), (35, 20));
    for y in 0..20 {
        for x in 0..35 {
            let expected = if x < 10 {
                RED
            } else if x < 20 {
                CLEAR
            } else if y < 5 {
                BLUE
            } else {
                CLEAR
            };
            assert_eq!(out.pixel(x, y), expected, "pixel ({}, {})", x, y);
        }
    }
}

#[test]
fn single_picture_passes_through() {
    let input = gradient(50, 50);
    let set = ImageSet::new(vec![input.clone()], 77).unwrap();
    assert_eq!((set.total_width, set.max_height), (50, 50));
    let out = fit_height(set.compose(), None).unwrap();
    assert_eq!((out.width, out.height), (50, 50));
    assert_eq!(out.data, input.data);
}

#[test]
fn resize_halves_strip() {
    let set = ImageSet::new(vec![gradient(100, 50), gradient(100, 100)], 0).unwrap();
    assert_eq!((set.total_width, set.max_height), (200, 100));
    let canvas = set.compose();
    let out = fit_height(canvas, Some(50)).unwrap();
    assert_eq!((out.width, out.height), (100, 50));
    assert_eq!(out.data.len(), 100 * 50 * 4);
}

#[test]
fn resize_keeps_solid_colour() {
    let canvas = solid(8, 4, RED);
    let out = fit_height(canvas, Some(2)).unwrap();
    assert_eq!((out.width, out.height), (4, 2));
    for y in 0..2 {
        for x in 0..4 {
            assert_eq!(out.pixel(x, y), RED);
        }
    }
}

#[test]
fn resize_to_same_height_is_identity() {
    let canvas = gradient(7, 3);
    let out = fit_height(canvas.clone(), Some(3)).unwrap();
    assert_eq!((out.width, out.height), (7, 3));
    assert_eq!(out.data, canvas.data);
}

#[test]
fn resize_of_empty_canvas_fails() {
    let canvas = Picture::new(5, 0, Vec::new()).unwrap();
    assert_eq!(fit_height(canvas, Some(10)).unwrap_err(), ResizeError::ZeroHeight);
}

#[test]
fn resize_beyond_u32_fails() {
    let canvas = Picture::new(u32::MAX, 1, Vec::new());
    assert!(canvas.is_none());
    assert_eq!(scaled_width(u32::MAX, 1, 2), None);
}

#[test]
fn resize_with_width_beyond_u32_fails() {
    let canvas = solid(2, 1, RED);
    assert_eq!(fit_height(canvas, Some(u32::MAX)).unwrap_err(), ResizeError::TooLarge);
}

#[test]
fn resize_with_buffer_beyond_memory_fails() {
    let canvas = solid(1, 1, RED);
    assert_eq!(fit_height(canvas, Some(u32::MAX)).unwrap_err(), ResizeError::TooLarge);
}

#[test]
fn resize_of_very_wide_canvas_fails() {
    let canvas = solid(1 << 20, 1, RED);
    assert_eq!(fit_height(canvas, Some(2)).unwrap_err(), ResizeError::TooLarge);
    let canvas = solid((1 << 20) - 1, 1, RED);
    assert_eq!(scaled_width((1 << 20) - 1, 1, 2), Some((1 << 21) - 2));
    assert_eq!(fit_height(canvas, Some(2)).unwrap_err(), ResizeError::TooLarge);
}

#[test]
fn trimmed_keeps_pixel_bytes() {
    let p = Picture { width: 2, height: 1, data: vec![1, 2, 3, 4, 5, 6, 7, 8, 9, 10] };
    let t = trimmed(p);
    assert_eq!((t.width, t.height), (2, 1));
    assert_eq!(t.data, vec![1, 2, 3, 4, 5, 6, 7, 8]);
}

#[test]
fn scaled_width_rounds_to_nearest() {
    assert_eq!(scaled_width(200, 100, 50), Some(100));
    assert_eq!(scaled_width(3, 2, 1), Some(2));
    assert_eq!(scaled_width(10, 3, 1), Some(3));
    assert_eq!(scaled_width(10, 3, 2), Some(7));
    assert_eq!(scaled_width(0, 9, 4), Some(0));
}

#[test]
fn spacing_not_a_number() {
    assert_eq!(parse_spacing(Some("abc")), Err(ConfigError::InvalidSpacing));
    let r = Config::from_args(vec!["a.png".to_string()], "o.png".to_string(), Some("abc"), None);
    assert_eq!(r.err(), Some(ConfigError::InvalidSpacing));
}

#[test]
fn spacing_values() {
    assert_eq!(parse_spacing(None), Ok(DEFAULT_SPACING));
    assert_eq!(parse_spacing(Some("0")), Ok(0));
    assert_eq!(parse_spacing(Some("+12")), Ok(12));
    assert_eq!(parse_spacing(Some("4294967295")), Ok(u32::MAX));
    assert_eq!(parse_spacing(Some("4294967296")), Err(ConfigError::InvalidSpacing));
    assert_eq!(parse_spacing(Some("-1")), Err(ConfigError::InvalidSpacing));
    assert_eq!(parse_spacing(Some("")), Err(ConfigError::InvalidSpacing));
    assert_eq!(parse_spacing(Some("+")), Err(ConfigError::InvalidSpacing));
    assert_eq!(parse_spacing(Some("1 ")), Err(ConfigError::InvalidSpacing));
}

#[test]
fn height_values() {
    assert_eq!(parse_height(None), Ok(None));
    assert_eq!(parse_height(Some("50")), Ok(Some(50)));
    assert_eq!(parse_height(Some("+7")), Ok(Some(7)));
    assert_eq!(parse_height(Some("2147483647")), Ok(Some(2147483647)));
    assert_eq!(parse_height(Some("2147483648")), Err(ConfigError::InvalidHeight));
    assert_eq!(parse_height(Some("abc")), Err(ConfigError::InvalidHeight));
    assert_eq!(parse_height(Some("-")), Err(ConfigError::InvalidHeight));
    assert_eq!(parse_height(Some("0")), Err(ConfigError::NonPositiveHeight));
    assert_eq!(parse_height(Some("-5")), Err(ConfigError::NonPositiveHeight));
    assert_eq!(parse_height(Some("-2147483648")), Err(ConfigError::NonPositiveHeight));
    assert_eq!(parse_height(Some("-2147483649")), Err(ConfigError::InvalidHeight));
}

#[test]
fn config_checks_in_order() {
    let none: Vec<String> = Vec::new();
    assert_eq!(
        Config::from_args(none, "o.png".to_string(), Some("abc"), Some("x")).err(),
        Some(ConfigError::NoImages)
    );
    let one = vec!["a.png".to_string()];
    assert_eq!(
        Config::from_args(one.clone(), "o.png".to_string(), Some("3"), Some("x")).err(),
        Some(ConfigError::InvalidHeight)
    );
    let c = Config::from_args(one.clone(), "o.png".to_string(), None, Some("40")).unwrap();
    assert_eq!(c.input, one);
    assert_eq!(c.output, "o.png");
    assert_eq!(c.spacing, 10);
    assert_eq!(c.max_height, Some(40));
}

#[test]
fn width_is_sum_plus_gaps() {
    let set = ImageSet::new(vec![solid(3, 1, RED), solid(4, 2, RED), solid(5, 3, RED)], 2).unwrap();
    assert_eq!(set.total_width, 3 + 4 + 5 + 2 * 2);
    assert_eq!(set.max_height, 3);
}

#[test]
fn zero_sized_pictures_still_count() {
    let empty = Picture::new(0, 0, Vec::new()).unwrap();
    let tall = Picture::new(0, 9, Vec::new()).unwrap();
    let set = ImageSet::new(vec![empty, solid(2, 2, BLUE), tall], 3).unwrap();
    assert_eq!((set.total_width, set.max_height), (8, 9));
    let out = set.compose();
    assert_eq!(out.pixel(3, 0), BLUE);
    assert_eq!(out.pixel(4, 1), BLUE);
    assert_eq!(out.pixel(2, 0), CLEAR);
    assert_eq!(out.pixel(5, 0), CLEAR);
    assert_eq!(out.pixel(3, 8), CLEAR);
}

#[test]
fn placement_is_verbatim() {
    let a = gradient(4, 3);
    let b = gradient(6, 5);
    let set = ImageSet::new(vec![a.clone(), b.clone()], 1).unwrap();
    let out = set.compose();
    for y in 0..3 {
        for x in 0..4 {
            assert_eq!(out.pixel(x, y), a.pixel(x, y));
        }
    }
    for y in 0..5 {
        for x in 0..6 {
            assert_eq!(out.pixel(5 + x, y), b.pixel(x, y));
        }
    }
    for y in 3..5 {
        for x in 0..4 {
            assert_eq!(out.pixel(x, y), CLEAR);
        }
    }
    for y in 0..5 {
        assert_eq!(out.pixel(4, y), CLEAR);
    }
}

#[test]
fn alpha_is_copied_not_blended() {
    let half = solid(2, 2, [10, 20, 30, 128]);
    let out = ImageSet::new(vec![half], 0).unwrap().compose();
    assert_eq!(out.pixel(1, 1), [10, 20, 30, 128]);
}

#[test]
fn composing_twice_gives_same_bytes() {
    let set = ImageSet::new(vec![gradient(9, 4), gradient(3, 7)], 5).unwrap();
    let first = fit_height(set.compose(), None).unwrap();
    let second = fit_height(set.compose(), None).unwrap();
    assert_eq!(first.data, second.data);
}

#[test]
fn layout_errors() {
    assert_eq!(ImageSet::new(Vec::new(), 10).err(), Some(LayoutError::NoImages));
    let wide = Picture::new(u32::MAX, 0, Vec::new()).unwrap();
    assert_eq!(ImageSet::new(vec![wide], 0).err().is_none(), true);
    let wide = Picture::new(u32::MAX - 5, 0, Vec::new()).unwrap();
    let narrow = Picture::new(3, 0, Vec::new()).unwrap();
    assert_eq!(ImageSet::new(vec![wide, narrow], 3).err(), Some(LayoutError::TooLarge));
}

#[test]
fn picture_size_checks() {
    assert!(Picture::new(2, 2, vec![0; 15]).is_none());
    assert!(Picture::new(2, 2, vec![0; 16]).is_some());
    let bad = Picture { width: 3, height: 1, data: vec![0; 4] };
    assert!(!bad.is_well_formed());
    assert_eq!(buffer_len(3, 2), 24);
    assert_eq!(pixel_index(3, 2, 1, 1), 16);
}

#[test]
fn blit_overwrites_only_its_slot() {
    let mut canvas = vec![7u8; 4 * 2 * 4];
    blit(&mut canvas, 4, 2, &solid(2, 1, BLUE), 1);
    assert_eq!(&canvas[0..4], &[7, 7, 7, 7]);
    assert_eq!(&canvas[4..8], &BLUE);
    assert_eq!(&canvas[8..12], &BLUE);
    assert_eq!(&canvas[12..16], &[7, 7, 7, 7]);
    assert!(canvas[16..].iter().all(|&b| b == 7));
}

#[test]
fn decode_failure_names_source() {
    let err = decode("second.png", b"not a png").unwrap_err();
    assert_eq!(err.path, "second.png");
    assert!(!err.reason.is_empty());
    let err = decode("notes.unknownext", b"").unwrap_err();
    assert_eq!(err.path, "notes.unknownext");
}

#[test]
fn decode_reads_png_pixels() {
    let src = gradient(3, 2);
    let buf: image::RgbaImage = image::ImageBuffer::from_raw(3, 2, src.data.clone()).unwrap();
    let mut bytes: Vec<u8> = Vec::new();
    buf.write_to(&mut std::io::Cursor::new(&mut bytes), image::ImageOutputFormat::Png).unwrap();
    let p = decode("x.png", &bytes).unwrap();
    assert_eq!((p.width, p.height), (3, 2));
    assert_eq!(p.data, src.data);
}
