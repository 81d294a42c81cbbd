use std::io::Cursor;

use motionlens_core::error::Error;
use motionlens_core::model::ImageFormat;
use motionlens_core::pixels::{compare_decoded, compare_frames, PixelComparison};

fn png(w: u32, h: u32, f: impl Fn(u32, u32) -> [u8; 4]) -> Vec<u8> {
    let img = image::RgbaImage::from_fn(w, h, |x, y| image::Rgba(f(x, y)));
    let mut out = Cursor::new(Vec::new());
    img.write_to(&mut out, image::ImageFormat::Png).unwrap();
    out.into_inner()
}

#[test]
fn identical_frames_compare_to_zero() {
    let a = png(3, 2, |x, y| [x as u8 * 10, y as u8 * 20, 7, 255]);
    let r = compare_frames(&a, ImageFormat::Png, &a, ImageFormat::Png).unwrap();
    assert_eq!(r, PixelComparison::Compared { abs_diff_sum: 0, channels: 24 });
}

#[test]
fn channel_differences_are_summed() {
    let a = png(2, 2, |_, _| [0, 0, 0, 255]);
    let b = png(2, 2, |x, y| if x == 1 && y == 1 { [255, 10, 0, 255] } else { [0, 0, 0, 255] });
    let r = compare_frames(&a, ImageFormat::Png, &b, ImageFormat::Png).unwrap();
    assert_eq!(r, PixelComparison::Compared { abs_diff_sum: 265, channels: 16 });
    let back = compare_frames(&b, ImageFormat::Png, &a, ImageFormat::Png).unwrap();
    assert_eq!(back, r);
}

#[test]
fn different_sizes_are_wholly_changed() {
    let a = png(2, 2, |_, _| [0, 0, 0, 255]);
    let b = png(3, 2, |_, _| [0, 0, 0, 255]);
    assert_eq!(compare_frames(&a, ImageFormat::Png, &b, ImageFormat::Png).unwrap(), PixelComparison::DifferentSize);
}

#[test]
fn undecodable_frame_is_named() {
    let good = png(1, 1, |_, _| [1, 2, 3, 4]);
    match compare_frames(b"not a png", ImageFormat::Png, &good, ImageFormat::Png) {
        Err(Error::InvalidArgument(m)) => assert!(m.starts_with("decode frame_a: ")),
        other => panic!("unexpected {other:?}"),
    }
    match compare_frames(&good, ImageFormat::Png, b"nope", ImageFormat::Png) {
        Err(Error::InvalidArgument(m)) => assert!(m.starts_with("decode frame_b: ")),
        other => panic!("unexpected {other:?}"),
    }
}

#[test]
fn empty_pictures_have_no_pixels() {
    assert_eq!(compare_decoded((0, 5, Vec::new()), (0, 5, Vec::new())), PixelComparison::NoPixels);
    assert_eq!(
        compare_decoded((1, 1, vec![10, 20, 30, 40]), (1, 1, vec![20, 10, 30, 41])),
        PixelComparison::Compared { abs_diff_sum: 21, channels: 4 }
    );
}

#[test]
fn opposite_extremes_reach_the_channel_bound() {
    let a = png(2, 1, |_, _| [0, 0, 0, 0]);
    let b = png(2, 1, |_, _| [255, 255, 255, 255]);
    let r = compare_frames(&a, ImageFormat::Png, &b, ImageFormat::Png).unwrap();
    assert_eq!(r, PixelComparison::Compared { abs_diff_sum: 255 * 8, channels: 8 });
    assert_eq!(compare_frames(&b, ImageFormat::Png, &a, ImageFormat::Png).unwrap(), r);
}
