use motionlens_core::error::Error;
use motionlens_core::model::{ImageFormat, VideoFormat};
use motionlens_core::video::export_video;

fn png_bytes(w: u32, h: u32, shade: u8) -> Vec<u8> {
    let img = image::RgbaImage::from_pixel(w, h, image::Rgba([shade, shade, shade, 255]));
    let mut buf: Vec<u8> = Vec::new();
    img.write_to(&mut std::io::Cursor::new(&mut buf), image::ImageFormat::Png).unwrap();
    buf
}

#[test]
fn video_export_without_frames_is_refused() {
    match export_video(&vec![], &vec![], 100, VideoFormat::Gif) {
        Err(Error::InvalidArgument(m)) => assert_eq!(m, "video_export requires at least one frame"),
        _ => panic!("expected an invalid-argument error"),
    }
}

#[test]
fn video_export_reports_a_frame_that_does_not_decode() {
    let frames = vec![png_bytes(4, 4, 0), b"garbage".to_vec()];
    match export_video(&frames, &vec![ImageFormat::Png, ImageFormat::Png], 100, VideoFormat::Apng) {
        Err(Error::InvalidArgument(m)) => assert!(m.starts_with("decode frame: ")),
        _ => panic!("expected an invalid-argument error"),
    }
}

#[test]
fn video_export_gif_of_two_frames() {
    let frames = vec![png_bytes(6, 4, 0), png_bytes(6, 4, 200)];
    let (w, h, bytes) = export_video(&frames, &vec![ImageFormat::Png, ImageFormat::Png], 100, VideoFormat::Gif).unwrap();
    assert_eq!((w, h), (6, 4));
    assert!(bytes.starts_with(b"GIF8"));
}

#[test]
fn video_export_apng_of_two_frames() {
    let frames = vec![png_bytes(5, 5, 0), png_bytes(5, 5, 90)];
    let (w, h, bytes) = export_video(&frames, &vec![ImageFormat::Png, ImageFormat::Png], 40, VideoFormat::Apng).unwrap();
    assert_eq!((w, h), (5, 5));
    assert!(bytes.starts_with(&[0x89, b'P', b'N', b'G']));
    assert!(bytes.windows(4).any(|w| w == b"acTL"));
}
