use motionlens_core::error::Error;
use motionlens_core::model::ImageFormat;
use motionlens_core::sheet::{cell_width, contact_sheet_png, sheet_geometry};

#[test]
fn cell_width_has_a_floor() {
    assert_eq!(cell_width(10), 64);
    assert_eq!(cell_width(64), 64);
    assert_eq!(cell_width(200), 200);
}

#[test]
fn three_cells_with_gaps_and_label() {
    let g = sheet_geometry(100, &vec![50, 80, 60]);
    assert_eq!(g.width, 100 * 3 + 4 * 4);
    assert_eq!(g.height, 80 + 22 + 8);
    assert_eq!(g.cell_x, vec![4, 108, 212]);
}

#[test]
fn single_cell_sheet() {
    let g = sheet_geometry(64, &vec![1]);
    assert_eq!((g.width, g.height, g.cell_x.clone()), (72, 31, vec![4]));
}

fn png_bytes(w: u32, h: u32, c: [u8; 4]) -> Vec<u8> {
    let img = image::RgbaImage::from_pixel(w, h, image::Rgba(c));
    let mut buf: Vec<u8> = Vec::new();
    img.write_to(&mut std::io::Cursor::new(&mut buf), image::ImageFormat::Png).unwrap();
    buf
}

#[test]
fn contact_sheet_lays_out_thumbnails_and_strokes_boxes() {
    let frames = vec![png_bytes(128, 64, [200, 0, 0, 255]), png_bytes(128, 64, [0, 0, 200, 255])];
    let (g, png) = contact_sheet_png(
        &frames,
        &vec![ImageFormat::Png, ImageFormat::Png],
        64,
        &vec![32, 32],
        &vec![vec![(10, 10, 20, 20)], vec![]],
    )
    .unwrap();
    assert_eq!((g.width, g.height), (64 * 2 + 4 * 3, 32 + 22 + 8));
    assert_eq!(g.cell_x, vec![4, 72]);
    let img = image::load_from_memory_with_format(&png, image::ImageFormat::Png).unwrap().to_rgba8();
    assert_eq!(img.dimensions(), (g.width, g.height));
    assert_eq!(img.get_pixel(0, 0).0, [20, 20, 24, 255]);
    assert_eq!(img.get_pixel(4 + 10, 4 + 15).0, [60, 230, 120, 255]);
    assert_eq!(img.get_pixel(4 + 15, 4 + 15).0, [200, 0, 0, 255]);
    assert_eq!(img.get_pixel(72 + 5, 4 + 5).0, [0, 0, 200, 255]);
}

#[test]
fn contact_sheet_errors() {
    match contact_sheet_png(&vec![], &vec![], 64, &vec![], &vec![]) {
        Err(Error::InvalidArgument(m)) => assert_eq!(m, "contact_sheet requires at least one frame"),
        _ => panic!("expected an error"),
    }
    match contact_sheet_png(&vec![b"x".to_vec()], &vec![ImageFormat::Png], 64, &vec![10], &vec![vec![]]) {
        Err(Error::InvalidArgument(m)) => assert!(m.starts_with("decode frame: ")),
        _ => panic!("expected an error"),
    }
}
