use motionlens_core::artifact::{extension_for, image_filename, mime_for_path, video_extension, ArtifactStore};
use base64::Engine;
use motionlens_core::artifact::thumbnail_base64;
use motionlens_core::error::Error;
use motionlens_core::ids::{ArtifactId, SessionId};
use motionlens_core::model::{ImageFormat, VideoFormat};
use motionlens_core::paths::{extension, file_name, join_path};

fn store() -> ArtifactStore {
    let sid = SessionId::from_string("ses-abc".to_string());
    ArtifactStore::for_session(&sid, "/tmp/motionlens").unwrap()
}

#[test]
fn store_root_is_session_directory() {
    assert_eq!(store().root_path(), "/tmp/motionlens/ses-abc");
}

#[test]
fn artifact_uri_names_session_and_file() {
    assert_eq!(store().artifact_uri("a.png"), "motionlens://artifacts/ses-abc/a.png");
}

#[test]
fn stored_artifact_paths_follow_format() {
    let s = store();
    let a = s.stored_artifact(ArtifactId::from_string("art-1".to_string()), ImageFormat::Jpeg, 10, 20, None);
    assert_eq!(a.uri, "motionlens://artifacts/ses-abc/art-1.jpg");
    assert_eq!(a.path, "/tmp/motionlens/ses-abc/art-1.jpg");
    assert_eq!((a.width, a.height), (10, 20));
    let v = s.stored_video(ArtifactId::from_string("art-2".to_string()), VideoFormat::Apng);
    assert_eq!(v.uri, "motionlens://artifacts/ses-abc/art-2.apng");
    assert_eq!(s.report_path(), "/tmp/motionlens/ses-abc/motionlens-report.json");
}

#[test]
fn extensions_of_formats() {
    assert_eq!(extension_for(ImageFormat::Png), "png");
    assert_eq!(extension_for(ImageFormat::Jpeg), "jpg");
    assert_eq!(video_extension(VideoFormat::Gif), "gif");
    assert_eq!(video_extension(VideoFormat::Apng), "apng");
    assert_eq!(image_filename(&ArtifactId::from_string("x".to_string()), ImageFormat::Png), "x.png");
}

#[test]
fn uri_round_trip_through_store() {
    let s = store();
    let uri = s.artifact_uri("frame.png");
    assert_eq!(ArtifactStore::resolve_uri(&uri, "/tmp/motionlens").unwrap(), s.file_path("frame.png"));
    assert_eq!(s.local_path_for_uri(&uri), Some("/tmp/motionlens/ses-abc/frame.png".to_string()));
    assert_eq!(s.local_path_for_uri("motionlens://artifacts/other/frame.png"), None);
}

#[test]
fn resolve_uri_rejections() {
    let msg = |r: Result<String, Error>| match r {
        Err(Error::InvalidArgument(m)) => m,
        other => panic!("expected invalid argument, got {:?}", other),
    };
    assert_eq!(msg(ArtifactStore::resolve_uri("http://x/y", "/r")), "not a motionlens artifact URI: http://x/y");
    assert_eq!(msg(ArtifactStore::resolve_uri("motionlens://artifacts//f.png", "/r")), "URI missing session segment: motionlens://artifacts//f.png");
    assert_eq!(msg(ArtifactStore::resolve_uri("motionlens://artifacts/ses", "/r")), "URI missing filename segment: motionlens://artifacts/ses");
    assert_eq!(msg(ArtifactStore::resolve_uri("motionlens://artifacts/ses/", "/r")), "URI missing filename segment: motionlens://artifacts/ses/");
    assert_eq!(msg(ArtifactStore::resolve_uri("motionlens://artifacts/ses/../x", "/r")), "suspicious motionlens artifact URI: motionlens://artifacts/ses/../x");
    assert_eq!(msg(ArtifactStore::resolve_uri("motionlens://artifacts/s\\x/f", "/r")), "suspicious motionlens artifact URI: motionlens://artifacts/s\\x/f");
}

#[test]
fn paths_join_and_name() {
    assert_eq!(join_path("/a/", "b"), "/a/b");
    assert_eq!(join_path("/a", "/b"), "/b");
    assert_eq!(file_name("/a/b.png"), Some("b.png".to_string()));
    assert_eq!(file_name("/a/b/."), Some("b".to_string()));
    assert_eq!(file_name("/a/.."), None);
    assert_eq!(extension("/a/b.PNG"), Some("PNG".to_string()));
    assert_eq!(extension("/a/.hidden"), None);
    assert_eq!(extension("/a/x.tar.gz"), Some("gz".to_string()));
    assert_eq!(extension("/a/plain"), None);
}

#[test]
fn mime_types_by_extension() {
    assert_eq!(mime_for_path("/x/a.png"), "image/png");
    assert_eq!(mime_for_path("/x/a.JPG"), "image/jpeg");
    assert_eq!(mime_for_path("/x/a.jpeg"), "image/jpeg");
    assert_eq!(mime_for_path("/x/a.gif"), "image/gif");
    assert_eq!(mime_for_path("/x/a.ApNg"), "image/apng");
    assert_eq!(mime_for_path("/x/a.json"), "application/octet-stream");
    assert_eq!(mime_for_path("/x/noext"), "application/octet-stream");
}

#[test]
fn issued_uri_resolves_to_written_path() {
    let root = "/tmp/motionlens-artifacts";
    let sid = SessionId::from_string("ses-1234".to_string());
    let store = ArtifactStore::for_session(&sid, root).unwrap();
    let stored = store.stored_artifact(ArtifactId::from_string("art-9".to_string()), ImageFormat::Png, 4, 3, None);
    assert_eq!(ArtifactStore::resolve_uri(&stored.uri, root).unwrap(), stored.path);
    let uri = store.artifact_uri("sheet.png");
    assert_eq!(ArtifactStore::resolve_uri(&uri, root).unwrap(), store.file_path("sheet.png"));
}

fn png_bytes(w: u32, h: u32) -> Vec<u8> {
    let img = image::RgbaImage::from_pixel(w, h, image::Rgba([10, 20, 30, 255]));
    let mut buf: Vec<u8> = Vec::new();
    img.write_to(&mut std::io::Cursor::new(&mut buf), image::ImageFormat::Png).unwrap();
    buf
}

#[test]
fn saved_artifact_reads_dimensions_from_bytes() {
    let id = ArtifactId::from_string("frm-1".to_string());
    let a = store().saved_artifact(id, &png_bytes(7, 3), ImageFormat::Png).unwrap();
    assert_eq!(a.width, 7);
    assert_eq!(a.height, 3);
    assert_eq!(a.uri, "motionlens://artifacts/ses-abc/frm-1.png");
    assert_eq!(a.path, "/tmp/motionlens/ses-abc/frm-1.png");
    assert!(a.thumbnail_base64.is_none());
}

#[test]
fn saved_artifact_refuses_bytes_that_do_not_decode() {
    let id = ArtifactId::from_string("frm-2".to_string());
    match store().saved_artifact(id, b"not an image", ImageFormat::Png) {
        Err(Error::InvalidArgument(m)) => assert!(m.starts_with("failed to decode image dimensions: ")),
        other => panic!("unexpected: {:?}", other.is_ok()),
    }
}

#[test]
fn fresh_session_store_is_named_after_the_session() {
    let sid = SessionId::new();
    let s = ArtifactStore::for_session(&sid, "/var/tmp/art/").unwrap();
    assert_eq!(file_name(s.root_path()), Some(sid.as_str().to_string()));
}

#[test]
fn issued_frame_uri_maps_back_to_its_path() {
    let s = store();
    let a = s.stored_artifact(ArtifactId::from_string("frm-9".to_string()), ImageFormat::Jpeg, 1, 1, None);
    assert_eq!(s.local_path_for_uri(&a.uri), Some(a.path.clone()));
    let v = s.stored_video(ArtifactId::from_string("vid-1".to_string()), VideoFormat::Apng);
    assert_eq!(s.local_path_for_uri(&v.uri), Some(v.path.clone()));
}

fn decoded_size(b64: &str) -> (u32, u32) {
    let raw = base64::engine::general_purpose::STANDARD.decode(b64).unwrap();
    let img = image::load_from_memory_with_format(&raw, image::ImageFormat::Png).unwrap();
    (img.width(), img.height())
}

#[test]
fn wide_picture_thumbnail_is_resized_to_thumbnail_width() {
    let t = thumbnail_base64(&png_bytes(300, 100), ImageFormat::Png, 85).unwrap();
    assert_eq!(decoded_size(&t), (256, 85));
}

#[test]
fn narrow_picture_thumbnail_keeps_its_size() {
    let t = thumbnail_base64(&png_bytes(10, 6), ImageFormat::Png, 1).unwrap();
    assert_eq!(decoded_size(&t), (10, 6));
}

#[test]
fn thumbnail_of_garbage_is_a_decode_error() {
    match thumbnail_base64(b"nope", ImageFormat::Png, 1) {
        Err(Error::InvalidArgument(m)) => assert!(m.starts_with("failed to decode image: ")),
        _ => panic!("expected an invalid-argument error"),
    }
}
