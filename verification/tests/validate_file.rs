use input_validation::validate_file;
use input_validation::validators::validate_file::name_matches_kind;

#[test]
fn it_should_validate_images_and_videos() {
    // magic bytes
    let jpeg = &[0xFF, 0xD8, 0xFF];
    let webm = &[0x1A, 0x45, 0xDF, 0xA3];
    let xml = b"<?xml";

    assert!(validate_file(webm, &"example.webm".to_string()));
    assert!(validate_file(jpeg, &"example.jpg".to_string()));

    // not an image or video file
    assert!(!validate_file(xml, &"example.xml".to_string()));

    // file format not supported
    let mpeg_video = &[0x00, 0x00, 0x01, 0xB3];
    assert!(!validate_file(mpeg_video, &"example.mpeg".to_string()));
}

#[test]
fn mime_type_should_match_extension() {
    // magic bytes
    let jpeg = &[0xFF, 0xD8, 0xFF];
    let png = &[0x89, 0x50, 0x4E, 0x47, 0x0D, 0x0A, 0x1A, 0x0A];

    // with multiple extensions
    assert!(validate_file(jpeg, &"example.jpg".to_string()));
    assert!(validate_file(jpeg, &"example.jpeg".to_string()));
    assert!(!validate_file(jpeg, &"example.png".to_string()));

    assert!(validate_file(png, &"example.png".to_string()));
    assert!(!validate_file(png, &"example.tif".to_string()));
}

#[test]
fn content_and_claimed_name() {
    let jpeg = &[0xFF, 0xD8, 0xFF];
    let webm = &[0x1A, 0x45, 0xDF, 0xA3];
    let xml = &[0x3C, 0x3F, 0x78, 0x6D, 0x6C];

    assert!(validate_file(jpeg, &"x.jpg".to_string()));
    assert!(!validate_file(jpeg, &"x.png".to_string()));
    assert!(validate_file(jpeg, &"x.jpeg".to_string()));
    assert!(validate_file(webm, &"x.webm".to_string()));
    for name in ["x.xml", "x.jpg", "x.webm", "x", ""] {
        assert!(!validate_file(xml, &name.to_string()));
    }
}

#[test]
fn other_spellings_of_an_extension() {
    let jpeg = &[0xFF, 0xD8, 0xFF];
    let tiff = &[0x49, 0x49, 0x2A, 0x00, 0x08, 0x00, 0x00, 0x00, 0x00, 0x00];
    let mov = &[0, 0, 0, 0x14, b'f', b't', b'y', b'p', b'q', b't', b' ', b' ', 0, 0, 0, 0];

    assert!(validate_file(jpeg, &"x.jpe".to_string()));
    assert!(validate_file(tiff, &"x.tif".to_string()));
    assert!(validate_file(tiff, &"x.tiff".to_string()));
    assert!(!validate_file(tiff, &"x.jpg".to_string()));
    assert!(validate_file(mov, &"x.mov".to_string()));
    assert!(validate_file(mov, &"x.qt".to_string()));
    assert!(!validate_file(mov, &"x.mp4".to_string()));
    // only the claimed extension is normalised
    assert!(!validate_file(jpeg, &"x.jpg.jpeg.png".to_string()));
    assert!(validate_file(jpeg, &"x.png.jpeg".to_string()));
}

#[test]
fn extension_is_compared_exactly() {
    let jpeg = &[0xFF, 0xD8, 0xFF];
    assert!(!validate_file(jpeg, &"x.JPG".to_string()));
    assert!(!validate_file(jpeg, &"x.Jpeg".to_string()));
    assert!(!validate_file(jpeg, &"x.jpg ".to_string()));
    assert!(!validate_file(jpeg, &"x.jp".to_string()));
    assert!(!validate_file(jpeg, &"x.".to_string()));
}

#[test]
fn name_without_extension_is_refused() {
    let jpeg = &[0xFF, 0xD8, 0xFF];
    assert!(!validate_file(jpeg, &"jpg".to_string()));
    assert!(!validate_file(jpeg, &"".to_string()));
    assert!(!validate_file(jpeg, &"x.jpg/y".to_string()));
    assert!(validate_file(jpeg, &"a.b/c.d/x.jpg".to_string()));
}

#[test]
fn empty_content_is_refused() {
    assert!(!validate_file(&[], &"x.jpg".to_string()));
}

#[test]
fn name_matches_kind_normalises_the_name_only() {
    assert!(name_matches_kind(&"x.jpeg".to_string(), "jpg"));
    assert!(name_matches_kind(&"x.jpe".to_string(), "jpg"));
    assert!(name_matches_kind(&"x.jpg".to_string(), "jpg"));
    assert!(name_matches_kind(&"x.tiff".to_string(), "tif"));
    assert!(name_matches_kind(&"x.qt".to_string(), "mov"));
    assert!(name_matches_kind(&"x.webm".to_string(), "webm"));
    assert!(!name_matches_kind(&"x.jpg".to_string(), "jpeg"));
    assert!(!name_matches_kind(&"x.tif".to_string(), "tiff"));
    assert!(!name_matches_kind(&"x.mov".to_string(), "qt"));
    assert!(!name_matches_kind(&"x.jpeg".to_string(), "jpeg"));
    assert!(!name_matches_kind(&"x".to_string(), ""));
    assert!(name_matches_kind(&"x.".to_string(), ""));
}
