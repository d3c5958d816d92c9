use meme_gallery::error::UploadError;
use meme_gallery::media::MediaType;
use meme_gallery::text::str_eq;

#[test]
fn from_str_jpeg() {
    let r = MediaType::from_str("image/jpeg");
    assert!(matches!(r, Ok(MediaType::ImageJpeg)));
}

#[test]
fn from_str_png() {
    let r = MediaType::from_str("image/png");
    assert!(matches!(r, Ok(MediaType::ImagePng)));
}

#[test]
fn from_str_unsupported_carries_offending_string() {
    match MediaType::from_str("text/html") {
        Err(UploadError::UnsupportedMediaType(t)) => assert_eq!(t, "text/html"),
        _ => panic!("expected an unsupported-media-type rejection"),
    }
}

#[test]
fn from_str_empty_is_unsupported() {
    match MediaType::from_str("") {
        Err(UploadError::UnsupportedMediaType(t)) => assert_eq!(t, ""),
        _ => panic!("expected an unsupported-media-type rejection"),
    }
}

#[test]
fn from_str_is_case_sensitive() {
    assert!(MediaType::from_str("IMAGE/JPEG").is_err());
}

#[test]
fn extensions_are_canonical() {
    assert_eq!(MediaType::ImageJpeg.extension(), "jpg");
    assert_eq!(MediaType::ImagePng.extension(), "png");
}

#[test]
fn canonical_names_round_trip() {
    let jpeg = MediaType::ImageJpeg.canonical_name();
    assert_eq!(jpeg, "image/jpeg");
    assert!(matches!(MediaType::from_str(jpeg), Ok(MediaType::ImageJpeg)));
    let png = MediaType::ImagePng.canonical_name();
    assert_eq!(png, "image/png");
    assert!(matches!(MediaType::from_str(png), Ok(MediaType::ImagePng)));
}

#[test]
fn status_codes_map_each_failure() {
    assert_eq!(UploadError::MissingField.status_code(), 400);
    assert_eq!(UploadError::MalformedRequest.status_code(), 400);
    assert_eq!(
        UploadError::UnsupportedMediaType(String::from("text/html")).status_code(),
        400
    );
    assert_eq!(UploadError::PayloadTooLarge.status_code(), 413);
    assert_eq!(UploadError::StreamError.status_code(), 400);
    assert_eq!(UploadError::StorageError.status_code(), 500);
}

#[test]
fn str_eq_agrees_with_equality() {
    assert!(str_eq("image/png", "image/png"));
    assert!(!str_eq("image/png", "image/jpeg"));
    assert!(!str_eq("image/png", "image/pngg"));
    assert!(!str_eq("", "a"));
    assert!(str_eq("", ""));
    assert!(str_eq("naïve🎈", "naïve🎈"));
    assert!(!str_eq("naïve🎈", "naive🎈"));
}
