use meme_gallery::media::MediaType;
use meme_gallery::meme::Meme;

#[test]
fn build_derives_url_from_prefix_and_name() {
    let m = Meme::build(
        MediaType::ImagePng,
        "https://localhost:8000/static/uploads/",
        "abc.png",
    );
    assert!(matches!(m.media_type, MediaType::ImagePng));
    assert_eq!(m.url, "https://localhost:8000/static/uploads/abc.png");
}

#[test]
fn build_stamps_a_plausible_creation_time() {
    let m = Meme::build(MediaType::ImageJpeg, "/up/", "x.jpg");
    // after 2017 and before 2100, in milliseconds since the Unix epoch
    assert!(m.created_at > 1_480_000_000_000);
    assert!(m.created_at < 4_100_000_000_000);
}

#[test]
fn parsed_url_normalizes_through_the_parser() {
    let m = Meme::build(
        MediaType::ImagePng,
        "HTTPS://LOCALHOST:8000/static/uploads/",
        "abc.png",
    );
    let parsed = m.parsed_url().expect("an absolute URL parses");
    // the parser lowercases scheme and host: the result is not the input
    assert_ne!(parsed, m.url);
    assert_eq!(parsed, "https://localhost:8000/static/uploads/abc.png");
}

#[test]
fn parsed_url_rejects_a_relative_url() {
    let m = Meme::build(MediaType::ImagePng, "/static/uploads/", "abc.png");
    assert!(m.parsed_url().is_none());
}
