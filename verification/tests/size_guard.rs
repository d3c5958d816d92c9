use meme_gallery::error::UploadError;
use meme_gallery::guard::{StreamingSizeGuard, DEFAULT_SIZE_CEILING};

#[test]
fn new_guard_starts_at_zero() {
    let g = StreamingSizeGuard::new(100);
    assert_eq!(g.current_total(), 0);
}

#[test]
fn accept_accumulates_in_order() {
    let mut g = StreamingSizeGuard::new(100);
    assert!(g.accept(40).is_ok());
    assert_eq!(g.current_total(), 40);
    assert!(g.accept(60).is_ok());
    assert_eq!(g.current_total(), 100);
}

#[test]
fn exact_ceiling_is_allowed() {
    let mut g = StreamingSizeGuard::new(10);
    assert!(g.accept(10).is_ok());
    assert_eq!(g.current_total(), 10);
}

#[test]
fn one_byte_over_is_rejected_and_not_counted() {
    let mut g = StreamingSizeGuard::new(10);
    assert!(g.accept(10).is_ok());
    let r = g.accept(1);
    assert!(matches!(r, Err(UploadError::PayloadTooLarge)));
    assert_eq!(g.current_total(), 10);
}

#[test]
fn default_ceiling_is_ten_mebibytes() {
    assert_eq!(DEFAULT_SIZE_CEILING, 10 * 1024 * 1024);
    let mut g = StreamingSizeGuard::new(DEFAULT_SIZE_CEILING);
    assert!(g.accept(DEFAULT_SIZE_CEILING).is_ok());
    assert!(matches!(g.accept(1), Err(UploadError::PayloadTooLarge)));
}

#[test]
fn oversized_single_chunk_is_rejected() {
    let mut g = StreamingSizeGuard::new(5);
    assert!(matches!(g.accept(6), Err(UploadError::PayloadTooLarge)));
    assert_eq!(g.current_total(), 0);
}
