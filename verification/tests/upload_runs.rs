use meme_gallery::error::UploadError;
use meme_gallery::gallery::gallery_src_urls;
use meme_gallery::media::MediaType;
use meme_gallery::orchestrator::{
    part_matches_field, UploadAction, UploadConfig, UploadEvent, UploadOrchestrator,
    UploadOutcome, UploadState,
};

fn config() -> UploadConfig {
    UploadConfig {
        field_name: String::from("meme-file"),
        ceiling: 1024,
        url_prefix: String::from("https://localhost:8000/static/uploads/"),
    }
}

fn part(name: &str, content_type: Option<&str>) -> UploadEvent {
    UploadEvent::Part {
        name: Some(String::from(name)),
        content_type: content_type.map(String::from),
    }
}

/// Drives one whole upload of `chunks` through the machine, mirroring what a
/// server loop does: perform each asked action against an in-memory
/// directory, report the outcome as the next event. Returns the final
/// machine and the directory contents.
fn run_upload(
    mut orch: UploadOrchestrator,
    content_type: &str,
    chunks: &[Vec<u8>],
    dir: &mut Vec<(String, Vec<u8>)>,
) -> UploadOrchestrator {
    let (next, action) = orch.on_event(part("meme-file", Some(content_type)));
    orch = next;
    let mut action = action;
    let mut remaining = chunks.iter();
    loop {
        let event = match action {
            UploadAction::OpenSink { ref name } => {
                assert!(dir.iter().all(|(n, _)| n != name));
                dir.push((name.clone(), Vec::new()));
                UploadEvent::OpenDone
            }
            UploadAction::ReadChunk => match remaining.next() {
                Some(c) => UploadEvent::Chunk { data: c.clone() },
                None => UploadEvent::StreamEnd,
            },
            UploadAction::Write { ref data } => {
                let (_, bytes) = dir.last_mut().expect("a sink must be open");
                bytes.extend_from_slice(data);
                UploadEvent::WriteDone
            }
            UploadAction::Cleanup { ref name } => {
                dir.retain(|(n, _)| n != name);
                return orch;
            }
            UploadAction::Done => return orch,
            UploadAction::ReadPart => panic!("a located field never asks for another part"),
        };
        let (next, a) = orch.on_event(event);
        orch = next;
        action = a;
    }
}

#[test]
fn successful_upload_stores_identical_bytes() {
    let chunks = vec![vec![1u8, 2, 3], vec![4u8, 5], vec![6u8]];
    let mut dir: Vec<(String, Vec<u8>)> = Vec::new();
    let orch = run_upload(UploadOrchestrator::new(config()), "image/png", &chunks, &mut dir);
    match orch.state {
        UploadState::Completed { meme, stored } => {
            assert!(matches!(meme.media_type, MediaType::ImagePng));
            assert_eq!(stored.size, 6);
            assert!(stored.name.ends_with(".png"));
            assert_eq!(stored.name.len(), 40);
            assert_eq!(
                meme.url,
                format!("https://localhost:8000/static/uploads/{}", stored.name)
            );
            assert_eq!(dir.len(), 1);
            assert_eq!(dir[0].0, stored.name);
            assert_eq!(dir[0].1, vec![1u8, 2, 3, 4, 5, 6]);
        }
        _ => panic!("the upload should have completed"),
    }
}

#[test]
fn empty_payload_is_a_valid_upload() {
    let mut dir: Vec<(String, Vec<u8>)> = Vec::new();
    let orch = run_upload(UploadOrchestrator::new(config()), "image/jpeg", &[], &mut dir);
    match orch.state {
        UploadState::Completed { stored, .. } => {
            assert_eq!(stored.size, 0);
            assert!(stored.name.ends_with(".jpg"));
            assert_eq!(dir.len(), 1);
            assert_eq!(dir[0].1.len(), 0);
        }
        _ => panic!("the upload should have completed"),
    }
}

#[test]
fn generated_names_have_uuid_shape() {
    let mut dir: Vec<(String, Vec<u8>)> = Vec::new();
    let orch = run_upload(UploadOrchestrator::new(config()), "image/png", &[], &mut dir);
    let name = match orch.state {
        UploadState::Completed { stored, .. } => stored.name,
        _ => panic!("the upload should have completed"),
    };
    let stem: Vec<char> = name.chars().take(36).collect();
    assert_eq!(stem.len(), 36);
    for (i, c) in stem.iter().enumerate() {
        if i == 8 || i == 13 || i == 18 || i == 23 {
            assert_eq!(*c, '-');
        } else {
            assert!(c.is_ascii_hexdigit() && !c.is_ascii_uppercase());
        }
    }
    assert_eq!(&name[36..], ".png");
}

#[test]
fn unsupported_type_rejected_with_no_file() {
    let orch = UploadOrchestrator::new(config());
    let (orch, action) = orch.on_event(part("meme-file", Some("text/plain")));
    assert!(matches!(action, UploadAction::Done));
    match orch.state {
        UploadState::Rejected { error, partial } => {
            match error {
                UploadError::UnsupportedMediaType(t) => assert_eq!(t, "text/plain"),
                _ => panic!("expected an unsupported-media-type rejection"),
            }
            assert!(partial.is_none());
        }
        _ => panic!("the upload should have been rejected"),
    }
}

#[test]
fn part_without_content_type_is_malformed() {
    let orch = UploadOrchestrator::new(config());
    let (orch, action) = orch.on_event(part("meme-file", None));
    assert!(matches!(action, UploadAction::Done));
    assert!(matches!(
        orch.state,
        UploadState::Rejected { error: UploadError::MalformedRequest, partial: None }
    ));
}

#[test]
fn unrelated_parts_are_skipped_until_match() {
    let orch = UploadOrchestrator::new(config());
    let (orch, action) = orch.on_event(part("avatar", Some("image/png")));
    assert!(matches!(action, UploadAction::ReadPart));
    assert!(matches!(orch.state, UploadState::Idle));
    let (orch, action) = orch.on_event(UploadEvent::Part { name: None, content_type: None });
    assert!(matches!(action, UploadAction::ReadPart));
    let (_, action) = orch.on_event(part("meme-file", Some("image/png")));
    assert!(matches!(action, UploadAction::OpenSink { .. }));
}

#[test]
fn missing_field_rejected_with_no_file() {
    let orch = UploadOrchestrator::new(config());
    let (orch, _) = orch.on_event(part("avatar", Some("image/png")));
    let (orch, action) = orch.on_event(UploadEvent::NoMorePart);
    assert!(matches!(action, UploadAction::Done));
    assert!(matches!(
        orch.state,
        UploadState::Rejected { error: UploadError::MissingField, partial: None }
    ));
}

#[test]
fn malformed_multipart_rejected() {
    let orch = UploadOrchestrator::new(config());
    let (orch, action) = orch.on_event(UploadEvent::PartError);
    assert!(matches!(action, UploadAction::Done));
    assert!(matches!(
        orch.state,
        UploadState::Rejected { error: UploadError::MalformedRequest, partial: None }
    ));
}

#[test]
fn failed_sink_creation_is_a_storage_error() {
    let orch = UploadOrchestrator::new(config());
    let (orch, _) = orch.on_event(part("meme-file", Some("image/png")));
    let (orch, action) = orch.on_event(UploadEvent::OpenFail);
    assert!(matches!(action, UploadAction::Done));
    assert!(matches!(
        orch.state,
        UploadState::Rejected { error: UploadError::StorageError, partial: None }
    ));
}

#[test]
fn oversized_stream_rejected_and_partial_cleaned() {
    // the scenario at full scale: a 10 MiB ceiling and 10 MiB + 1 byte of input
    let cfg = UploadConfig {
        field_name: String::from("meme-file"),
        ceiling: 10 * 1024 * 1024,
        url_prefix: String::from("/static/uploads/"),
    };
    let chunks = vec![vec![7u8; 10 * 1024 * 1024], vec![8u8]];
    let mut dir: Vec<(String, Vec<u8>)> = Vec::new();
    let orch = run_upload(UploadOrchestrator::new(cfg), "image/jpeg", &chunks, &mut dir);
    match orch.state {
        UploadState::Rejected { error, partial } => {
            assert!(matches!(error, UploadError::PayloadTooLarge));
            let p = partial.expect("the partial file is referenced");
            assert_eq!(p.size, 10 * 1024 * 1024);
        }
        _ => panic!("the upload should have been rejected as too large"),
    }
    assert!(dir.is_empty(), "no partial file may remain");
}

#[test]
fn aborted_stream_rejected_and_partial_cleaned() {
    let orch = UploadOrchestrator::new(config());
    let (orch, _) = orch.on_event(part("meme-file", Some("image/png")));
    let (orch, _) = orch.on_event(UploadEvent::OpenDone);
    let (orch, action) = orch.on_event(UploadEvent::Chunk { data: vec![1u8, 2] });
    assert!(matches!(action, UploadAction::Write { .. }));
    let (orch, _) = orch.on_event(UploadEvent::WriteDone);
    let (orch, action) = orch.on_event(UploadEvent::StreamFail);
    match action {
        UploadAction::Cleanup { ref name } => assert!(name.ends_with(".png")),
        _ => panic!("an aborted stream must trigger cleanup"),
    }
    match orch.state {
        UploadState::Rejected { error, partial } => {
            assert!(matches!(error, UploadError::StreamError));
            assert_eq!(partial.expect("partial reference").size, 2);
        }
        _ => panic!("the upload should have been rejected as a stream error"),
    }
}

#[test]
fn failed_write_rejected_and_partial_cleaned() {
    let orch = UploadOrchestrator::new(config());
    let (orch, _) = orch.on_event(part("meme-file", Some("image/jpeg")));
    let (orch, _) = orch.on_event(UploadEvent::OpenDone);
    let (orch, _) = orch.on_event(UploadEvent::Chunk { data: vec![9u8; 5] });
    let (orch, action) = orch.on_event(UploadEvent::WriteFail);
    assert!(matches!(action, UploadAction::Cleanup { .. }));
    match orch.state {
        UploadState::Rejected { error, partial } => {
            assert!(matches!(error, UploadError::StorageError));
            assert_eq!(partial.expect("partial reference").size, 5);
        }
        _ => panic!("the upload should have been rejected as a storage error"),
    }
}

#[test]
fn identical_uploads_get_distinct_names_and_both_listed() {
    let bytes = vec![vec![42u8; 16]];
    let mut dir: Vec<(String, Vec<u8>)> = Vec::new();
    let first = run_upload(UploadOrchestrator::new(config()), "image/png", &bytes, &mut dir);
    let second = run_upload(UploadOrchestrator::new(config()), "image/png", &bytes, &mut dir);
    let name1 = match first.state {
        UploadState::Completed { stored, .. } => stored.name,
        _ => panic!("first upload should have completed"),
    };
    let name2 = match second.state {
        UploadState::Completed { stored, .. } => stored.name,
        _ => panic!("second upload should have completed"),
    };
    assert_ne!(name1, name2);
    assert_eq!(dir.len(), 2);
    assert!(dir.iter().any(|(n, _)| *n == name1));
    assert!(dir.iter().any(|(n, _)| *n == name2));
    assert_eq!(dir[0].1, dir[1].1);
}

#[test]
fn gallery_lists_exactly_the_stored_uploads() {
    let mut dir: Vec<(String, Vec<u8>)> = Vec::new();
    let mut names: Vec<String> = Vec::new();
    for payload in [vec![1u8], vec![2u8, 2], vec![3u8, 3, 3]] {
        let orch = run_upload(
            UploadOrchestrator::new(config()),
            "image/jpeg",
            &[payload],
            &mut dir,
        );
        match orch.state {
            UploadState::Completed { stored, .. } => names.push(stored.name),
            _ => panic!("upload should have completed"),
        }
    }
    assert_eq!(dir.len(), 3);
    let entries: Vec<String> = dir.iter().map(|(n, _)| n.clone()).collect();
    for name in &names {
        assert!(entries.contains(name));
    }
    let sources = gallery_src_urls("/static/uploads/", &entries);
    assert_eq!(sources.len(), 3);
    for (i, src) in sources.iter().enumerate() {
        assert_eq!(*src, format!("/static/uploads/{}", entries[i]));
    }
}

#[test]
fn field_locator_matches_exactly_the_configured_name() {
    assert!(part_matches_field("meme-file", Some(&String::from("meme-file"))));
    assert!(!part_matches_field("meme-file", Some(&String::from("file"))));
    assert!(!part_matches_field("meme-file", None));
    assert!(part_matches_field("file", Some(&String::from("file"))));
}

#[test]
fn outcome_of_a_finished_run_is_structured() {
    let mut dir: Vec<(String, Vec<u8>)> = Vec::new();
    let done = run_upload(
        UploadOrchestrator::new(config()),
        "image/png",
        &[vec![5u8; 4]],
        &mut dir,
    );
    match done.into_outcome() {
        Some(UploadOutcome::Success(meme)) => {
            assert!(meme.url.starts_with("https://localhost:8000/static/uploads/"));
        }
        _ => panic!("a completed run yields a success outcome"),
    }
    let pending = UploadOrchestrator::new(config());
    assert!(pending.into_outcome().is_none());
    let rejected = UploadOrchestrator::new(config());
    let (rejected, _) = rejected.on_event(UploadEvent::NoMorePart);
    match rejected.into_outcome() {
        Some(UploadOutcome::Rejected(UploadError::MissingField, None)) => {}
        _ => panic!("a rejected run yields its reason"),
    }
}

#[test]
fn gallery_src_urls_of_empty_listing_is_empty() {
    let sources = gallery_src_urls("/static/uploads/", &Vec::new());
    assert!(sources.is_empty());
}
