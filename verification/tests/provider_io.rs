use std::io::Cursor;

use image::{DynamicImage, ImageFormat, RgbaImage};
use music_groomer::fingerprint::AudioFingerprint;
use music_groomer::provider::cache::{
    acoustid_file_name, artwork_absence_file_name, artwork_file_name, digest_hex, metadata_file_name, CacheError,
};
use music_groomer::provider::cover_art_archive::{decode, front_cover, front_cover_url};
use music_groomer::provider::http::{
    after_attempt, retry_delay, retry_window_exceeded, transient_status, AttemptAction, AttemptOutcome,
};
use music_groomer::provider::search::ProviderError;
use music_groomer::source::ArtworkFormat;

fn png(width: u32, height: u32) -> Vec<u8> {
    let mut bytes = Vec::new();
    DynamicImage::ImageRgba8(RgbaImage::new(width, height))
        .write_to(&mut Cursor::new(&mut bytes), ImageFormat::Png)
        .unwrap();
    bytes
}

#[test]
fn validates_downloaded_artwork_and_keeps_native_format() {
    let bytes = png(4, 5);

    let artwork = decode(bytes.clone()).unwrap();

    assert_eq!(artwork.format, ArtworkFormat::Png);
    assert_eq!(artwork.dimensions, (4, 5));
    assert_eq!(artwork.bytes, bytes);
}

#[test]
fn unrecognised_and_unsupported_artwork_is_invalid() {
    match decode(b"not an image".to_vec()) {
        Err(ProviderError::InvalidResponse(message)) => assert!(message.starts_with("artwork format: ")),
        other => panic!("unexpected {other:?}"),
    }
    match decode(b"BM\0\0\0\0".to_vec()) {
        Err(ProviderError::InvalidResponse(message)) => assert_eq!(message, "unsupported artwork format Bmp"),
        other => panic!("unexpected {other:?}"),
    }
    let mut truncated = png(4, 5);
    truncated.truncate(20);
    match decode(truncated) {
        Err(ProviderError::InvalidResponse(message)) => assert!(message.starts_with("artwork image: ")),
        other => panic!("unexpected {other:?}"),
    }
}

#[test]
fn missing_front_cover_is_no_artwork_and_other_failures_stay_errors() {
    assert!(matches!(
        front_cover(Err(ProviderError::HttpStatus { operation: "Cover Art Archive front", status: 404 })),
        Ok(None)
    ));
    assert!(matches!(
        front_cover(Err(ProviderError::HttpStatus { operation: "Cover Art Archive front", status: 500 })),
        Err(ProviderError::HttpStatus { status: 500, .. })
    ));
    assert!(matches!(front_cover(Ok(png(2, 3))), Ok(Some(_))));
    assert_eq!(front_cover_url("abc"), "https://coverartarchive.org/release-group/abc/front-1200");
}

#[test]
fn cache_entries_are_named_by_sha256() {
    assert_eq!(digest_hex(b""), "e3b0c44298fc1c149afbf4c8996fb92427ae41e4649b934ca495991b7852b855");
    assert_eq!(metadata_file_name(b"abc"), "ba7816bf8f01cfea414140de5dae2223b00361a396177a9cb410ff61f20015ad.json");
    assert_eq!(
        artwork_file_name("abc", "png"),
        "ba7816bf8f01cfea414140de5dae2223b00361a396177a9cb410ff61f20015ad.png"
    );
    assert_eq!(
        artwork_absence_file_name("abc"),
        "ba7816bf8f01cfea414140de5dae2223b00361a396177a9cb410ff61f20015ad.none.json"
    );
    let fingerprint = AudioFingerprint { duration_seconds: 1, value: "x".into() };
    assert_eq!(acoustid_file_name(&fingerprint), format!("{}.json", digest_hex(b"1\nx")));
}

#[test]
fn cache_errors_explain_themselves() {
    assert_eq!(
        CacheError::Obsolete { path: "p".into(), found_schema: 2, current_schema: 3 }.describe(),
        "obsolete cache entry p uses schema 2; current schema is 3"
    );
    assert_eq!(CacheError::NotOwned("/c".into()).describe(), "refusing to use unmarked non-empty cache directory /c");
}

#[test]
fn retries_back_off_within_bounds() {
    assert!(transient_status(429));
    assert!(transient_status(503));
    assert!(!transient_status(404));
    assert_eq!(retry_delay(None, 1), (1, 2));
    assert_eq!(retry_delay(Some(0), 4), (1, 8));
    assert_eq!(retry_delay(Some(120), 8), (15, 15));
    assert_eq!(retry_delay(None, u64::MAX), (15, 15));
    assert!(retry_window_exceeded(50, 15, 60));
    assert!(!retry_window_exceeded(45, 15, 60));
    assert!(retry_window_exceeded(70, 0, 60));
}

use music_groomer::provider::cache::ProviderCache;
use music_groomer::provider::pruning::{age_order, eviction, CacheFile};

#[test]
fn tiny_limit_prunes_least_recently_used_entries_on_write() {
    let files = vec![CacheFile { bytes: 100, accessed: 0 }, CacheFile { bytes: 100, accessed: 1 }];

    let removed = eviction(&files, 108);

    assert_eq!(removed, vec![0]);
}

#[test]
fn pruning_removes_the_fewest_oldest_files_that_make_the_cache_fit() {
    let files = vec![
        CacheFile { bytes: 30, accessed: 50 },
        CacheFile { bytes: 10, accessed: 10 },
        CacheFile { bytes: 20, accessed: 10 },
        CacheFile { bytes: 40, accessed: 99 },
    ];

    assert_eq!(age_order(&files), vec![1, 2, 0, 3]);
    assert_eq!(eviction(&files, 100), Vec::<usize>::new());
    assert_eq!(eviction(&files, 90), vec![1]);
    assert_eq!(eviction(&files, 70), vec![1, 2]);
    assert_eq!(eviction(&files, 39), vec![1, 2, 0, 3]);
    assert_eq!(eviction(&[].to_vec(), 0), Vec::<usize>::new());
}

#[test]
fn cache_entries_live_in_one_directory_per_kind() {
    let cache = ProviderCache::new("/var/cache/mg".into(), 1);

    assert_eq!(cache.directory("metadata"), "/var/cache/mg/metadata");
    assert_eq!(cache.marker_path(), "/var/cache/mg/.music-groomer-cache");
    assert_eq!(
        cache.metadata_path(b"abc"),
        "/var/cache/mg/metadata/ba7816bf8f01cfea414140de5dae2223b00361a396177a9cb410ff61f20015ad.json"
    );
    assert_eq!(
        cache.artwork_absence_path("abc"),
        "/var/cache/mg/artwork/ba7816bf8f01cfea414140de5dae2223b00361a396177a9cb410ff61f20015ad.none.json"
    );
}

#[test]
fn successful_answers_are_delivered() {
    let (action, next) = after_attempt("MusicBrainz search", AttemptOutcome::Answered { status: 200, retry_after: None }, 4);
    assert!(matches!(action, AttemptAction::Deliver));
    assert_eq!(next, 4);
}

#[test]
fn rate_limited_answers_wait_as_asked_within_bounds() {
    let (action, next) = after_attempt("MusicBrainz search", AttemptOutcome::Answered { status: 429, retry_after: Some(40) }, 1);
    assert!(matches!(action, AttemptAction::RetryAfter(15)));
    assert_eq!(next, 2);
    let (action, next) = after_attempt("MusicBrainz search", AttemptOutcome::Answered { status: 503, retry_after: None }, 8);
    assert!(matches!(action, AttemptAction::RetryAfter(8)));
    assert_eq!(next, 15);
}

#[test]
fn transient_network_failures_are_retried_with_back_off() {
    let (action, next) = after_attempt("AcoustID fingerprint lookup", AttemptOutcome::TransientFailure, 2);
    assert!(matches!(action, AttemptAction::RetryAfter(2)));
    assert_eq!(next, 4);
}

#[test]
fn other_statuses_and_failures_give_up() {
    let (action, _) = after_attempt("MusicBrainz search", AttemptOutcome::Answered { status: 404, retry_after: None }, 1);
    match action {
        AttemptAction::Fail(ProviderError::HttpStatus { operation, status }) => {
            assert_eq!(operation, "MusicBrainz search");
            assert_eq!(status, 404);
        }
        other => panic!("unexpected {other:?}"),
    }
    let (action, _) = after_attempt("Cover Art Archive front", AttemptOutcome::Failed("tls handshake".into()), 1);
    match action {
        AttemptAction::Fail(ProviderError::Network(message)) => {
            assert_eq!(message, "Cover Art Archive front: tls handshake");
        }
        other => panic!("unexpected {other:?}"),
    }
}
