use music_groomer::apply::publication::PublicationError;
use music_groomer::apply::snapshot::{first_snapshot_difference, snapshots_match, source_path, source_recheck};
use music_groomer::apply::{publication_failure, ApplyStage, CleanupOutcome};
use music_groomer::domain::SourceKind;
use music_groomer::source::{SourceInspection, SourceObjectKind, SourceSnapshotEntry};

fn entry(path: &str, bytes: u64, modified: Option<u64>) -> SourceSnapshotEntry {
    SourceSnapshotEntry {
        relative_path: path.into(),
        kind: SourceObjectKind::File,
        bytes,
        modified,
    }
}

fn inspection(source: &str, kind: SourceKind, snapshot: Vec<SourceSnapshotEntry>) -> SourceInspection {
    SourceInspection {
        source: source.into(),
        kind,
        audio: Vec::new(),
        ancillary: Vec::new(),
        artwork: Vec::new(),
        selected_artwork: None,
        notices: Vec::new(),
        snapshot,
    }
}

#[test]
fn identical_snapshots_have_no_difference() {
    let before = vec![entry("01.flac", 10, Some(5)), entry("02.flac", 20, None)];
    let after = before.clone();
    assert_eq!(first_snapshot_difference(&before, &after), None);
    assert!(snapshots_match(&before, &after));
}

#[test]
fn changed_entry_is_reported_by_its_path() {
    let before = vec![entry("01.flac", 10, Some(5)), entry("02.flac", 20, Some(6))];
    let after = vec![entry("01.flac", 10, Some(5)), entry("02.flac", 20, Some(7))];
    assert_eq!(first_snapshot_difference(&before, &after), Some("02.flac".to_string()));
    assert!(!snapshots_match(&before, &after));
}

#[test]
fn changed_kind_is_a_difference() {
    let before = vec![entry("cover.jpg", 0, None)];
    let mut after = before.clone();
    after[0].kind = SourceObjectKind::Directory;
    assert_eq!(first_snapshot_difference(&before, &after), Some("cover.jpg".to_string()));
}

#[test]
fn extra_entries_on_either_side_are_reported() {
    let before = vec![entry("01.flac", 10, None)];
    let after = vec![entry("01.flac", 10, None), entry("02.flac", 20, None)];
    assert_eq!(first_snapshot_difference(&before, &after), Some("02.flac".to_string()));
    assert_eq!(first_snapshot_difference(&after, &before), Some("02.flac".to_string()));
}

#[test]
fn parted_paths_report_the_one_that_sorts_first_by_component() {
    // Byte order would put "a-b" first; path order compares the component "a"
    // with "a-b" and puts "a/b" first.
    let before = vec![entry("a-b", 1, None)];
    let after = vec![entry("a/b", 1, None)];
    assert_eq!(first_snapshot_difference(&before, &after), Some("a/b".to_string()));
    assert_eq!(first_snapshot_difference(&after, &before), Some("a/b".to_string()));
}

#[test]
fn paths_equal_as_paths_are_the_same_entry() {
    let before = vec![entry("disc 1/01.flac", 1, None)];
    let after = vec![entry("disc 1//01.flac", 1, None)];
    assert_eq!(first_snapshot_difference(&before, &after), None);
    assert!(snapshots_match(&before, &after));
}

#[test]
fn source_paths_are_placed_under_the_source_root() {
    let album = inspection("/music/Album", SourceKind::AlbumDirectory, Vec::new());
    assert_eq!(source_path(&album, "02.flac"), "/music/Album/02.flac");
    let loose = inspection("/music/single.mp3", SourceKind::LooseFile, Vec::new());
    assert_eq!(source_path(&loose, "single.mp3"), "/music/single.mp3");
}

#[test]
fn unchanged_source_passes_the_recheck() {
    let snapshot = vec![entry("01.flac", 10, Some(1))];
    let source = inspection("/music/Album", SourceKind::AlbumDirectory, snapshot.clone());
    assert!(source_recheck(&source, &snapshot).is_ok());
}

#[test]
fn changed_source_fails_the_recheck_and_asks_for_reinspection() {
    let source = inspection(
        "/music/Album",
        SourceKind::AlbumDirectory,
        vec![entry("01.flac", 10, Some(1)), entry("02.flac", 20, Some(1))],
    );
    let current = vec![entry("01.flac", 10, Some(1)), entry("02.flac", 21, Some(1))];
    let failure = source_recheck(&source, &current).unwrap_err();
    assert_eq!(failure.stage, ApplyStage::Preflight);
    assert_eq!(failure.path.as_deref(), Some("/music/Album/02.flac"));
    assert_eq!(failure.cause, "the selected source changed after inspection");
    assert!(failure.requires_reinspection);
    assert!(failure.source_untouched);
    assert!(!failure.destination_published);
}

#[test]
fn validation_publication_error_stops_while_validating() {
    let failure = publication_failure(PublicationError::Validation {
        path: "/library/Album/01.flac".into(),
        cause: "digest differs".into(),
    });
    assert_eq!(failure.stage, ApplyStage::Validating);
    assert_eq!(failure.path.as_deref(), Some("/library/Album/01.flac"));
    assert_eq!(
        failure.cause,
        "destination-side publication copy failed validation at /library/Album/01.flac: digest differs"
    );
    assert_eq!(failure.cleanup, CleanupOutcome::NotNeeded);
}

#[test]
fn failed_partial_cleanup_is_recorded_on_the_failure() {
    let failure = publication_failure(PublicationError::Cleanup {
        original: Box::new(PublicationError::Collision("/library/Album".into())),
        path: "/library/.music-groomer-partials/p1".into(),
        message: "busy".into(),
    });
    assert_eq!(failure.stage, ApplyStage::Publishing);
    assert_eq!(failure.path.as_deref(), Some("/library/.music-groomer-partials/p1"));
    assert_eq!(
        failure.cleanup,
        CleanupOutcome::Failed("publication partial remains at /library/.music-groomer-partials/p1: busy".into())
    );
}
