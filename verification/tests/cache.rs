use music_groomer::provider::cache::{check_schema, CacheError, CACHE_SCHEMA, SECONDS_PER_DAY};
use music_groomer::provider::cache_status::{cache_status, CacheArea, CacheFileReading, StoredContent};
use music_groomer::provider::ownership::{
    claim_action, clear_action, clear_confirmed, ClaimAction, ClearAction, MarkerState,
};

const NOW: u64 = 100 * SECONDS_PER_DAY;

fn read(area: CacheArea, bytes: u64, content: StoredContent) -> CacheFileReading {
    CacheFileReading::Read { area, bytes, content }
}

#[test]
fn status_counts_each_kind_of_entry() {
    let readings = vec![
        read(CacheArea::Metadata, 100, StoredContent::Metadata { schema: CACHE_SCHEMA, fetched_at: NOW - SECONDS_PER_DAY }),
        read(CacheArea::Metadata, 50, StoredContent::Metadata { schema: CACHE_SCHEMA, fetched_at: NOW - 31 * SECONDS_PER_DAY }),
        read(CacheArea::Metadata, 10, StoredContent::Metadata { schema: CACHE_SCHEMA - 1, fetched_at: NOW }),
        read(CacheArea::Artwork, 2000, StoredContent::Image { decodes: true }),
        read(CacheArea::Artwork, 30, StoredContent::Image { decodes: false }),
        read(CacheArea::Artwork, 20, StoredContent::ArtworkAbsence { schema: CACHE_SCHEMA }),
        read(CacheArea::AcoustId, 300, StoredContent::AcoustId { schema: CACHE_SCHEMA, fetched_at: NOW, usable: true }),
        read(CacheArea::AcoustId, 40, StoredContent::AcoustId { schema: CACHE_SCHEMA, fetched_at: NOW, usable: false }),
        read(CacheArea::AcoustId, 60, StoredContent::AcoustId { schema: CACHE_SCHEMA, fetched_at: 0, usable: true }),
        read(CacheArea::AcoustId, 7, StoredContent::Unparsable),
        CacheFileReading::Unreadable,
    ];
    let status = cache_status("/cache".into(), 256 * 1024 * 1024, &readings, NOW);
    assert_eq!(status.location, "/cache");
    assert_eq!(status.max_bytes, 256 * 1024 * 1024);
    assert_eq!(status.total_bytes, 2617);
    assert_eq!(status.fresh_metadata, 1);
    assert_eq!(status.stale_metadata, 1);
    assert_eq!(status.obsolete_entries, 1);
    assert_eq!(status.artwork_entries, 1);
    assert_eq!(status.artwork_bytes, 2000);
    assert_eq!(status.confirmed_artwork_absences, 1);
    assert_eq!(status.fresh_acoustid, 1);
    assert_eq!(status.stale_acoustid, 1);
    assert_eq!(status.acoustid_no_matches, 1);
    assert_eq!(status.acoustid_bytes, 407);
    assert_eq!(status.damaged_entries, 3);
}

#[test]
fn status_counts_every_file_once() {
    let readings = vec![
        CacheFileReading::Unreadable,
        read(CacheArea::Artwork, 1, StoredContent::ArtworkAbsence { schema: 0 }),
        read(CacheArea::Metadata, 1, StoredContent::Unparsable),
    ];
    let status = cache_status(String::new(), 0, &readings, NOW);
    let counted = status.fresh_metadata
        + status.stale_metadata
        + status.artwork_entries
        + status.confirmed_artwork_absences
        + status.fresh_acoustid
        + status.stale_acoustid
        + status.acoustid_no_matches
        + status.obsolete_entries
        + status.damaged_entries;
    assert_eq!(counted, readings.len());
}

#[test]
fn status_byte_totals_saturate() {
    let readings = vec![
        read(CacheArea::AcoustId, u64::MAX, StoredContent::Unparsable),
        read(CacheArea::AcoustId, 5, StoredContent::Unparsable),
    ];
    let status = cache_status(String::new(), 0, &readings, NOW);
    assert_eq!(status.total_bytes, u64::MAX);
    assert_eq!(status.acoustid_bytes, u64::MAX);
}

#[test]
fn empty_cache_has_an_empty_status() {
    let status = cache_status("/cache".into(), 9, &Vec::new(), NOW);
    assert_eq!(status.total_bytes, 0);
    assert_eq!(status.damaged_entries, 0);
    assert_eq!(status.max_bytes, 9);
}

#[test]
fn unmarked_non_empty_directory_is_never_claimed() {
    assert_eq!(claim_action(MarkerState::Absent, false), ClaimAction::Refuse);
    assert_eq!(claim_action(MarkerState::NotAFile, true), ClaimAction::Refuse);
    assert_eq!(claim_action(MarkerState::Absent, true), ClaimAction::WriteMarker);
    assert_eq!(claim_action(MarkerState::File, false), ClaimAction::Proceed);
}

#[test]
fn clearing_removes_only_marked_directories() {
    assert_eq!(clear_action(false, false), ClearAction::Nothing);
    assert_eq!(clear_action(true, true), ClearAction::RemoveAll);
    assert_eq!(clear_action(true, false), ClearAction::Refuse);
}

#[test]
fn entries_of_another_schema_are_obsolete() {
    assert!(check_schema("/cache/metadata/a.json", CACHE_SCHEMA).is_ok());
    match check_schema("/cache/metadata/a.json", CACHE_SCHEMA + 1) {
        Err(CacheError::Obsolete { path, found_schema, current_schema }) => {
            assert_eq!(path, "/cache/metadata/a.json");
            assert_eq!(found_schema, CACHE_SCHEMA + 1);
            assert_eq!(current_schema, CACHE_SCHEMA);
        }
        other => panic!("unexpected {other:?}"),
    }
}

#[test]
fn only_yes_confirms_clearing_the_cache() {
    assert!(clear_confirmed("y"));
    assert!(clear_confirmed("  YES\n"));
    assert!(clear_confirmed("Yes"));
    assert!(!clear_confirmed(""));
    assert!(!clear_confirmed("n"));
    assert!(!clear_confirmed("yep"));
}

#[test]
fn status_is_read_only_and_clear_requires_ownership_marker() {
    let status = cache_status("/tmp/cache".into(), 1024, &Vec::new(), 0);
    assert_eq!(status.total_bytes, 0);
    assert_eq!(clear_action(true, false), ClearAction::Refuse);
}
