use std::cell::Cell;
use std::rc::Rc;

use music_groomer::domain::{ArtistCredit, CandidateRelease, Position, ReleaseKind, ReleaseTrack, SourceKind};
use music_groomer::provider::artwork_lookup::{ArtworkLookupOrigin, ArtworkResolver};
use music_groomer::provider::cache::{freshness, CacheError, MetadataCacheEntry, MetadataFreshness, ProviderCache};
use music_groomer::provider::cover_art_archive::{ArtworkProvider, ProviderArtwork};
use music_groomer::provider::lookup::{LookupOrigin, MetadataResolver};
use music_groomer::provider::search::{
    MetadataProvider, ProviderError, ProviderProgress, ProviderSearch, ProviderSearchResult,
};
use music_groomer::source::ArtworkFormat;

const DAY: u64 = 86_400;

struct FakeProvider {
    calls: Rc<Cell<usize>>,
    result: Option<Result<ProviderSearchResult, ProviderError>>,
}

impl MetadataProvider for FakeProvider {
    fn search<Q: ProviderProgress>(
        &mut self,
        _search: &ProviderSearch,
        _progress: &mut Q,
    ) -> Result<ProviderSearchResult, ProviderError> {
        self.calls.set(self.calls.get() + 1);
        self.result
            .take()
            .unwrap_or_else(|| Err(ProviderError::Network("fake result consumed".into())))
    }
}

fn search() -> ProviderSearch {
    ProviderSearch {
        kind: SourceKind::AlbumDirectory,
        album: Some("Album".into()),
        artist: Some("Artist".into()),
        artist_ids: Vec::new(),
        album_artist_ids: Vec::new(),
        title: None,
        release_group_id: None,
        recording_ids: Vec::new(),
        track_count: 1,
    }
}

fn candidate(key: &str) -> CandidateRelease {
    CandidateRelease {
        provider_key: key.into(),
        title: "Album".into(),
        album_artist: ArtistCredit::single("Artist"),
        original_year: Some(1970),
        kind: ReleaseKind::Album,
        tracks: vec![ReleaseTrack {
            title: "Track".into(),
            artist_credit: ArtistCredit::single("Artist"),
            position: Position::new(1, 1),
            duration_ms: 120_000,
            recording_id: Some("recording".into()),
        }],
        release_group_id: Some("group".into()),
        exact_release_id: None,
    }
}

/// What reading the cache gives for an entry stored at the epoch and read at `now`.
fn stored_at_epoch(key: &str, now: u64) -> Result<Option<MetadataCacheEntry>, CacheError> {
    Ok(Some(MetadataCacheEntry {
        candidates: vec![candidate(key)],
        fetched_at: 0,
        freshness: freshness(0, now),
        maintenance_warning: None,
    }))
}

fn cache() -> ProviderCache {
    ProviderCache::new("cache".into(), 1024 * 1024)
}

#[test]
fn fresh_cache_completely_bypasses_provider() {
    let calls = Rc::new(Cell::new(0));
    let provider = FakeProvider {
        calls: calls.clone(),
        result: Some(Ok(ProviderSearchResult { candidates: vec![candidate("live")], warnings: Vec::new() })),
    };
    let mut resolver = MetadataResolver::new(provider, cache());

    let (result, store) = resolver.lookup(&search(), false, false, stored_at_epoch("cached", 0), &mut ());

    assert_eq!(result.origin, LookupOrigin::FreshCache);
    assert_eq!(result.candidates[0].provider_key, "cached");
    assert_eq!(calls.get(), 0);
    assert!(!store);
}

#[test]
fn failed_refresh_keeps_stale_data_and_explains_it() {
    let calls = Rc::new(Cell::new(0));
    let provider = FakeProvider { calls: calls.clone(), result: Some(Err(ProviderError::Network("offline".into()))) };
    let mut resolver = MetadataResolver::new(provider, cache());
    let now = 31 * DAY;

    let (result, _) = resolver.lookup(&search(), false, false, stored_at_epoch("stale", now), &mut ());

    assert_eq!(result.origin, LookupOrigin::StaleFallback);
    assert_eq!(result.candidates[0].provider_key, "stale");
    assert!(result.warnings[0].contains("using stale cached data"));
}

#[test]
fn obsolete_schema_is_reported_without_calling_it_damaged() {
    let calls = Rc::new(Cell::new(0));
    let provider = FakeProvider {
        calls: calls.clone(),
        result: Some(Ok(ProviderSearchResult { candidates: vec![candidate("new")], warnings: Vec::new() })),
    };
    let mut resolver = MetadataResolver::new(provider, cache());
    let cached = Err(CacheError::Obsolete { path: "cache/metadata/entry.json".into(), found_schema: 2, current_schema: 3 });

    let (result, store) = resolver.lookup(&search(), false, false, cached, &mut ());

    assert!(result
        .warnings
        .iter()
        .any(|warning| warning.contains("obsolete cache entry") && !warning.contains("damaged")));
    assert_eq!(result.candidates[0].provider_key, "new");
    assert!(store);
}

#[test]
fn offline_mode_uses_stale_cache_without_provider_call() {
    let calls = Rc::new(Cell::new(0));
    let provider = FakeProvider {
        calls: calls.clone(),
        result: Some(Ok(ProviderSearchResult { candidates: vec![candidate("live")], warnings: Vec::new() })),
    };
    let mut resolver = MetadataResolver::new(provider, cache());
    let now = 31 * DAY;

    let (result, _) = resolver.lookup(&search(), true, false, stored_at_epoch("stale", now), &mut ());

    assert_eq!(result.origin, LookupOrigin::OfflineStaleCache);
    assert_eq!(calls.get(), 0);
}

#[test]
fn offline_miss_answers_nothing_without_provider_call() {
    let calls = Rc::new(Cell::new(0));
    let provider = FakeProvider { calls: calls.clone(), result: None };
    let mut resolver = MetadataResolver::new(provider, cache());

    let (result, store) = resolver.lookup(&search(), true, true, Ok(None), &mut ());

    assert_eq!(result.origin, LookupOrigin::OfflineMiss);
    assert!(result.candidates.is_empty());
    assert_eq!(calls.get(), 0);
    assert!(!store);
}

#[test]
fn forced_refresh_asks_the_provider_despite_a_fresh_entry() {
    let calls = Rc::new(Cell::new(0));
    let provider = FakeProvider {
        calls: calls.clone(),
        result: Some(Ok(ProviderSearchResult {
            candidates: vec![candidate("live")],
            warnings: vec!["provider warning".into()],
        })),
    };
    let mut resolver = MetadataResolver::new(provider, cache());

    let (result, store) = resolver.lookup(&search(), false, true, stored_at_epoch("cached", 0), &mut ());

    assert_eq!(result.origin, LookupOrigin::Refreshed);
    assert_eq!(result.candidates[0].provider_key, "live");
    assert_eq!(result.warnings, vec!["provider warning".to_string()]);
    assert_eq!(calls.get(), 1);
    assert!(store);
}

#[test]
fn unavailable_provider_without_cache_explains_it() {
    let calls = Rc::new(Cell::new(0));
    let provider = FakeProvider { calls: calls.clone(), result: Some(Err(ProviderError::Network("down".into()))) };
    let mut resolver = MetadataResolver::new(provider, cache());
    let cached = Err(CacheError::Damaged("cache/metadata/entry.json".into(), "bad json".into()));

    let (result, store) = resolver.lookup(&search(), false, false, cached, &mut ());

    assert_eq!(result.origin, LookupOrigin::ProviderUnavailable);
    assert!(result.candidates.is_empty());
    assert_eq!(
        result.warnings,
        vec![
            "Ignored damaged cache entry cache/metadata/entry.json: bad json".to_string(),
            "MusicBrainz is unavailable and no cached result exists: provider request failed: down".to_string(),
        ]
    );
    assert!(!store);
}

#[test]
fn stale_entry_online_asks_the_provider() {
    let calls = Rc::new(Cell::new(0));
    let provider = FakeProvider {
        calls: calls.clone(),
        result: Some(Ok(ProviderSearchResult { candidates: vec![candidate("live")], warnings: Vec::new() })),
    };
    let mut resolver = MetadataResolver::new(provider, cache());

    let (result, store) = resolver.lookup(&search(), false, false, stored_at_epoch("stale", 31 * DAY), &mut ());

    assert_eq!(result.origin, LookupOrigin::Live);
    assert_eq!(result.candidates[0].provider_key, "live");
    assert_eq!(calls.get(), 1);
    assert!(store);
}

#[test]
fn fresh_and_stale_entries_are_distinguished_with_controlled_time() {
    let now = 2_000_000_000;
    let stale_time = now + (music_groomer::provider::METADATA_FRESH_DAYS + 1) * DAY;

    assert_eq!(freshness(now, now), MetadataFreshness::Fresh);
    assert_eq!(freshness(now, stale_time), MetadataFreshness::Stale);
}

struct FakeArtworkProvider {
    calls: Rc<Cell<usize>>,
    result: Option<Result<Option<ProviderArtwork>, ProviderError>>,
}

impl ArtworkProvider for FakeArtworkProvider {
    fn front<Q: ProviderProgress>(
        &mut self,
        _release_group_id: &str,
        _progress: &mut Q,
    ) -> Result<Option<ProviderArtwork>, ProviderError> {
        self.calls.set(self.calls.get() + 1);
        self.result
            .take()
            .unwrap_or_else(|| Err(ProviderError::Network("fake result consumed".into())))
    }
}

fn artwork() -> ProviderArtwork {
    ProviderArtwork { bytes: vec![0x89, b'P', b'N', b'G'], format: ArtworkFormat::Png, dimensions: (2, 3) }
}

#[test]
fn cached_artwork_bypasses_archive() {
    let calls = Rc::new(Cell::new(0));
    let provider = FakeArtworkProvider { calls: calls.clone(), result: Some(Ok(None)) };
    let mut resolver = ArtworkResolver::new(provider, cache());

    let (result, store) = resolver.lookup("group", false, false, Ok(Some(artwork())), &mut ());

    assert_eq!(result.origin, ArtworkLookupOrigin::Cache);
    assert!(result.artwork.is_some());
    assert_eq!(calls.get(), 0);
    assert!(!store);
}

#[test]
fn failed_archive_refresh_falls_back_to_cached_artwork() {
    let calls = Rc::new(Cell::new(0));
    let provider = FakeArtworkProvider { calls: calls.clone(), result: Some(Err(ProviderError::Network("down".into()))) };
    let mut resolver = ArtworkResolver::new(provider, cache());

    let (result, store) = resolver.lookup("group", false, true, Ok(Some(artwork())), &mut ());

    assert_eq!(result.origin, ArtworkLookupOrigin::CacheFallback);
    assert_eq!(result.artwork, Some(artwork()));
    assert_eq!(
        result.warnings,
        vec!["Cover Art Archive could not be refreshed (provider request failed: down); using cached artwork".to_string()]
    );
    assert_eq!(calls.get(), 1);
    assert!(!store);
}

struct AskedMetadataProvider {
    asked: Rc<std::cell::RefCell<Vec<ProviderSearch>>>,
}

impl MetadataProvider for AskedMetadataProvider {
    fn search<Q: ProviderProgress>(
        &mut self,
        search: &ProviderSearch,
        _progress: &mut Q,
    ) -> Result<ProviderSearchResult, ProviderError> {
        self.asked.borrow_mut().push(search.clone());
        Ok(ProviderSearchResult { candidates: vec![candidate("live")], warnings: vec!["partial".into()] })
    }
}

#[test]
fn the_provider_is_asked_with_the_callers_search_and_its_answer_is_used() {
    let asked = Rc::new(std::cell::RefCell::new(Vec::new()));
    let mut resolver = MetadataResolver::new(AskedMetadataProvider { asked: asked.clone() }, cache());
    let mut wanted = search();
    wanted.artist_ids = vec!["artist-id".into()];
    wanted.release_group_id = Some("group".into());

    let (result, store) = resolver.lookup(&wanted, false, false, Ok(None), &mut ());

    assert_eq!(*asked.borrow(), vec![wanted]);
    assert_eq!(result.origin, LookupOrigin::Live);
    assert_eq!(result.candidates[0].provider_key, "live");
    assert_eq!(result.warnings, vec!["partial".to_string()]);
    assert!(store);
}

struct AskedArtworkProvider {
    asked: Rc<std::cell::RefCell<Vec<String>>>,
}

impl ArtworkProvider for AskedArtworkProvider {
    fn front<Q: ProviderProgress>(
        &mut self,
        release_group_id: &str,
        _progress: &mut Q,
    ) -> Result<Option<ProviderArtwork>, ProviderError> {
        self.asked.borrow_mut().push(release_group_id.to_string());
        Ok(Some(artwork()))
    }
}

#[test]
fn the_archive_is_asked_for_the_requested_release_group() {
    let asked = Rc::new(std::cell::RefCell::new(Vec::new()));
    let mut resolver = ArtworkResolver::new(AskedArtworkProvider { asked: asked.clone() }, cache());

    let (result, store) = resolver.lookup("group-42", false, false, Ok(None), &mut ());

    assert_eq!(*asked.borrow(), vec!["group-42".to_string()]);
    assert_eq!(result.origin, ArtworkLookupOrigin::Live);
    assert_eq!(result.artwork, Some(artwork()));
    assert!(store);
}
