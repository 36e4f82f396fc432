use std::cell::Cell;
use std::rc::Rc;

use music_groomer::fingerprint::AudioFingerprint;
use music_groomer::provider::acoustid::{lookup_form, rejection};
use music_groomer::provider::acoustid_lookup::{
    AcoustIdCacheEntry, AcoustIdLookupOrigin, AcoustIdProvider, AcoustIdResolver,
};
use music_groomer::provider::cache::{freshness, CacheError, ProviderCache};
use music_groomer::provider::search::{ProviderError, ProviderProgress};

const DAY: u64 = 86_400;

/// An AcoustID answer as the service gives it: results with a score and recordings.
#[derive(Clone, Debug, Default, PartialEq)]
struct Response {
    results: Vec<(String, f64, Vec<String>)>,
}

struct FakeProvider {
    calls: Rc<Cell<usize>>,
    result: Option<Result<Response, ProviderError>>,
}

impl AcoustIdProvider for FakeProvider {
    type Response = Response;

    fn lookup<Q: ProviderProgress>(
        &mut self,
        _fingerprint: &AudioFingerprint,
        _progress: &mut Q,
    ) -> Result<Response, ProviderError> {
        self.calls.set(self.calls.get() + 1);
        self.result
            .take()
            .unwrap_or_else(|| Err(ProviderError::Network("fake result consumed".into())))
    }
}

fn fingerprint() -> AudioFingerprint {
    AudioFingerprint { duration_seconds: 180, value: "fingerprint".into() }
}

fn match_response() -> Response {
    Response { results: vec![("result".into(), 0.95, vec!["recording".into()])] }
}

fn stored_at_epoch(response: Response, now: u64) -> Result<Option<AcoustIdCacheEntry<Response>>, CacheError> {
    Ok(Some(AcoustIdCacheEntry { response, fetched_at: 0, freshness: freshness(0, now), maintenance_warning: None }))
}

fn resolver(calls: &Rc<Cell<usize>>, result: Result<Response, ProviderError>) -> AcoustIdResolver<FakeProvider> {
    AcoustIdResolver::new(
        FakeProvider { calls: calls.clone(), result: Some(result) },
        ProviderCache::new("cache".into(), 1024 * 1024),
    )
}

#[test]
fn fresh_no_match_bypasses_provider() {
    let calls = Rc::new(Cell::new(0));
    let mut resolver = resolver(&calls, Ok(match_response()));

    let (result, store) =
        resolver.lookup(&fingerprint(), false, false, stored_at_epoch(Response::default(), 0), &mut ());

    assert_eq!(result.origin, AcoustIdLookupOrigin::FreshCache);
    assert!(result.response.unwrap().results.is_empty());
    assert_eq!(calls.get(), 0);
    assert!(!store);
}

#[test]
fn offline_cache_miss_does_not_call_provider_or_create_cache() {
    let calls = Rc::new(Cell::new(0));
    let mut resolver = resolver(&calls, Ok(match_response()));

    let (result, store) = resolver.lookup(&fingerprint(), true, false, Ok(None), &mut ());

    assert_eq!(result.origin, AcoustIdLookupOrigin::OfflineMiss);
    assert_eq!(calls.get(), 0);
    assert!(!store);
}

#[test]
fn offline_mode_uses_stale_identification_without_provider() {
    let calls = Rc::new(Cell::new(0));
    let mut resolver = resolver(&calls, Err(ProviderError::Network("offline".into())));

    let (result, _) =
        resolver.lookup(&fingerprint(), true, false, stored_at_epoch(match_response(), 31 * DAY), &mut ());

    assert_eq!(result.origin, AcoustIdLookupOrigin::OfflineStaleCache);
    assert_eq!(calls.get(), 0);
}

#[test]
fn failed_refresh_uses_stale_identification_visibly() {
    let calls = Rc::new(Cell::new(0));
    let mut resolver = resolver(&calls, Err(ProviderError::Network("temporary outage".into())));

    let (result, store) =
        resolver.lookup(&fingerprint(), false, false, stored_at_epoch(match_response(), 31 * DAY), &mut ());

    assert_eq!(result.origin, AcoustIdLookupOrigin::StaleFallback);
    assert!(result.response.is_some());
    assert!(result.warnings[0].contains("using stale cached identification"));
    assert!(!store);
}

#[test]
fn failed_forced_refresh_describes_fresh_identification_accurately() {
    let calls = Rc::new(Cell::new(0));
    let mut resolver = resolver(&calls, Err(ProviderError::Network("temporary outage".into())));

    let (result, _) = resolver.lookup(&fingerprint(), false, true, stored_at_epoch(match_response(), 0), &mut ());

    assert_eq!(result.origin, AcoustIdLookupOrigin::FreshFallback);
    assert!(result.response.is_some());
    assert!(result.warnings[0].contains("using cached identification"));
    assert!(!result.warnings[0].contains("stale"));
}

#[test]
fn live_identification_is_returned_for_storing() {
    let calls = Rc::new(Cell::new(0));
    let mut resolver = resolver(&calls, Ok(match_response()));
    let cached = Err(CacheError::Damaged("cache/acoustid/entry.json".into(), "bad json".into()));

    let (result, store) = resolver.lookup(&fingerprint(), false, false, cached, &mut ());

    assert_eq!(result.origin, AcoustIdLookupOrigin::Live);
    assert_eq!(result.response, Some(match_response()));
    assert_eq!(
        result.warnings,
        vec!["Ignored damaged AcoustID cache entry cache/acoustid/entry.json: bad json".to_string()]
    );
    assert_eq!(calls.get(), 1);
    assert!(store);
}

#[test]
fn unavailable_service_without_cache_gives_no_identification() {
    let calls = Rc::new(Cell::new(0));
    let mut resolver = resolver(&calls, Err(ProviderError::Network("down".into())));

    let (result, store) = resolver.lookup(&fingerprint(), false, false, Ok(None), &mut ());

    assert_eq!(result.origin, AcoustIdLookupOrigin::ProviderUnavailable);
    assert_eq!(result.response, None);
    assert_eq!(
        result.warnings,
        vec!["AcoustID is unavailable and no cached identification exists: provider request failed: down".to_string()]
    );
    assert!(!store);
}

#[test]
fn sends_only_lookup_identity_and_maps_recording_associations() {
    let form = lookup_form(
        &AudioFingerprint { duration_seconds: 181, value: "A+/long fingerprint".into() },
        "0.1.0",
    );

    assert!(form.contains("client=5gtrNQDixK"));
    assert!(form.contains("clientversion=0.1.0"));
    assert!(form.contains("meta=recordingids"));
    assert!(form.contains("fingerprint=A%2B%2Flong%20fingerprint"));
    assert!(!form.contains("release"));
    assert_eq!(
        form,
        "client=5gtrNQDixK&clientversion=0.1.0&format=json&meta=recordingids&duration=181&fingerprint=A%2B%2Flong%20fingerprint"
    );
}

#[test]
fn rejected_lookups_explain_the_service_message() {
    assert!(rejection("ok", None).is_none());
    match rejection("error", Some("invalid fingerprint".into())) {
        Some(ProviderError::InvalidResponse(message)) => {
            assert_eq!(message, "AcoustID rejected the lookup: invalid fingerprint")
        }
        other => panic!("unexpected {other:?}"),
    }
    match rejection("error", None) {
        Some(ProviderError::InvalidResponse(message)) => assert_eq!(message, "AcoustID rejected the lookup: error"),
        other => panic!("unexpected {other:?}"),
    }
}

struct AskedProvider {
    asked: Rc<std::cell::RefCell<Vec<AudioFingerprint>>>,
}

impl AcoustIdProvider for AskedProvider {
    type Response = Response;

    fn lookup<Q: ProviderProgress>(
        &mut self,
        fingerprint: &AudioFingerprint,
        _progress: &mut Q,
    ) -> Result<Response, ProviderError> {
        self.asked.borrow_mut().push(fingerprint.clone());
        Ok(match_response())
    }
}

#[test]
fn the_provider_is_asked_about_the_callers_fingerprint() {
    let asked = Rc::new(std::cell::RefCell::new(Vec::new()));
    let mut resolver =
        AcoustIdResolver::new(AskedProvider { asked: asked.clone() }, ProviderCache::new("cache".into(), 1024 * 1024));

    let (result, store) = resolver.lookup(&fingerprint(), false, false, Ok(None), &mut ());

    assert_eq!(*asked.borrow(), vec![fingerprint()]);
    assert_eq!(result.origin, AcoustIdLookupOrigin::Live);
    assert_eq!(result.response, Some(match_response()));
    assert!(store);
}
