use vstd::prelude::*;

use crate::fingerprint::AudioFingerprint;
use crate::provider::cache::{cache_error_text, CacheError, MetadataFreshness, ProviderCache};
use crate::provider::search::{provider_error_text, ProviderError, ProviderProgress};
use crate::text::{append, decimal, owned, push_decimal};

verus! {

/// A source of AcoustID answers for audio fingerprints. `Response` is the answer
/// the service gives; the lookup only carries it through.
pub trait AcoustIdProvider {
    type Response;

    fn lookup<Q: ProviderProgress>(
        &mut self,
        fingerprint: &AudioFingerprint,
        progress: &mut Q,
    ) -> Result<Self::Response, ProviderError>;
}

/// An AcoustID provider with a record, kept in reasoning only, of every
/// fingerprint it was asked about and what it answered, in order. The provider
/// itself can be reached only through `lookup`, which adds to the record.
pub struct RecordedAcoustIdProvider<P: AcoustIdProvider> {
    provider: P,
    asked: Ghost<Seq<(AudioFingerprint, Result<P::Response, ProviderError>)>>,
}

impl<P: AcoustIdProvider> RecordedAcoustIdProvider<P> {
    /// `provider`, not yet asked for anything.
    pub fn new(provider: P) -> (r: Self)
        ensures
            r.asked().len() == 0,
    {
        RecordedAcoustIdProvider { provider, asked: Ghost(Seq::empty()) }
    }

    /// The fingerprints the provider was asked about, each with its answer.
    pub closed spec fn asked(&self) -> Seq<(AudioFingerprint, Result<P::Response, ProviderError>)> {
        self.asked@
    }

    /// Asks the provider to identify a fingerprint.
    pub fn lookup<Q: ProviderProgress>(&mut self, fingerprint: &AudioFingerprint, progress: &mut Q) -> (r: Result<
        P::Response,
        ProviderError,
    >)
        ensures
            final(self).asked() == old(self).asked().push((*fingerprint, r)),
    {
        let answer = self.provider.lookup(fingerprint, progress);
        self.asked = Ghost(self.asked@.push((*fingerprint, answer)));
        answer
    }
}

/// A cached AcoustID answer, when it was fetched, and how fresh it is.
#[derive(Debug)]
pub struct AcoustIdCacheEntry<R> {
    pub response: R,
    pub fetched_at: u64,
    pub freshness: MetadataFreshness,
    pub maintenance_warning: Option<String>,
}

/// The answer an AcoustID lookup settled on, where from, and what went wrong.
#[derive(Debug)]
pub struct AcoustIdLookup<R> {
    pub response: Option<R>,
    pub origin: AcoustIdLookupOrigin,
    pub warnings: Vec<String>,
}

/// Where an AcoustID answer came from.
#[derive(Clone, Copy, Debug, PartialEq, Eq, Structural)]
pub enum AcoustIdLookupOrigin {
    Live,
    Refreshed,
    FreshCache,
    FreshFallback,
    StaleFallback,
    OfflineStaleCache,
    OfflineMiss,
    ProviderUnavailable,
}

/// The warnings that reading the AcoustID cache gave.
pub open spec fn acoustid_cache_warnings<R>(cached: Result<Option<AcoustIdCacheEntry<R>>, CacheError>) -> Seq<Seq<char>> {
    match cached {
        Ok(None) => Seq::empty(),
        Ok(Some(entry)) => match entry.maintenance_warning {
            Some(w) => seq!["Could not maintain provider cache: "@ + w@],
            None => Seq::empty(),
        },
        Err(CacheError::Obsolete { path, found_schema, current_schema }) => seq![
            "Ignored obsolete AcoustID cache entry "@ + path@ + " (schema "@ + decimal(found_schema as nat)
                + "; current schema "@ + decimal(current_schema as nat) + ")"@,
        ],
        Err(CacheError::Damaged(path, message)) => seq!["Ignored damaged AcoustID cache entry "@ + path@ + ": "@ + message@],
        Err(e) => seq!["Could not read AcoustID cache: "@ + cache_error_text(e)],
    }
}

/// The cached answer and its freshness, when reading the cache found one.
pub open spec fn acoustid_cached<R>(cached: Result<Option<AcoustIdCacheEntry<R>>, CacheError>) -> Option<(R, MetadataFreshness)> {
    match cached {
        Ok(Some(entry)) => Some((entry.response, entry.freshness)),
        _ => None,
    }
}

/// The lookup settled without asking the provider: offline, any cached answer or
/// nothing; online, a fresh answer unless a refresh is forced.
pub open spec fn acoustid_settled_from_cache<R>(
    entry: Option<(R, MetadataFreshness)>,
    warnings: Seq<Seq<char>>,
    offline: bool,
    force_refresh: bool,
) -> Option<(Option<R>, AcoustIdLookupOrigin, Seq<Seq<char>>)> {
    if offline {
        match entry {
            Some((response, MetadataFreshness::Fresh)) => Some((Some(response), AcoustIdLookupOrigin::FreshCache, warnings)),
            Some((response, MetadataFreshness::Stale)) => Some(
                (Some(response), AcoustIdLookupOrigin::OfflineStaleCache, warnings),
            ),
            None => Some((None, AcoustIdLookupOrigin::OfflineMiss, warnings)),
        }
    } else if !force_refresh && entry matches Some((_, MetadataFreshness::Fresh)) {
        Some((Some((entry->0).0), AcoustIdLookupOrigin::FreshCache, warnings))
    } else {
        None
    }
}

/// The lookup once the provider answered: its answer (to be cached) on success; on
/// failure the cached answer with a warning that says how fresh it is, or nothing.
pub open spec fn acoustid_after_provider<R>(
    answer: Result<R, ProviderError>,
    entry: Option<(R, MetadataFreshness)>,
    warnings: Seq<Seq<char>>,
    force_refresh: bool,
) -> ((Option<R>, AcoustIdLookupOrigin, Seq<Seq<char>>), bool) {
    match answer {
        Ok(response) => (
            (Some(response), if force_refresh { AcoustIdLookupOrigin::Refreshed } else { AcoustIdLookupOrigin::Live }, warnings),
            true,
        ),
        Err(error) => match entry {
            Some((response, MetadataFreshness::Fresh)) => (
                (
                    Some(response),
                    AcoustIdLookupOrigin::FreshFallback,
                    warnings.push("AcoustID could not be refreshed ("@ + provider_error_text(error) + "); using cached identification"@),
                ),
                false,
            ),
            Some((response, MetadataFreshness::Stale)) => (
                (
                    Some(response),
                    AcoustIdLookupOrigin::StaleFallback,
                    warnings.push(
                        "AcoustID could not be refreshed ("@ + provider_error_text(error) + "); using stale cached identification"@,
                    ),
                ),
                false,
            ),
            None => (
                (
                    None,
                    AcoustIdLookupOrigin::ProviderUnavailable,
                    warnings.push("AcoustID is unavailable and no cached identification exists: "@ + provider_error_text(error)),
                ),
                false,
            ),
        },
    }
}

/// A lookup's contents: answer, origin and warnings.
pub open spec fn acoustid_lookup_view<R>(l: AcoustIdLookup<R>) -> (Option<R>, AcoustIdLookupOrigin, Seq<Seq<char>>) {
    (l.response, l.origin, l.warnings.deep_view())
}

/// The warning added when storing a new AcoustID answer in the cache failed.
pub fn acoustid_cache_update_warning(error: &CacheError) -> (r: String)
    ensures
        r@ == "Could not update AcoustID cache: "@ + cache_error_text(*error),
{
    let mut out = owned("Could not update AcoustID cache: ");
    let text = error.describe();
    append(&mut out, text.as_str());
    out
}

/// Reads what the AcoustID cache gave: the usable answer and the warnings.
pub fn read_acoustid_cache<R>(cached: Result<Option<AcoustIdCacheEntry<R>>, CacheError>) -> (r: (
    Option<(R, MetadataFreshness)>,
    Vec<String>,
))
    ensures
        r.0 == acoustid_cached(cached),
        r.1.deep_view() == acoustid_cache_warnings(cached),
{
    let mut warnings: Vec<String> = Vec::new();
    match cached {
        Ok(None) => {
            assert(warnings.deep_view() =~= Seq::<Seq<char>>::empty());
            (None, warnings)
        },
        Ok(Some(entry)) => {
            match &entry.maintenance_warning {
                Some(w) => {
                    let mut text = owned("Could not maintain provider cache: ");
                    append(&mut text, w.as_str());
                    let ghost t = text@;
                    warnings.push(text);
                    assert(warnings.deep_view() =~= seq![t]);
                },
                None => {
                    assert(warnings.deep_view() =~= Seq::<Seq<char>>::empty());
                },
            }
            (Some((entry.response, entry.freshness)), warnings)
        },
        Err(CacheError::Obsolete { path, found_schema, current_schema }) => {
            let mut text = owned("Ignored obsolete AcoustID cache entry ");
            append(&mut text, path.as_str());
            append(&mut text, " (schema ");
            push_decimal(&mut text, found_schema as u64);
            append(&mut text, "; current schema ");
            push_decimal(&mut text, current_schema as u64);
            append(&mut text, ")");
            let ghost t = text@;
            warnings.push(text);
            assert(warnings.deep_view() =~= seq![t]);
            (None, warnings)
        },
        Err(CacheError::Damaged(path, message)) => {
            let mut text = owned("Ignored damaged AcoustID cache entry ");
            append(&mut text, path.as_str());
            append(&mut text, ": ");
            append(&mut text, message.as_str());
            let ghost t = text@;
            warnings.push(text);
            assert(warnings.deep_view() =~= seq![t]);
            (None, warnings)
        },
        Err(e) => {
            let mut text = owned("Could not read AcoustID cache: ");
            let d = e.describe();
            append(&mut text, d.as_str());
            let ghost t = text@;
            warnings.push(text);
            assert(warnings.deep_view() =~= seq![t]);
            (None, warnings)
        },
    }
}

/// Settles the lookup from the cache when it can; otherwise hands the cached answer
/// and the warnings back.
pub fn settle_acoustid_from_cache<R>(
    entry: Option<(R, MetadataFreshness)>,
    warnings: Vec<String>,
    offline: bool,
    force_refresh: bool,
) -> (r: Result<AcoustIdLookup<R>, (Option<(R, MetadataFreshness)>, Vec<String>)>)
    ensures
        match acoustid_settled_from_cache(entry, warnings.deep_view(), offline, force_refresh) {
            Some(l) => r matches Ok(lookup) && acoustid_lookup_view(lookup) == l,
            None => r matches Err(back) && back.0 == entry && back.1 == warnings,
        },
{
    if offline {
        return match entry {
            Some((response, MetadataFreshness::Fresh)) => Ok(
                AcoustIdLookup { response: Some(response), origin: AcoustIdLookupOrigin::FreshCache, warnings },
            ),
            Some((response, MetadataFreshness::Stale)) => Ok(
                AcoustIdLookup { response: Some(response), origin: AcoustIdLookupOrigin::OfflineStaleCache, warnings },
            ),
            None => Ok(AcoustIdLookup { response: None, origin: AcoustIdLookupOrigin::OfflineMiss, warnings }),
        };
    }
    if force_refresh {
        return Err((entry, warnings));
    }
    match entry {
        Some((response, MetadataFreshness::Fresh)) => Ok(
            AcoustIdLookup { response: Some(response), origin: AcoustIdLookupOrigin::FreshCache, warnings },
        ),
        other => Err((other, warnings)),
    }
}

/// The lookup once the provider answered, and whether its answer should be cached.
pub fn finish_acoustid_lookup<R>(
    answer: Result<R, ProviderError>,
    entry: Option<(R, MetadataFreshness)>,
    warnings: Vec<String>,
    force_refresh: bool,
) -> (r: (AcoustIdLookup<R>, bool))
    ensures
        ({
            let expected = acoustid_after_provider(answer, entry, warnings.deep_view(), force_refresh);
            acoustid_lookup_view(r.0) == expected.0 && r.1 == expected.1
        }),
{
    let mut warnings = warnings;
    match answer {
        Ok(response) => {
            let origin = if force_refresh { AcoustIdLookupOrigin::Refreshed } else { AcoustIdLookupOrigin::Live };
            (AcoustIdLookup { response: Some(response), origin, warnings }, true)
        },
        Err(error) => {
            let d = error.describe();
            let ghost before = warnings.deep_view();
            match entry {
                Some((response, freshness)) => {
                    let mut text = owned("AcoustID could not be refreshed (");
                    append(&mut text, d.as_str());
                    let origin = match freshness {
                        MetadataFreshness::Fresh => {
                            append(&mut text, "); using cached identification");
                            AcoustIdLookupOrigin::FreshFallback
                        },
                        MetadataFreshness::Stale => {
                            append(&mut text, "); using stale cached identification");
                            AcoustIdLookupOrigin::StaleFallback
                        },
                    };
                    let ghost t = text@;
                    warnings.push(text);
                    assert(warnings.deep_view() =~= before.push(t));
                    (AcoustIdLookup { response: Some(response), origin, warnings }, false)
                },
                None => {
                    let mut text = owned("AcoustID is unavailable and no cached identification exists: ");
                    append(&mut text, d.as_str());
                    let ghost t = text@;
                    warnings.push(text);
                    assert(warnings.deep_view() =~= before.push(t));
                    (AcoustIdLookup { response: None, origin: AcoustIdLookupOrigin::ProviderUnavailable, warnings }, false)
                },
            }
        },
    }
}

/// The lookup's result as a whole, for some answer of the provider.
pub open spec fn acoustid_answered<R>(
    r: (AcoustIdLookup<R>, bool),
    answer: Result<R, ProviderError>,
    entry: Option<(R, MetadataFreshness)>,
    warnings: Seq<Seq<char>>,
    force_refresh: bool,
) -> bool {
    let expected = acoustid_after_provider(answer, entry, warnings, force_refresh);
    acoustid_lookup_view(r.0) == expected.0 && r.1 == expected.1
}

/// Resolves fingerprints to AcoustID answers through a cache in front of a provider.
pub struct AcoustIdResolver<P: AcoustIdProvider> {
    provider: RecordedAcoustIdProvider<P>,
    cache: ProviderCache,
}

impl<P: AcoustIdProvider> AcoustIdResolver<P> {
    /// A resolver that asks `provider` and keeps answers in `cache`.
    pub fn new(provider: P, cache: ProviderCache) -> (r: Self)
        ensures
            r.cache_view().root_view() == cache.root_view(),
            r.cache_view().max_bytes_view() == cache.max_bytes_view(),
            r.provider_requests().len() == 0,
    {
        AcoustIdResolver { provider: RecordedAcoustIdProvider::new(provider), cache }
    }

    pub closed spec fn cache_view(&self) -> ProviderCache {
        self.cache
    }

    /// The fingerprints the provider was asked about through this resolver, in
    /// order, each with the provider's answer.
    pub closed spec fn provider_requests(&self) -> Seq<(AudioFingerprint, Result<P::Response, ProviderError>)> {
        self.provider.asked()
    }

    /// How many lookups the provider has been asked for through this resolver.
    pub open spec fn provider_lookups(&self) -> nat {
        self.provider_requests().len()
    }

    /// The cache this resolver keeps answers in.
    pub fn cache(&self) -> (r: &ProviderCache)
        ensures
            r.root_view() == self.cache_view().root_view(),
            r.max_bytes_view() == self.cache_view().max_bytes_view(),
    {
        &self.cache
    }
}

impl<P: AcoustIdProvider> AcoustIdResolver<P> {
    /// Looks up the AcoustID answer for `fingerprint`, given what reading the cache
    /// returned: offline or with a fresh answer (and no forced refresh) the cache
    /// answers and the provider is not asked at all; otherwise the provider is
    /// asked, once, and, if it fails, a cached answer serves. The flag says whether the answer is new and should be stored.
    pub fn lookup<Q: ProviderProgress>(
        &mut self,
        fingerprint: &AudioFingerprint,
        offline: bool,
        force_refresh: bool,
        cached: Result<Option<AcoustIdCacheEntry<P::Response>>, CacheError>,
        progress: &mut Q,
    ) -> (r: (AcoustIdLookup<P::Response>, bool))
        ensures
            ({
                let entry = acoustid_cached(cached);
                let warnings = acoustid_cache_warnings(cached);
                match acoustid_settled_from_cache(entry, warnings, offline, force_refresh) {
                    Some(l) => acoustid_lookup_view(r.0) == l && !r.1 && final(self).provider_requests() == old(self).provider_requests(),
                    None => {
                        let answer = final(self).provider_requests().last().1;
                        &&& final(self).provider_requests() == old(self).provider_requests().push((*fingerprint, answer))
                        &&& acoustid_answered(r, answer, entry, warnings, force_refresh)
                    },
                }
            }),
            offline ==> final(self).provider_requests() == old(self).provider_requests(),
    {
        let (entry, warnings) = read_acoustid_cache(cached);
        match settle_acoustid_from_cache(entry, warnings, offline, force_refresh) {
            Ok(lookup) => (lookup, false),
            Err((entry, warnings)) => {
                let answer = self.provider.lookup(fingerprint, progress);
                let ghost a = answer;
                let ghost e = entry;
                let ghost w = warnings.deep_view();
                let r = finish_acoustid_lookup(answer, entry, warnings, force_refresh);
                assert(acoustid_answered(r, a, e, w, force_refresh));
                r
            },
        }
    }
}

/// Law: offline, the AcoustID provider is never asked: the cache settles every lookup.
pub proof fn law_offline_identification_stays_in_the_cache<R>(
    entry: Option<(R, MetadataFreshness)>,
    warnings: Seq<Seq<char>>,
    force_refresh: bool,
)
    ensures
        acoustid_settled_from_cache(entry, warnings, true, force_refresh) is Some,
{
}

/// Law: when a refresh fails, a cached answer still serves, and the warning says
/// whether it was fresh or stale.
pub proof fn law_failed_refresh_keeps_cached_identification<R>(
    error: ProviderError,
    response: R,
    freshness: MetadataFreshness,
    warnings: Seq<Seq<char>>,
    force_refresh: bool,
)
    ensures
        ({
            let (l, store) = acoustid_after_provider(Err(error), Some((response, freshness)), warnings, force_refresh);
            &&& l.0 == Some(response)
            &&& !store
            &&& l.1 == (match freshness {
                MetadataFreshness::Fresh => AcoustIdLookupOrigin::FreshFallback,
                MetadataFreshness::Stale => AcoustIdLookupOrigin::StaleFallback,
            })
            &&& l.2.len() == warnings.len() + 1
        }),
{
}

} // verus!
