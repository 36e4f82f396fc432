use vstd::prelude::*;

use crate::domain::{CandidateRelease, CandidateReleaseV, clone_release_tracks};
use crate::provider::cache::{cache_error_text, CacheError, MetadataCacheEntry, MetadataFreshness, ProviderCache};
use crate::provider::search::{
    provider_error_text, RecordedMetadataProvider, MetadataProvider, ProviderError, ProviderProgress, ProviderSearch, ProviderSearchResult,
};
use crate::text::{append, decimal, owned, push_decimal};

verus! {

/// Where a metadata lookup's candidates came from.
#[derive(Clone, Copy, Debug, PartialEq, Eq, Structural)]
pub enum LookupOrigin {
    Live,
    Refreshed,
    FreshCache,
    StaleFallback,
    OfflineStaleCache,
    OfflineMiss,
    ProviderUnavailable,
}

/// The candidates a metadata lookup settled on, where from, and what went wrong.
#[derive(Debug)]
pub struct MetadataLookup {
    pub candidates: Vec<CandidateRelease>,
    pub origin: LookupOrigin,
    pub warnings: Vec<String>,
}

/// A lookup's contents: candidates, origin and warnings.
pub open spec fn lookup_view(l: MetadataLookup) -> (Seq<CandidateReleaseV>, LookupOrigin, Seq<Seq<char>>) {
    (l.candidates.deep_view(), l.origin, l.warnings.deep_view())
}

/// The warnings that reading the cache gave, and the entry it found (its candidates
/// and freshness) if it is usable.
pub open spec fn cache_reading(cached: Result<Option<MetadataCacheEntry>, CacheError>) -> (Option<(Seq<CandidateReleaseV>, MetadataFreshness)>, Seq<Seq<char>>) {
    match cached {
        Ok(None) => (None, Seq::empty()),
        Ok(Some(entry)) => (
            Some((entry.candidates.deep_view(), entry.freshness)),
            match entry.maintenance_warning {
                Some(w) => seq!["Could not maintain provider cache: "@ + w@],
                None => Seq::empty(),
            },
        ),
        Err(CacheError::Obsolete { path, found_schema, current_schema }) => (
            None,
            seq![
                "Ignored obsolete cache entry "@ + path@ + " (schema "@ + decimal(found_schema as nat) + "; current schema "@
                    + decimal(current_schema as nat) + ")"@,
            ],
        ),
        Err(CacheError::Damaged(path, message)) => (None, seq!["Ignored damaged cache entry "@ + path@ + ": "@ + message@]),
        Err(e) => (None, seq!["Could not read provider cache: "@ + cache_error_text(e)]),
    }
}

/// The lookup settled without asking the provider: offline, any cached entry (fresh
/// or stale) or nothing; online, a fresh entry unless a refresh is forced.
pub open spec fn settled_from_cache(
    entry: Option<(Seq<CandidateReleaseV>, MetadataFreshness)>,
    warnings: Seq<Seq<char>>,
    offline: bool,
    force_refresh: bool,
) -> Option<(Seq<CandidateReleaseV>, LookupOrigin, Seq<Seq<char>>)> {
    if offline {
        match entry {
            Some((candidates, MetadataFreshness::Fresh)) => Some((candidates, LookupOrigin::FreshCache, warnings)),
            Some((candidates, MetadataFreshness::Stale)) => Some((candidates, LookupOrigin::OfflineStaleCache, warnings)),
            None => Some((Seq::empty(), LookupOrigin::OfflineMiss, warnings)),
        }
    } else if !force_refresh && entry matches Some((candidates, MetadataFreshness::Fresh)) {
        Some(((entry->0).0, LookupOrigin::FreshCache, warnings))
    } else {
        None
    }
}

/// The lookup once the provider answered: its candidates (to be cached) on success;
/// on failure the cached entry with a warning, or nothing with a warning.
pub open spec fn after_provider(
    answer: Result<ProviderSearchResult, ProviderError>,
    entry: Option<(Seq<CandidateReleaseV>, MetadataFreshness)>,
    warnings: Seq<Seq<char>>,
    force_refresh: bool,
) -> ((Seq<CandidateReleaseV>, LookupOrigin, Seq<Seq<char>>), bool) {
    match answer {
        Ok(result) => (
            (
                result.candidates.deep_view(),
                if force_refresh { LookupOrigin::Refreshed } else { LookupOrigin::Live },
                warnings + result.warnings.deep_view(),
            ),
            true,
        ),
        Err(error) => match entry {
            Some((candidates, _)) => (
                (
                    candidates,
                    LookupOrigin::StaleFallback,
                    warnings.push("MusicBrainz could not be refreshed ("@ + provider_error_text(error) + "); using stale cached data"@),
                ),
                false,
            ),
            None => (
                (
                    Seq::empty(),
                    LookupOrigin::ProviderUnavailable,
                    warnings.push("MusicBrainz is unavailable and no cached result exists: "@ + provider_error_text(error)),
                ),
                false,
            ),
        },
    }
}

/// The warning added when updating the cache failed.
pub fn cache_update_warning(error: &CacheError) -> (r: String)
    ensures
        r@ == "Could not update provider cache: "@ + cache_error_text(*error),
{
    let mut out = owned("Could not update provider cache: ");
    let text = error.describe();
    append(&mut out, text.as_str());
    out
}

/// Reads what the cache gave: the usable entry and the warnings.
pub fn read_cache(cached: Result<Option<MetadataCacheEntry>, CacheError>) -> (r: (Option<MetadataCacheEntry>, Vec<String>))
    ensures
        r.1.deep_view() == cache_reading(cached).1,
        match r.0 {
            Some(entry) => cache_reading(cached).0 == Some((entry.candidates.deep_view(), entry.freshness)),
            None => cache_reading(cached).0 is None,
        },
{
    let mut warnings: Vec<String> = Vec::new();
    match cached {
        Ok(None) => {
            assert(warnings.deep_view() =~= Seq::<Seq<char>>::empty());
            (None, warnings)
        },
        Ok(Some(entry)) => {
            match &entry.maintenance_warning {
                Some(w) => {
                    let mut text = owned("Could not maintain provider cache: ");
                    append(&mut text, w.as_str());
                    warnings.push(text);
                    assert(warnings.deep_view() =~= seq!["Could not maintain provider cache: "@ + w@]);
                },
                None => {
                    assert(warnings.deep_view() =~= Seq::<Seq<char>>::empty());
                },
            }
            (Some(entry), warnings)
        },
        Err(CacheError::Obsolete { path, found_schema, current_schema }) => {
            let mut text = owned("Ignored obsolete cache entry ");
            append(&mut text, path.as_str());
            append(&mut text, " (schema ");
            push_decimal(&mut text, found_schema as u64);
            append(&mut text, "; current schema ");
            push_decimal(&mut text, current_schema as u64);
            append(&mut text, ")");
            let ghost t = text@;
            warnings.push(text);
            assert(warnings.deep_view() =~= seq![t]);
            (None, warnings)
        },
        Err(CacheError::Damaged(path, message)) => {
            let mut text = owned("Ignored damaged cache entry ");
            append(&mut text, path.as_str());
            append(&mut text, ": ");
            append(&mut text, message.as_str());
            let ghost t = text@;
            warnings.push(text);
            assert(warnings.deep_view() =~= seq![t]);
            (None, warnings)
        },
        Err(e) => {
            let mut text = owned("Could not read provider cache: ");
            let d = e.describe();
            append(&mut text, d.as_str());
            let ghost t = text@;
            warnings.push(text);
            assert(warnings.deep_view() =~= seq![t]);
            (None, warnings)
        },
    }
}

/// A copy of a list of candidates.
fn clone_candidates(v: &Vec<CandidateRelease>) -> (r: Vec<CandidateRelease>)
    ensures
        r.deep_view() == v.deep_view(),
{
    let mut out: Vec<CandidateRelease> = Vec::new();
    let mut i: usize = 0;
    while i < v.len()
        invariant
            i <= v@.len(),
            out@.len() == i,
            forall|k: int| 0 <= k < i ==> (#[trigger] out@[k]).deep_view() == v@[k].deep_view(),
        decreases v@.len() - i,
    {
        out.push(v[i].clone());
        i = i + 1;
    }
    assert(out.deep_view() =~= v.deep_view());
    out
}

/// Settles the lookup from the cache when it can.
pub fn settle_from_cache(entry: Option<MetadataCacheEntry>, warnings: Vec<String>, offline: bool, force_refresh: bool) -> (r: Result<
    MetadataLookup,
    (Option<MetadataCacheEntry>, Vec<String>),
>)
    ensures
        ({
            let e = match entry {
                Some(x) => Some((x.candidates.deep_view(), x.freshness)),
                None => None,
            };
            match settled_from_cache(e, warnings.deep_view(), offline, force_refresh) {
                Some(l) => r matches Ok(lookup) && lookup_view(lookup) == l,
                None => r matches Err(back) && back.0 == entry && back.1 == warnings,
            }
        }),
{
    if offline {
        return match entry {
            Some(x) => {
                let origin = match x.freshness {
                    MetadataFreshness::Fresh => LookupOrigin::FreshCache,
                    MetadataFreshness::Stale => LookupOrigin::OfflineStaleCache,
                };
                Ok(MetadataLookup { candidates: x.candidates, origin, warnings })
            },
            None => {
                let candidates: Vec<CandidateRelease> = Vec::new();
                assert(candidates.deep_view() =~= Seq::<CandidateReleaseV>::empty());
                Ok(MetadataLookup { candidates, origin: LookupOrigin::OfflineMiss, warnings })
            },
        };
    }
    let fresh = match &entry {
        Some(x) => x.freshness == MetadataFreshness::Fresh,
        None => false,
    };
    if !force_refresh && fresh {
        let candidates = match &entry {
            Some(x) => clone_candidates(&x.candidates),
            None => Vec::new(),
        };
        return Ok(MetadataLookup { candidates, origin: LookupOrigin::FreshCache, warnings });
    }
    Err((entry, warnings))
}

/// The lookup once the provider answered, and whether its candidates should be cached.
pub fn finish_after_provider(
    answer: Result<ProviderSearchResult, ProviderError>,
    entry: Option<MetadataCacheEntry>,
    warnings: Vec<String>,
    force_refresh: bool,
) -> (r: (MetadataLookup, bool))
    ensures
        ({
            let e = match entry {
                Some(x) => Some((x.candidates.deep_view(), x.freshness)),
                None => None,
            };
            let expected = after_provider(answer, e, warnings.deep_view(), force_refresh);
            lookup_view(r.0) == expected.0 && r.1 == expected.1
        }),
{
    let mut warnings = warnings;
    match answer {
        Ok(result) => {
            let ghost before = warnings.deep_view();
            let mut k: usize = 0;
            while k < result.warnings.len()
                invariant
                    k <= result.warnings@.len(),
                    warnings.deep_view() =~= before + result.warnings.deep_view().take(k as int),
                decreases result.warnings@.len() - k,
            {
                let ghost w = warnings.deep_view();
                warnings.push(result.warnings[k].clone());
                assert(warnings.deep_view() =~= w.push(result.warnings.deep_view()[k as int]));
                assert(result.warnings.deep_view().take(k + 1) =~= result.warnings.deep_view().take(k as int).push(result.warnings.deep_view()[k as int]));
                k = k + 1;
            }
            assert(result.warnings.deep_view().take(result.warnings@.len() as int) =~= result.warnings.deep_view());
            let origin = if force_refresh { LookupOrigin::Refreshed } else { LookupOrigin::Live };
            (MetadataLookup { candidates: result.candidates, origin, warnings }, true)
        },
        Err(error) => match entry {
            Some(x) => {
                let mut text = owned("MusicBrainz could not be refreshed (");
                let d = error.describe();
                append(&mut text, d.as_str());
                append(&mut text, "); using stale cached data");
                let ghost before = warnings.deep_view();
                let ghost t = text@;
                warnings.push(text);
                assert(warnings.deep_view() =~= before.push(t));
                (MetadataLookup { candidates: x.candidates, origin: LookupOrigin::StaleFallback, warnings }, false)
            },
            None => {
                let mut text = owned("MusicBrainz is unavailable and no cached result exists: ");
                let d = error.describe();
                append(&mut text, d.as_str());
                let ghost before = warnings.deep_view();
                let ghost t = text@;
                warnings.push(text);
                assert(warnings.deep_view() =~= before.push(t));
                let candidates: Vec<CandidateRelease> = Vec::new();
                assert(candidates.deep_view() =~= Seq::<CandidateReleaseV>::empty());
                (MetadataLookup { candidates, origin: LookupOrigin::ProviderUnavailable, warnings }, false)
            },
        },
    }
}

/// Resolves metadata searches through a cache in front of a provider.
pub struct MetadataResolver<P> {
    provider: RecordedMetadataProvider<P>,
    cache: ProviderCache,
}

impl<P: MetadataProvider> MetadataResolver<P> {
    /// A resolver that asks `provider` and keeps results in `cache`.
    pub fn new(provider: P, cache: ProviderCache) -> (r: Self)
        ensures
            r.cache_view().root_view() == cache.root_view(),
            r.cache_view().max_bytes_view() == cache.max_bytes_view(),
            r.provider_requests().len() == 0,
    {
        MetadataResolver { provider: RecordedMetadataProvider::new(provider), cache }
    }

    pub closed spec fn cache_view(&self) -> ProviderCache {
        self.cache
    }

    /// The searches the provider was asked for through this resolver, in order,
    /// each with the provider's answer.
    pub closed spec fn provider_requests(&self) -> Seq<(ProviderSearch, Result<ProviderSearchResult, ProviderError>)> {
        self.provider.asked()
    }

    /// How many searches the provider has been asked for through this resolver.
    pub open spec fn provider_searches(&self) -> nat {
        self.provider_requests().len()
    }

    /// The cache this resolver keeps results in.
    pub fn cache(&self) -> (r: &ProviderCache)
        ensures
            r.root_view() == self.cache_view().root_view(),
            r.max_bytes_view() == self.cache_view().max_bytes_view(),
    {
        &self.cache
    }

    /// Looks up candidates for `search`, given what reading the cache returned:
    /// offline or with a fresh entry (and no forced refresh) the cache answers;
    /// otherwise the provider is asked, once, with `search` itself, and its answer
    /// settles the lookup (if it fails, a cached entry serves).
    /// When the cache settles the lookup the provider is not asked at all.
    /// The flag says whether the candidates are new and should be stored.
    pub fn lookup<Q: ProviderProgress>(
        &mut self,
        search: &ProviderSearch,
        offline: bool,
        force_refresh: bool,
        cached: Result<Option<MetadataCacheEntry>, CacheError>,
        progress: &mut Q,
    ) -> (r: (MetadataLookup, bool))
        ensures
            ({
                let (entry, warnings) = cache_reading(cached);
                match settled_from_cache(entry, warnings, offline, force_refresh) {
                    Some(l) => lookup_view(r.0) == l && !r.1 && final(self).provider_requests() == old(self).provider_requests(),
                    None => {
                        let answer = final(self).provider_requests().last().1;
                        &&& final(self).provider_requests() == old(self).provider_requests().push((*search, answer))
                        &&& after_provider(answer, entry, warnings, force_refresh) == (lookup_view(r.0), r.1)
                    },
                }
            }),
            offline ==> final(self).provider_requests() == old(self).provider_requests(),
    {
        let (entry, warnings) = read_cache(cached);
        match settle_from_cache(entry, warnings, offline, force_refresh) {
            Ok(lookup) => (lookup, false),
            Err((entry, warnings)) => {
                let answer = self.provider.search(search, progress);
                let ghost a = answer;
                let ghost e = match entry {
                    Some(ref x) => Some((x.candidates.deep_view(), x.freshness)),
                    None => None,
                };
                let ghost w = warnings.deep_view();
                let r = finish_after_provider(answer, entry, warnings, force_refresh);
                assert(after_provider(a, e, w, force_refresh) == (lookup_view(r.0), r.1));
                r
            },
        }
    }
}

/// Law: offline, the provider is never asked: the cache settles every lookup.
pub proof fn law_offline_lookups_stay_in_the_cache(
    entry: Option<(Seq<CandidateReleaseV>, MetadataFreshness)>,
    warnings: Seq<Seq<char>>,
    force_refresh: bool,
)
    ensures
        settled_from_cache(entry, warnings, true, force_refresh) is Some,
{
}

/// Law: a fresh cached entry answers without the provider unless a refresh is forced.
pub proof fn law_fresh_cache_bypasses_provider(candidates: Seq<CandidateReleaseV>, warnings: Seq<Seq<char>>, offline: bool)
    ensures
        settled_from_cache(Some((candidates, MetadataFreshness::Fresh)), warnings, offline, false) == Some(
            (candidates, LookupOrigin::FreshCache, warnings),
        ),
{
}

} // verus!
