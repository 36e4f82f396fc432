use vstd::prelude::*;

use crate::provider::cache::{cache_error_text, CacheError, ProviderCache};
use crate::provider::cover_art_archive::{ArtworkProvider, RecordedArtworkProvider, ProviderArtwork};
use crate::provider::search::{provider_error_text, ProviderError, ProviderProgress};
use crate::text::{append, owned};

verus! {

/// Where a looked-up front cover came from.
#[derive(Clone, Copy, Debug, PartialEq, Eq, Structural)]
pub enum ArtworkLookupOrigin {
    Live,
    Refreshed,
    Cache,
    CacheFallback,
    OfflineCache,
    ProviderUnavailable,
}

/// The front cover a lookup settled on, where from, and what went wrong.
#[derive(Debug)]
pub struct ArtworkLookup {
    pub artwork: Option<ProviderArtwork>,
    pub origin: ArtworkLookupOrigin,
    pub warnings: Vec<String>,
}

/// The warnings that reading the artwork cache gave.
pub open spec fn artwork_cache_warnings(cached: Result<Option<ProviderArtwork>, CacheError>) -> Seq<Seq<char>> {
    match cached {
        Ok(_) => Seq::empty(),
        Err(CacheError::Damaged(path, message)) => seq!["Ignored damaged artwork cache entry "@ + path@ + ": "@ + message@],
        Err(e) => seq!["Could not read artwork cache: "@ + cache_error_text(e)],
    }
}

/// The cached cover, if reading the cache gave one.
pub open spec fn cached_cover(cached: Result<Option<ProviderArtwork>, CacheError>) -> Option<ProviderArtwork> {
    match cached {
        Ok(c) => c,
        Err(_) => None,
    }
}

/// The lookup when the archive answered with `answer`.
pub open spec fn artwork_after_provider(
    answer: Result<Option<ProviderArtwork>, ProviderError>,
    cached: Option<ProviderArtwork>,
    warnings: Seq<Seq<char>>,
    force_refresh: bool,
) -> (Option<ProviderArtwork>, ArtworkLookupOrigin, Seq<Seq<char>>) {
    match answer {
        Ok(artwork) => (artwork, if force_refresh { ArtworkLookupOrigin::Refreshed } else { ArtworkLookupOrigin::Live }, warnings),
        Err(e) => match cached {
            Some(c) => (
                Some(c),
                ArtworkLookupOrigin::CacheFallback,
                warnings.push("Cover Art Archive could not be refreshed ("@ + provider_error_text(e) + "); using cached artwork"@),
            ),
            None => (
                None,
                ArtworkLookupOrigin::ProviderUnavailable,
                warnings.push("Cover Art Archive is unavailable: "@ + provider_error_text(e)),
            ),
        },
    }
}

/// `r` is the lookup, and the flag whether to store, when the archive answered `answer`.
pub open spec fn answered_with(
    r: (ArtworkLookup, bool),
    answer: Result<Option<ProviderArtwork>, ProviderError>,
    cached: Option<ProviderArtwork>,
    warnings: Seq<Seq<char>>,
    force_refresh: bool,
) -> bool {
    &&& artwork_after_provider(answer, cached, warnings, force_refresh) == (r.0.artwork, r.0.origin, r.0.warnings.deep_view())
    &&& r.1 == (answer matches Ok(Some(_)))
}

/// Resolves front covers through a cache in front of the archive.
pub struct ArtworkResolver<P> {
    provider: RecordedArtworkProvider<P>,
    cache: ProviderCache,
}

impl<P: ArtworkProvider> ArtworkResolver<P> {
    /// A resolver that asks `provider` and keeps covers in `cache`.
    pub fn new(provider: P, cache: ProviderCache) -> (r: Self)
        ensures
            r.cache_view().root_view() == cache.root_view(),
            r.cache_view().max_bytes_view() == cache.max_bytes_view(),
            r.archive_requests_made().len() == 0,
    {
        ArtworkResolver { provider: RecordedArtworkProvider::new(provider), cache }
    }

    pub closed spec fn cache_view(&self) -> ProviderCache {
        self.cache
    }

    /// The release groups whose covers the archive was asked for through this
    /// resolver, in order, each with the archive's answer.
    pub closed spec fn archive_requests_made(&self) -> Seq<(Seq<char>, Result<Option<ProviderArtwork>, ProviderError>)> {
        self.provider.asked()
    }

    /// How many covers the archive has been asked for through this resolver.
    pub open spec fn archive_requests(&self) -> nat {
        self.archive_requests_made().len()
    }

    /// The cache this resolver keeps covers in.
    pub fn cache(&self) -> (r: &ProviderCache)
        ensures
            r.root_view() == self.cache_view().root_view(),
            r.max_bytes_view() == self.cache_view().max_bytes_view(),
    {
        &self.cache
    }

    /// Looks up the front cover of a release group, given what reading the cache
    /// returned: offline the cache answers; a cached cover answers unless a refresh is
    /// forced; otherwise the archive is asked, once, and, if it fails, a cached cover
    /// serves. When the cache answers the archive is not asked at all.
    /// The flag says whether a new cover came back to be stored.
    pub fn lookup<Q: ProviderProgress>(
        &mut self,
        release_group_id: &str,
        offline: bool,
        force_refresh: bool,
        cached: Result<Option<ProviderArtwork>, CacheError>,
        progress: &mut Q,
    ) -> (r: (ArtworkLookup, bool))
        ensures
            ({
                let warnings = artwork_cache_warnings(cached);
                let cover = cached_cover(cached);
                if offline {
                    r.0.artwork == cover && r.0.origin == ArtworkLookupOrigin::OfflineCache && r.0.warnings.deep_view() == warnings
                        && !r.1 && final(self).archive_requests_made() == old(self).archive_requests_made()
                } else if !force_refresh && cover is Some {
                    r.0.artwork == cover && r.0.origin == ArtworkLookupOrigin::Cache && r.0.warnings.deep_view() == warnings
                        && !r.1 && final(self).archive_requests_made() == old(self).archive_requests_made()
                } else {
                    let answer = final(self).archive_requests_made().last().1;
                    &&& final(self).archive_requests_made() == old(self).archive_requests_made().push((release_group_id@, answer))
                    &&& answered_with(r, answer, cover, warnings, force_refresh)
                }
            }),
    {
        let mut warnings: Vec<String> = Vec::new();
        let cover = match cached {
            Ok(c) => {
                assert(warnings.deep_view() =~= Seq::<Seq<char>>::empty());
                c
            },
            Err(CacheError::Damaged(path, message)) => {
                let mut text = owned("Ignored damaged artwork cache entry ");
                append(&mut text, path.as_str());
                append(&mut text, ": ");
                append(&mut text, message.as_str());
                let ghost t = text@;
                warnings.push(text);
                assert(warnings.deep_view() =~= seq![t]);
                None
            },
            Err(e) => {
                let mut text = owned("Could not read artwork cache: ");
                let d = e.describe();
                append(&mut text, d.as_str());
                let ghost t = text@;
                warnings.push(text);
                assert(warnings.deep_view() =~= seq![t]);
                None
            },
        };
        if offline {
            return (ArtworkLookup { artwork: cover, origin: ArtworkLookupOrigin::OfflineCache, warnings }, false);
        }
        if !force_refresh && cover.is_some() {
            return (ArtworkLookup { artwork: cover, origin: ArtworkLookupOrigin::Cache, warnings }, false);
        }
        let answer = self.provider.front(release_group_id, progress);
        assert(warnings.deep_view() == artwork_cache_warnings(cached));
        finish_artwork_lookup(answer, cover, warnings, force_refresh)
    }
}

/// Finishes a lookup with what the archive answered: a cover (or the news that
/// there is none) is the lookup's answer, new when asked to refresh; a failure
/// falls back to the cached cover, or to none, with a warning saying why.
pub fn finish_artwork_lookup(
    answer: Result<Option<ProviderArtwork>, ProviderError>,
    cover: Option<ProviderArtwork>,
    warnings: Vec<String>,
    force_refresh: bool,
) -> (r: (ArtworkLookup, bool))
    ensures
        answered_with(r, answer, cover, warnings.deep_view(), force_refresh),
{
    let mut warnings = warnings;
    let ghost w = warnings.deep_view();
    match answer {
        Ok(artwork) => {
            let store = artwork.is_some();
            let origin = if force_refresh { ArtworkLookupOrigin::Refreshed } else { ArtworkLookupOrigin::Live };
            (ArtworkLookup { artwork, origin, warnings }, store)
        },
        Err(e) => match cover {
            Some(c) => {
                let mut text = owned("Cover Art Archive could not be refreshed (");
                let d = e.describe();
                append(&mut text, d.as_str());
                append(&mut text, "); using cached artwork");
                let ghost t = text@;
                warnings.push(text);
                assert(warnings.deep_view() =~= w.push(t));
                (ArtworkLookup { artwork: Some(c), origin: ArtworkLookupOrigin::CacheFallback, warnings }, false)
            },
            None => {
                let mut text = owned("Cover Art Archive is unavailable: ");
                let d = e.describe();
                append(&mut text, d.as_str());
                let ghost t = text@;
                warnings.push(text);
                assert(warnings.deep_view() =~= w.push(t));
                (ArtworkLookup { artwork: None, origin: ArtworkLookupOrigin::ProviderUnavailable, warnings }, false)
            },
        },
    }
}

} // verus!
