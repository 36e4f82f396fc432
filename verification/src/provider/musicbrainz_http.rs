use vstd::prelude::*;

use crate::provider::musicbrainz::{MusicBrainzHttp, ReleaseDetail};
use crate::provider::search::{ProviderError, ProviderProgress};

verus! {

/// A connection to MusicBrainz with a record, kept in reasoning only, of every
/// exchange made through it: each release-group search and each release browse,
/// its URL and what came back. The connection can be used only through the two
/// methods that add to the record.
pub struct RecordedHttp<H> {
    http: H,
    searches: Ghost<Seq<(Seq<char>, Result<Vec<String>, ProviderError>)>>,
    browses: Ghost<Seq<(Seq<char>, Result<Vec<ReleaseDetail>, ProviderError>)>>,
}

impl<H: MusicBrainzHttp> RecordedHttp<H> {
    /// `http`, with nothing exchanged yet.
    pub fn new(http: H) -> (r: Self)
        ensures
            r.searched().len() == 0,
            r.browsed().len() == 0,
            r.connection() == http,
    {
        RecordedHttp { http, searches: Ghost(Seq::empty()), browses: Ghost(Seq::empty()) }
    }

    /// The connection.
    pub closed spec fn connection(&self) -> H {
        self.http
    }

    /// The release-group searches made so far: URL and answer, in order.
    pub closed spec fn searched(&self) -> Seq<(Seq<char>, Result<Vec<String>, ProviderError>)> {
        self.searches@
    }

    /// The release browses made so far: URL and answer, in order.
    pub closed spec fn browsed(&self) -> Seq<(Seq<char>, Result<Vec<ReleaseDetail>, ProviderError>)> {
        self.browses@
    }

    /// The connection itself, to read.
    pub fn http(&self) -> (r: &H)
        ensures
            *r == self.connection(),
    {
        &self.http
    }

    /// The connection itself, once no more exchanges are needed.
    pub fn into_http(self) -> (r: H)
        ensures
            r == self.connection(),
    {
        self.http
    }

    /// Searches release groups at `url`.
    pub fn release_groups<Q: ProviderProgress>(&mut self, url: &str, operation: &'static str, progress: &mut Q) -> (r: Result<
        Vec<String>,
        ProviderError,
    >)
        ensures
            final(self).searched() == old(self).searched().push((url@, r)),
            final(self).browsed() == old(self).browsed(),
    {
        let answer = self.http.release_groups(url, operation, progress);
        self.searches = Ghost(self.searches@.push((url@, answer)));
        answer
    }

    /// Browses the releases at `url`.
    pub fn releases<Q: ProviderProgress>(&mut self, url: &str, operation: &'static str, progress: &mut Q) -> (r: Result<
        Vec<ReleaseDetail>,
        ProviderError,
    >)
        ensures
            final(self).browsed() == old(self).browsed().push((url@, r)),
            final(self).searched() == old(self).searched(),
    {
        let answer = self.http.releases(url, operation, progress);
        self.browses = Ghost(self.browses@.push((url@, answer)));
        answer
    }
}

} // verus!
