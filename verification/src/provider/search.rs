use vstd::prelude::*;

use crate::domain::{
    clone_opt_string, clone_strings, CandidateRelease, InspectedTrack, InspectedTrackV, Inspection,
    Position, SourceKind,
};
use crate::matching::strings_eq;
use crate::source::{AudioTags, InspectedAudio, SourceInspection};
use crate::text::{
    append, chars_of, collapse_whitespace, collapse_ws, decimal, leading_whitespace, owned,
    push_decimal, str_lowercase, text_eq, to_lowercase, trim_start_by, ws_sep,
};

verus! {

/// What the source's tags offer a metadata provider to search by.
#[derive(Clone, Debug, PartialEq, Eq)]
pub struct ProviderSearch {
    pub kind: SourceKind,
    pub album: Option<String>,
    pub artist: Option<String>,
    pub artist_ids: Vec<String>,
    pub album_artist_ids: Vec<String>,
    pub title: Option<String>,
    pub release_group_id: Option<String>,
    pub recording_ids: Vec<String>,
    pub track_count: usize,
}

/// Whether a search has enough to go on: a release group, a recording, or an
/// artist together with an album or title.
pub open spec fn usable_search(s: ProviderSearch) -> bool {
    ||| s.release_group_id is Some
    ||| s.recording_ids@.len() > 0
    ||| (s.artist is Some && (s.album is Some || s.title is Some))
}

impl ProviderSearch {
    /// Whether a provider can be asked with this search.
    pub fn is_usable(&self) -> (r: bool)
        ensures
            r == usable_search(*self),
    {
        self.release_group_id.is_some() || self.recording_ids.len() > 0 || (self.artist.is_some() && (
        self.album.is_some() || self.title.is_some()))
    }
}

/// A source of candidate releases.
pub trait MetadataProvider {
    fn search<Q: ProviderProgress>(
        &mut self,
        search: &ProviderSearch,
        progress: &mut Q,
    ) -> Result<ProviderSearchResult, ProviderError>;
}

/// A metadata provider with a record, kept in reasoning only, of every search it
/// was asked for and what it answered, in order. The provider itself can be
/// reached only through `search`, which adds to the record.
pub struct RecordedMetadataProvider<P> {
    provider: P,
    asked: Ghost<Seq<(ProviderSearch, Result<ProviderSearchResult, ProviderError>)>>,
}

impl<P: MetadataProvider> RecordedMetadataProvider<P> {
    /// `provider`, not yet asked for anything.
    pub fn new(provider: P) -> (r: Self)
        ensures
            r.asked().len() == 0,
    {
        RecordedMetadataProvider { provider, asked: Ghost(Seq::empty()) }
    }

    /// The searches the provider was asked for, each with its answer.
    pub closed spec fn asked(&self) -> Seq<(ProviderSearch, Result<ProviderSearchResult, ProviderError>)> {
        self.asked@
    }

    /// Asks the provider to search.
    pub fn search<Q: ProviderProgress>(&mut self, search: &ProviderSearch, progress: &mut Q) -> (r: Result<
        ProviderSearchResult,
        ProviderError,
    >)
        ensures
            final(self).asked() == old(self).asked().push((*search, r)),
    {
        let answer = self.provider.search(search, progress);
        self.asked = Ghost(self.asked@.push((*search, answer)));
        answer
    }
}

/// The candidates a provider found, with any warnings about the search.
#[derive(Debug, PartialEq, Eq)]
pub struct ProviderSearchResult {
    pub candidates: Vec<CandidateRelease>,
    pub warnings: Vec<String>,
}

impl Default for ProviderSearchResult {
    fn default() -> (r: Self)
        ensures
            r.candidates@.len() == 0,
            r.warnings@.len() == 0,
    {
        ProviderSearchResult { candidates: Vec::new(), warnings: Vec::new() }
    }
}

/// Receives what a provider is doing while it works.
pub trait ProviderProgress {
    fn event(&mut self, event: ProviderEvent) -> Result<(), ProviderError>;
}

impl ProviderProgress for () {
    fn event(&mut self, event: ProviderEvent) -> (r: Result<(), ProviderError>)
        ensures
            r is Ok,
    {
        Ok(())
    }
}

/// Something a provider reports while it works.
#[derive(Clone, Debug, PartialEq, Eq)]
pub enum ProviderEvent {
    Requesting(&'static str),
    Waiting { seconds: u64, reason: WaitReason },
}

/// Why a provider waits before its next request.
#[derive(Clone, Copy, Debug, PartialEq, Eq)]
pub enum WaitReason {
    RateLimit,
    Retry,
}

/// Why a provider search failed.
#[derive(Debug)]
pub enum ProviderError {
    InsufficientEvidence,
    Network(String),
    HttpStatus { operation: &'static str, status: u16 },
    InvalidResponse(String),
    Progress(String),
}

/// The message shown for a provider error.
pub open spec fn provider_error_text(e: ProviderError) -> Seq<char> {
    match e {
        ProviderError::InsufficientEvidence => "the source has too little metadata to search MusicBrainz"@,
        ProviderError::Network(m) => "provider request failed: "@ + m@,
        ProviderError::HttpStatus { operation, status } => operation@ + " returned HTTP "@ + decimal(status as nat),
        ProviderError::InvalidResponse(m) => "provider returned invalid data: "@ + m@,
        ProviderError::Progress(m) => "cannot report provider progress: "@ + m@,
    }
}

impl ProviderError {
    /// The message shown for this error.
    pub fn describe(&self) -> (r: String)
        ensures
            r@ == provider_error_text(*self),
    {
        match self {
            ProviderError::InsufficientEvidence => owned("the source has too little metadata to search MusicBrainz"),
            ProviderError::Network(m) => {
                let mut out = owned("provider request failed: ");
                append(&mut out, m.as_str());
                out
            },
            ProviderError::HttpStatus { operation, status } => {
                let mut out = owned(operation);
                append(&mut out, " returned HTTP ");
                push_decimal(&mut out, *status as u64);
                out
            },
            ProviderError::InvalidResponse(m) => {
                let mut out = owned("provider returned invalid data: ");
                append(&mut out, m.as_str());
                out
            },
            ProviderError::Progress(m) => {
                let mut out = owned("cannot report provider progress: ");
                append(&mut out, m.as_str());
                out
            },
        }
    }
}

// ---------------------------------------------------------------------------
// From tags to matching values
// ---------------------------------------------------------------------------

pub open spec fn is_digit(c: char) -> bool {
    '0' <= c && c <= '9'
}

pub open spec fn digit_value(c: char) -> int {
    c as int - '0' as int
}

/// `u16::from_str` on exactly four characters: four digits, or `+` and three digits.
pub open spec fn year_prefix(t: Seq<char>) -> Option<u16> {
    if t.len() < 4 {
        None
    } else if t[0] == '+' && is_digit(t[1]) && is_digit(t[2]) && is_digit(t[3]) {
        Some((digit_value(t[1]) * 100 + digit_value(t[2]) * 10 + digit_value(t[3])) as u16)
    } else if is_digit(t[0]) && is_digit(t[1]) && is_digit(t[2]) && is_digit(t[3]) {
        Some((digit_value(t[0]) * 1000 + digit_value(t[1]) * 100 + digit_value(t[2]) * 10 + digit_value(t[3])) as u16)
    } else {
        None
    }
}

/// The year a date tag starts with: its first four characters after leading
/// whitespace, read as a number.
pub open spec fn date_year(date: Option<Seq<char>>) -> Option<u16> {
    match date {
        None => None,
        Some(d) => year_prefix(trim_start_by(d, ws_sep())),
    }
}

/// The position from track and disc tags (disc 1 when absent); both must be
/// positive and fit in 16 bits.
pub open spec fn tag_position(track: Option<u32>, disc: Option<u32>) -> Option<Position> {
    match track {
        None => None,
        Some(t) => {
            let d: u32 = match disc {
                Some(d) => d,
                None => 1,
            };
            if 0 < t <= u16::MAX && 0 < d <= u16::MAX {
                Some(Position { disc: d as u16, track: t as u16 })
            } else {
                None
            }
        },
    }
}

/// Law: a missing disc tag reads as disc 1: a track tag alone gives the position
/// on disc 1, exactly as with a disc tag of 1; a present disc tag is taken as it
/// stands; and every position read has the tags' own disc and track numbers.
pub proof fn law_missing_disc_reads_as_disc_one(track: u32, disc: u32)
    ensures
        tag_position(Some(track), None) == tag_position(Some(track), Some(1)),
        0 < track <= u16::MAX ==> tag_position(Some(track), None) == Some(Position { disc: 1, track: track as u16 }),
        0 < track <= u16::MAX && 0 < disc <= u16::MAX ==> tag_position(Some(track), Some(disc)) == Some(
            Position { disc: disc as u16, track: track as u16 },
        ),
        tag_position(None, Some(disc)) is None,
        tag_position(Some(track), Some(disc)) matches Some(p) ==> p.disc as u32 == disc && p.track as u32 == track,
        tag_position(Some(track), None) matches Some(p) ==> p.disc == 1 && p.track as u32 == track,
{
}

/// How inspection's view of one audio file reads to the matcher.
pub open spec fn track_from_audio(a: InspectedAudio) -> InspectedTrackV {
    InspectedTrackV {
        source_name: a.relative_path@,
        title: a.tags.title.deep_view(),
        artist: a.tags.artist.deep_view(),
        album: a.tags.album.deep_view(),
        album_artist: a.tags.album_artist.deep_view(),
        artist_ids: a.tags.artist_ids.deep_view(),
        album_artist_ids: a.tags.album_artist_ids.deep_view(),
        compilation: a.tags.compilation,
        original_year: date_year(a.tags.date.deep_view()),
        position: tag_position(a.tags.track, a.tags.disc),
        duration_ms: a.properties.duration_ms,
        recording_id: a.tags.recording_id.deep_view(),
        release_group_id: a.tags.release_group_id.deep_view(),
    }
}

/// The matcher's tracks for a whole source.
pub open spec fn tracks_from_audio(audio: Seq<InspectedAudio>) -> Seq<InspectedTrackV> {
    audio.map_values(|a: InspectedAudio| track_from_audio(a))
}

/// The search comparison key: whitespace collapsed, then lowercased.
pub open spec fn search_key(s: Seq<char>) -> Seq<char> {
    str_lowercase(collapse_whitespace(s))
}

/// Which per-track value a search reads.
#[derive(Clone, Copy, Debug, PartialEq, Eq)]
pub enum SearchField {
    Album,
    Artist,
    ReleaseGroup,
    Recording,
}

/// A track's value for a search field; the artist is the album artist where there is one.
pub open spec fn search_value(t: InspectedTrackV, f: SearchField) -> Option<Seq<char>> {
    match f {
        SearchField::Album => t.album,
        SearchField::Artist => if t.album_artist is Some { t.album_artist } else { t.artist },
        SearchField::ReleaseGroup => t.release_group_id,
        SearchField::Recording => t.recording_id,
    }
}

/// The first track's value, when every track has a value with the same search key.
pub open spec fn shared_value(ts: Seq<InspectedTrackV>, f: SearchField) -> Option<Seq<char>> {
    if ts.len() > 0 && search_value(ts[0], f) is Some && (forall|i: int|
        0 <= i < ts.len() ==> (#[trigger] search_value(ts[i], f)) is Some && search_key(
            search_value(ts[i], f)->0,
        ) == search_key(search_value(ts[0], f)->0)) {
        search_value(ts[0], f)
    } else {
        None
    }
}

/// A track's artist identifiers, or its album-artist identifiers.
pub open spec fn id_list(t: InspectedTrackV, album_artist: bool) -> Seq<Seq<char>> {
    if album_artist { t.album_artist_ids } else { t.artist_ids }
}

/// The first track's identifier list when every track has exactly that list; otherwise empty.
pub open spec fn shared_ids(ts: Seq<InspectedTrackV>, album_artist: bool) -> Seq<Seq<char>> {
    if ts.len() > 0 && (forall|i: int| 0 <= i < ts.len() ==> #[trigger] id_list(ts[i], album_artist) == id_list(ts[0], album_artist)) {
        id_list(ts[0], album_artist)
    } else {
        Seq::empty()
    }
}

/// The values of `f` present among the first `n` tracks, in order.
pub open spec fn present_values(ts: Seq<InspectedTrackV>, f: SearchField, n: nat) -> Seq<Seq<char>>
    decreases n,
{
    if n == 0 {
        Seq::empty()
    } else {
        let before = present_values(ts, f, (n - 1) as nat);
        match search_value(ts[n - 1], f) {
            Some(v) => before.push(v),
            None => before,
        }
    }
}

/// The search a source's tracks make.
pub open spec fn search_matches(s: ProviderSearch, kind: SourceKind, ts: Seq<InspectedTrackV>) -> bool {
    &&& s.kind == kind
    &&& s.album.deep_view() == shared_value(ts, SearchField::Album)
    &&& s.artist.deep_view() == shared_value(ts, SearchField::Artist)
    &&& s.artist_ids.deep_view() == shared_ids(ts, false)
    &&& s.album_artist_ids.deep_view() == shared_ids(ts, true)
    &&& s.title.deep_view() == (if kind == SourceKind::LooseFile && ts.len() > 0 { ts[0].title } else { None })
    &&& s.release_group_id.deep_view() == shared_value(ts, SearchField::ReleaseGroup)
    &&& s.recording_ids.deep_view() == present_values(ts, SearchField::Recording, ts.len())
    &&& s.track_count == ts.len()
}

/// Whether two texts have the same search key.
fn same_search_key(a: &str, b: &str) -> (r: bool)
    ensures
        r == (search_key(a@) == search_key(b@)),
{
    let x = to_lowercase(collapse_ws(a).as_str());
    let y = to_lowercase(collapse_ws(b).as_str());
    text_eq(x.as_str(), y.as_str())
}

/// The year a date tag starts with.
pub fn original_year(tags: &AudioTags) -> (r: Option<u16>)
    ensures
        r == date_year(tags.date.deep_view()),
{
    let date = match &tags.date {
        Some(d) => d,
        None => return None,
    };
    let chars = chars_of(date.as_str());
    let start = leading_whitespace(&chars);
    let ghost t = trim_start_by(date@, ws_sep());
    assert(t =~= chars@.skip(start as int));
    if chars.len() - start < 4 {
        return None;
    }
    let c0 = chars[start];
    let c1 = chars[start + 1];
    let c2 = chars[start + 2];
    let c3 = chars[start + 3];
    assert(t[0] == c0 && t[1] == c1 && t[2] == c2 && t[3] == c3);
    let d1 = '0' <= c1 && c1 <= '9';
    let d2 = '0' <= c2 && c2 <= '9';
    let d3 = '0' <= c3 && c3 <= '9';
    if !(d1 && d2 && d3) {
        return None;
    }
    let v1 = (c1 as u32) - 48;
    let v2 = (c2 as u32) - 48;
    let v3 = (c3 as u32) - 48;
    if c0 == '+' {
        return Some((v1 * 100 + v2 * 10 + v3) as u16);
    }
    if !('0' <= c0 && c0 <= '9') {
        return None;
    }
    let v0 = (c0 as u32) - 48;
    Some((v0 * 1000 + v1 * 100 + v2 * 10 + v3) as u16)
}

/// The position that the track and disc tags give.
pub fn tag_position_of(tags: &AudioTags) -> (r: Option<Position>)
    ensures
        r == tag_position(tags.track, tags.disc),
{
    let track = match tags.track {
        Some(t) => t,
        None => return None,
    };
    let disc = match tags.disc {
        Some(d) => d,
        None => 1,
    };
    if 0 < track && track <= 65535 && 0 < disc && disc <= 65535 {
        Some(Position::new(disc as u16, track as u16))
    } else {
        None
    }
}

/// The matcher's view of one audio file.
fn inspected_track(audio: &InspectedAudio) -> (r: InspectedTrack)
    ensures
        r.deep_view() == track_from_audio(*audio),
{
    InspectedTrack {
        source_name: audio.relative_path.clone(),
        title: clone_opt_string(&audio.tags.title),
        artist: clone_opt_string(&audio.tags.artist),
        album: clone_opt_string(&audio.tags.album),
        album_artist: clone_opt_string(&audio.tags.album_artist),
        artist_ids: clone_strings(&audio.tags.artist_ids),
        album_artist_ids: clone_strings(&audio.tags.album_artist_ids),
        compilation: audio.tags.compilation,
        original_year: original_year(&audio.tags),
        position: tag_position_of(&audio.tags),
        duration_ms: audio.properties.duration_ms,
        recording_id: clone_opt_string(&audio.tags.recording_id),
        release_group_id: clone_opt_string(&audio.tags.release_group_id),
    }
}

/// A track's value for a search field.
fn search_value_of(t: &InspectedTrack, f: SearchField) -> (r: &Option<String>)
    ensures
        r.deep_view() == search_value(t.deep_view(), f),
{
    match f {
        SearchField::Album => &t.album,
        SearchField::Artist => if t.album_artist.is_some() { &t.album_artist } else { &t.artist },
        SearchField::ReleaseGroup => &t.release_group_id,
        SearchField::Recording => &t.recording_id,
    }
}

/// The value every track shares for `f`, by search key.
fn shared_value_of(tracks: &Vec<InspectedTrack>, f: SearchField) -> (r: Option<String>)
    ensures
        r.deep_view() == shared_value(tracks.deep_view(), f),
{
    let ghost ts = tracks.deep_view();
    if tracks.len() == 0 {
        return None;
    }
    let first = match search_value_of(&tracks[0], f) {
        Some(v) => v,
        None => return None,
    };
    assert(ts[0] == tracks@[0].deep_view());
    let mut i: usize = 0;
    while i < tracks.len()
        invariant
            i <= tracks@.len(),
            ts == tracks.deep_view(),
            search_value(ts[0], f) == Some(first@),
            forall|k: int| 0 <= k < i ==> (#[trigger] search_value(ts[k], f)) is Some && search_key(
                search_value(ts[k], f)->0,
            ) == search_key(first@),
        decreases tracks@.len() - i,
    {
        let value = search_value_of(&tracks[i], f);
        assert(ts[i as int] == tracks@[i as int].deep_view());
        let same = match value {
            Some(v) => same_search_key(v.as_str(), first.as_str()),
            None => false,
        };
        if !same {
            return None;
        }
        i = i + 1;
    }
    Some(first.clone())
}

/// The identifier list every track shares, or an empty list.
fn shared_ids_of(tracks: &Vec<InspectedTrack>, album_artist: bool) -> (r: Vec<String>)
    ensures
        r.deep_view() == shared_ids(tracks.deep_view(), album_artist),
{
    let ghost ts = tracks.deep_view();
    if tracks.len() == 0 {
        return Vec::new();
    }
    let first = if album_artist { &tracks[0].album_artist_ids } else { &tracks[0].artist_ids };
    assert(ts[0] == tracks@[0].deep_view());
    let mut i: usize = 0;
    while i < tracks.len()
        invariant
            i <= tracks@.len(),
            ts == tracks.deep_view(),
            id_list(ts[0], album_artist) == first.deep_view(),
            forall|k: int| 0 <= k < i ==> #[trigger] id_list(ts[k], album_artist) == id_list(ts[0], album_artist),
        decreases tracks@.len() - i,
    {
        let list = if album_artist { &tracks[i].album_artist_ids } else { &tracks[i].artist_ids };
        assert(ts[i as int] == tracks@[i as int].deep_view());
        if !strings_eq(list, first) {
            assert(id_list(ts[i as int], album_artist) != id_list(ts[0], album_artist));
            let empty: Vec<String> = Vec::new();
            assert(empty.deep_view() =~= Seq::<Seq<char>>::empty());
            return empty;
        }
        i = i + 1;
    }
    clone_strings(first)
}

/// The values of `f` that the tracks have, in track order.
fn present_values_of(tracks: &Vec<InspectedTrack>, f: SearchField) -> (r: Vec<String>)
    ensures
        r.deep_view() == present_values(tracks.deep_view(), f, tracks@.len()),
{
    let ghost ts = tracks.deep_view();
    let mut out: Vec<String> = Vec::new();
    let mut i: usize = 0;
    while i < tracks.len()
        invariant
            i <= tracks@.len(),
            ts == tracks.deep_view(),
            out.deep_view() == present_values(ts, f, i as nat),
        decreases tracks@.len() - i,
    {
        assert(ts[i as int] == tracks@[i as int].deep_view());
        match search_value_of(&tracks[i], f) {
            Some(v) => {
                let ghost before = out.deep_view();
                out.push(v.clone());
                assert(out.deep_view() =~= before.push(v@));
            },
            None => {},
        }
        i = i + 1;
    }
    out
}

/// The matcher's inspection and the provider search that a source inspection yields.
pub fn source_inspection(source: &SourceInspection) -> (r: (Inspection, ProviderSearch))
    ensures
        r.0.source_label@ == source.source@,
        r.0.kind == source.kind,
        r.0.tracks.deep_view() == tracks_from_audio(source.audio@),
        search_matches(r.1, source.kind, tracks_from_audio(source.audio@)),
{
    let mut tracks: Vec<InspectedTrack> = Vec::new();
    let mut i: usize = 0;
    while i < source.audio.len()
        invariant
            i <= source.audio@.len(),
            tracks@.len() == i,
            forall|k: int| 0 <= k < i ==> (#[trigger] tracks@[k]).deep_view() == track_from_audio(source.audio@[k]),
        decreases source.audio@.len() - i,
    {
        tracks.push(inspected_track(&source.audio[i]));
        i = i + 1;
    }
    assert(tracks.deep_view() =~= tracks_from_audio(source.audio@));
    let title = match source.kind {
        SourceKind::LooseFile => if tracks.len() > 0 {
            assert(tracks.deep_view()[0] == tracks@[0].deep_view());
            clone_opt_string(&tracks[0].title)
        } else {
            None
        },
        SourceKind::AlbumDirectory => None,
    };
    let search = ProviderSearch {
        kind: source.kind,
        album: shared_value_of(&tracks, SearchField::Album),
        artist: shared_value_of(&tracks, SearchField::Artist),
        artist_ids: shared_ids_of(&tracks, false),
        album_artist_ids: shared_ids_of(&tracks, true),
        title,
        release_group_id: shared_value_of(&tracks, SearchField::ReleaseGroup),
        recording_ids: present_values_of(&tracks, SearchField::Recording),
        track_count: tracks.len(),
    };
    let inspection = Inspection { source_label: source.source.clone(), kind: source.kind, tracks };
    (inspection, search)
}

} // verus!
