use vstd::prelude::*;

use crate::domain::{
    clone_opt_string, clone_strings,
    ArtistCredit, ArtistCreditV, ArtistV, Artist, CandidateRelease, CandidateReleaseV, Position, ReleaseKind,
    ReleaseKindV, ReleaseTrack, ReleaseTrackV, SourceKind,
};
use crate::provider::search::{usable_search, ProviderError, ProviderProgress, ProviderSearch, ProviderSearchResult};
use crate::provider::search::year_prefix;
use crate::provider::{collapse_equivalent, distinct_results, has_equivalent};
use crate::provider::musicbrainz_http::RecordedHttp;
use crate::matching::opt_text_eq;
use crate::text::{append, chars_of, eq_ignore_ascii_case, owned, push_char, text_eq, text_eq_ignore_ascii_case, utf8, utf8_bytes};

verus! {

/// How many release groups one discovery follows at most.
pub const DISCOVERY_GROUP_LIMIT: usize = 8;

// ---------------------------------------------------------------------------
// What MusicBrainz answers
// ---------------------------------------------------------------------------

/// The artist behind one part of an artist credit.
#[derive(Debug)]
pub struct CreditArtist {
    pub id: String,
    pub name: String,
}

/// One part of an artist credit: the credited name, the text that joins it to the
/// next part, and the artist.
#[derive(Debug)]
pub struct CreditPart {
    pub name: String,
    pub joinphrase: String,
    pub artist: CreditArtist,
}

/// A recording, as a release's track refers to it.
#[derive(Debug)]
pub struct Recording {
    pub id: String,
    pub title: String,
    pub length: Option<u64>,
    pub artist_credit: Vec<CreditPart>,
}

/// One track of a medium.
#[derive(Debug)]
pub struct Track {
    pub position: Option<usize>,
    pub title: Option<String>,
    pub length: Option<u64>,
    pub artist_credit: Vec<CreditPart>,
    pub recording: Recording,
}

/// One medium (disc) of a release.
#[derive(Debug)]
pub struct Medium {
    pub position: Option<usize>,
    pub tracks: Vec<Track>,
}

/// The release group a release belongs to.
#[derive(Debug)]
pub struct ReleaseGroup {
    pub id: String,
    pub title: String,
    pub artist_credit: Vec<CreditPart>,
    pub first_release_date: Option<String>,
    pub primary_type: String,
}

/// One release that a browse answered with.
#[derive(Debug)]
pub struct ReleaseDetail {
    pub id: String,
    pub status: String,
    pub release_group: Option<ReleaseGroup>,
    pub media: Vec<Medium>,
}

// ---------------------------------------------------------------------------
// Requests
// ---------------------------------------------------------------------------

/// Whether a byte stays as it is in a URL component: ASCII letters and digits and
/// `-`, `.`, `_`, `~`.
pub open spec fn url_safe(b: u8) -> bool {
    (0x30 <= b <= 0x39) || (0x41 <= b <= 0x5a) || (0x61 <= b <= 0x7a) || b == 0x2d || b == 0x2e || b == 0x5f || b == 0x7e
}

/// The uppercase hexadecimal digit for `d < 16`.
pub open spec fn upper_hex(d: u8) -> char {
    if d < 10 { ((0x30u8 + d) as u8) as char } else { ((0x37u8 + d) as u8) as char }
}

/// Percent-encoding of bytes: a safe byte stands as its character, any other byte
/// as `%` and its two uppercase hexadecimal digits.
pub open spec fn percent_encoded(bytes: Seq<u8>) -> Seq<char>
    decreases bytes.len(),
{
    if bytes.len() == 0 {
        Seq::empty()
    } else {
        let b = bytes.last();
        percent_encoded(bytes.drop_last()) + if url_safe(b) {
            seq![b as char]
        } else {
            seq!['%', upper_hex(b / 16), upper_hex(b % 16)]
        }
    }
}

/// Calls `urlencoding::encode`, which percent-encodes every byte of the text's UTF-8
/// form except ASCII alphanumerics and `-`, `_`, `.`, `~` (uppercase hexadecimal).
#[verifier::external_body]
pub(crate) fn url_encode(text: &str) -> (r: String)
    ensures
        r@ == percent_encoded(utf8(text@)),
{
    urlencoding::encode(text).into_owned()
}

/// Quotes and backslashes would end or escape a quoted search term: each becomes a space.
pub open spec fn escaped_text(s: Seq<char>) -> Seq<char> {
    s.map_values(|c: char| if c == '\\' || c == '"' { ' ' } else { c })
}

/// A search term with its quotes and backslashes replaced by spaces.
pub fn escaped(value: &str) -> (r: String)
    ensures
        r@ == escaped_text(value@),
{
    let chars = chars_of(value);
    let mut out = String::new();
    let mut i: usize = 0;
    while i < chars.len()
        invariant
            i <= chars@.len(),
            chars@ == value@,
            out@ == escaped_text(value@.take(i as int)),
        decreases chars@.len() - i,
    {
        let c = chars[i];
        let e = if c == '\\' || c == '"' { ' ' } else { c };
        push_char(&mut out, e);
        i = i + 1;
        assert(escaped_text(value@.take(i as int)) =~= escaped_text(value@.take(i - 1)).push(e));
    }
    assert(value@.take(chars@.len() as int) =~= value@);
    out
}

/// The title a search looks for: for a loose file its title before its album, for
/// an album directory the other way round.
pub open spec fn search_title(s: ProviderSearch) -> Option<Seq<char>> {
    let (first, second) = if s.kind == SourceKind::LooseFile { (s.title, s.album) } else { (s.album, s.title) };
    match first {
        Some(t) => Some(t@),
        None => match second {
            Some(t) => Some(t@),
            None => None,
        },
    }
}

/// The artist identifier a search narrows by: the first album artist's, else the
/// first track artist's.
pub open spec fn search_artist_id(s: ProviderSearch) -> Option<Seq<char>> {
    if s.album_artist_ids@.len() > 0 {
        Some(s.album_artist_ids@[0]@)
    } else if s.artist_ids@.len() > 0 {
        Some(s.artist_ids@[0]@)
    } else {
        None
    }
}

/// The release-group query for a search: the title and artist as quoted terms and,
/// when asked for and known, the artist identifier. None without a title or artist.
pub open spec fn release_group_query(s: ProviderSearch, include_artist_id: bool) -> Option<Seq<char>> {
    match (search_title(s), s.artist) {
        (Some(title), Some(artist)) => {
            let base = "releasegroup:\""@ + escaped_text(title) + "\" AND artist:\""@ + escaped_text(artist@) + "\""@;
            Some(
                if include_artist_id && search_artist_id(s) is Some {
                    base + " AND arid:"@ + search_artist_id(s)->0
                } else {
                    base
                },
            )
        },
        _ => None,
    }
}

/// The release-group search URL for a query.
pub open spec fn release_group_search_url(query: Seq<char>) -> Seq<char> {
    "https://musicbrainz.org/ws/2/release-group/?query="@ + percent_encoded(utf8(query)) + "&fmt=json&limit=8"@
}

/// The URL of the release-group search for `search`; a search without a title or
/// without an artist has too little to go on.
pub fn textual_search_url(search: &ProviderSearch, include_artist_id: bool) -> (r: Result<String, ProviderError>)
    ensures
        match release_group_query(*search, include_artist_id) {
            Some(q) => r matches Ok(url) && url@ == release_group_search_url(q),
            None => r matches Err(ProviderError::InsufficientEvidence),
        },
{
    let loose = match search.kind {
        SourceKind::LooseFile => true,
        SourceKind::AlbumDirectory => false,
    };
    let (first, second) = if loose { (&search.title, &search.album) } else { (&search.album, &search.title) };
    let title = match first {
        Some(t) => t,
        None => match second {
            Some(t) => t,
            None => return Err(ProviderError::InsufficientEvidence),
        },
    };
    let artist = match &search.artist {
        Some(a) => a,
        None => return Err(ProviderError::InsufficientEvidence),
    };
    let mut query = owned("releasegroup:\"");
    let t = escaped(title.as_str());
    append(&mut query, t.as_str());
    append(&mut query, "\" AND artist:\"");
    let a = escaped(artist.as_str());
    append(&mut query, a.as_str());
    append(&mut query, "\"");
    if include_artist_id {
        if search.album_artist_ids.len() > 0 {
            append(&mut query, " AND arid:");
            append(&mut query, search.album_artist_ids[0].as_str());
        } else if search.artist_ids.len() > 0 {
            append(&mut query, " AND arid:");
            append(&mut query, search.artist_ids[0].as_str());
        }
    }
    let mut url = owned("https://musicbrainz.org/ws/2/release-group/?query=");
    let encoded = url_encode(query.as_str());
    append(&mut url, encoded.as_str());
    append(&mut url, "&fmt=json&limit=8");
    Ok(url)
}

/// The URL that browses the releases of a release group.
pub fn browse_group_url(group_id: &str) -> (r: String)
    ensures
        r@ == "https://musicbrainz.org/ws/2/release?release-group="@ + group_id@
            + "&inc=artist-credits+recordings+release-groups&fmt=json&limit=100"@,
{
    let mut url = owned("https://musicbrainz.org/ws/2/release?release-group=");
    append(&mut url, group_id);
    append(&mut url, "&inc=artist-credits+recordings+release-groups&fmt=json&limit=100");
    url
}

/// The URL that browses the releases holding a recording.
pub fn browse_recording_url(recording_id: &str) -> (r: String)
    ensures
        r@ == "https://musicbrainz.org/ws/2/release?recording="@ + recording_id@
            + "&inc=artist-credits+recordings+release-groups&fmt=json&limit=100"@,
{
    let mut url = owned("https://musicbrainz.org/ws/2/release?recording=");
    append(&mut url, recording_id);
    append(&mut url, "&inc=artist-credits+recordings+release-groups&fmt=json&limit=100");
    url
}

// ---------------------------------------------------------------------------
// From a release to a candidate
// ---------------------------------------------------------------------------

/// The text an artist credit shows: each part's name followed by its join phrase.
pub open spec fn credit_display(parts: Seq<CreditPart>) -> Seq<char>
    decreases parts.len(),
{
    if parts.len() == 0 {
        Seq::empty()
    } else {
        credit_display(parts.drop_last()) + parts.last().name@ + parts.last().joinphrase@
    }
}

/// The artists of an artist credit, each with its MusicBrainz identifier.
pub open spec fn credit_artists(parts: Seq<CreditPart>) -> Seq<ArtistV> {
    parts.map_values(|p: CreditPart| ArtistV { name: p.artist.name@, musicbrainz_id: Some(p.artist.id@) })
}

/// The artist credit that credit parts make; none without parts.
pub open spec fn credit_of(parts: Seq<CreditPart>) -> Option<ArtistCreditV> {
    if parts.len() == 0 {
        None
    } else {
        Some(ArtistCreditV { display: credit_display(parts), artists: credit_artists(parts) })
    }
}

/// The MusicBrainz identifier of the "Various Artists" pseudo-artist.
pub open spec fn various_artists_id() -> Seq<char> {
    "89ad4ac3-39f7-470e-963a-56509c546377"@
}

/// Whether a credit names only the "Various Artists" pseudo-artist.
pub open spec fn credits_various_artists(c: ArtistCreditV) -> bool {
    c.artists.len() == 1 && c.artists[0].musicbrainz_id == Some(various_artists_id())
}

/// The kind of a release: a compilation when credited to various artists, else by
/// the group's primary type, compared without ASCII case.
pub open spec fn kind_of(primary_type: Seq<char>, credit: ArtistCreditV) -> ReleaseKindV {
    if credits_various_artists(credit) {
        ReleaseKindV::Compilation
    } else if eq_ignore_ascii_case(primary_type, "album"@) {
        ReleaseKindV::Album
    } else if eq_ignore_ascii_case(primary_type, "single"@) {
        ReleaseKindV::Single
    } else if eq_ignore_ascii_case(primary_type, "ep"@) {
        ReleaseKindV::Ep
    } else {
        ReleaseKindV::Other(primary_type)
    }
}

/// The year a first-release date starts with, when its first four characters read
/// as a number.
pub open spec fn year_of(date: Option<String>) -> Option<u16> {
    match date {
        Some(d) => year_prefix(d@),
        None => None,
    }
}

/// The disc number of the `i`-th medium: its own position, else its place.
pub open spec fn disc_number(m: Medium, i: int) -> int {
    match m.position {
        Some(p) => p as int,
        None => i + 1,
    }
}

/// The number of the `j`-th track of a medium: its own position, else its place.
pub open spec fn track_number(t: Track, j: int) -> int {
    match t.position {
        Some(p) => p as int,
        None => j + 1,
    }
}

/// Whether a medium's disc and track numbers all fit in sixteen bits.
pub open spec fn medium_fits(m: Medium, i: int) -> bool {
    &&& disc_number(m, i) <= u16::MAX
    &&& forall|j: int| 0 <= j < m.tracks@.len() ==> #[trigger] track_number(m.tracks@[j], j) <= u16::MAX
}

/// Whether every medium's numbers fit in sixteen bits.
pub open spec fn media_fit(media: Seq<Medium>) -> bool {
    forall|i: int| 0 <= i < media.len() ==> #[trigger] medium_fits(media[i], i)
}

/// A candidate track from a release track: the release's title and credit before
/// the recording's (the album credit last), the release's length before the
/// recording's (zero when neither is known), and the recording's identifier.
pub open spec fn track_of(t: Track, disc: u16, number: u16, album: ArtistCreditV) -> ReleaseTrackV {
    ReleaseTrackV {
        title: match t.title {
            Some(x) => x@,
            None => t.recording.title@,
        },
        artist_credit: match credit_of(t.artist_credit@) {
            Some(c) => c,
            None => match credit_of(t.recording.artist_credit@) {
                Some(c) => c,
                None => album,
            },
        },
        position: Position { disc, track: number },
        duration_ms: match t.length {
            Some(l) => l,
            None => match t.recording.length {
                Some(l) => l,
                None => 0,
            },
        },
        recording_id: Some(t.recording.id@),
    }
}

/// The candidate tracks of the `i`-th medium.
pub open spec fn medium_tracks(m: Medium, i: int, album: ArtistCreditV) -> Seq<ReleaseTrackV> {
    Seq::new(
        m.tracks@.len(),
        |j: int| track_of(m.tracks@[j], disc_number(m, i) as u16, track_number(m.tracks@[j], j) as u16, album),
    )
}

/// The candidate tracks of all media, medium by medium.
pub open spec fn media_tracks(media: Seq<Medium>, album: ArtistCreditV) -> Seq<ReleaseTrackV>
    decreases media.len(),
{
    if media.len() == 0 {
        Seq::empty()
    } else {
        media_tracks(media.drop_last(), album) + medium_tracks(media.last(), media.len() - 1, album)
    }
}

/// The candidate a release stands for: none without a release group, without an
/// album credit, with a disc or track number beyond sixteen bits, or without tracks.
pub open spec fn candidate_of(d: ReleaseDetail) -> Option<CandidateReleaseV> {
    match d.release_group {
        None => None,
        Some(group) => match credit_of(group.artist_credit@) {
            None => None,
            Some(album) => if !media_fit(d.media@) || media_tracks(d.media@, album).len() == 0 {
                None
            } else {
                Some(
                    CandidateReleaseV {
                        provider_key: d.id@,
                        title: group.title@,
                        album_artist: album,
                        original_year: year_of(group.first_release_date),
                        kind: kind_of(group.primary_type@, album),
                        tracks: media_tracks(d.media@, album),
                        release_group_id: Some(group.id@),
                        exact_release_id: None,
                    },
                )
            },
        },
    }
}

/// The artist credit that credit parts make; none without parts.
pub fn artist_credit(parts: &Vec<CreditPart>) -> (r: Option<ArtistCredit>)
    ensures
        r.deep_view() == credit_of(parts@),
{
    if parts.len() == 0 {
        return None;
    }
    let mut display = String::new();
    let mut artists: Vec<Artist> = Vec::new();
    let mut i: usize = 0;
    while i < parts.len()
        invariant
            i <= parts@.len(),
            display@ == credit_display(parts@.take(i as int)),
            artists.deep_view() == credit_artists(parts@.take(i as int)),
        decreases parts@.len() - i,
    {
        let part = &parts[i];
        append(&mut display, part.name.as_str());
        append(&mut display, part.joinphrase.as_str());
        let artist = Artist { name: part.artist.name.clone(), musicbrainz_id: Some(part.artist.id.clone()) };
        let ghost before = artists.deep_view();
        let ghost av = artist.deep_view();
        artists.push(artist);
        assert(artists.deep_view() =~= before.push(av));
        i = i + 1;
        assert(parts@.take(i as int).drop_last() =~= parts@.take(i - 1));
        assert(artists.deep_view() =~= credit_artists(parts@.take(i as int)));
    }
    assert(parts@.take(parts@.len() as int) =~= parts@);
    Some(ArtistCredit { display, artists })
}

/// Whether a credit names only the "Various Artists" pseudo-artist.
pub fn is_various_artists(credit: &ArtistCredit) -> (r: bool)
    ensures
        r == credits_various_artists(credit.deep_view()),
{
    if credit.artists.len() != 1 {
        return false;
    }
    match &credit.artists[0].musicbrainz_id {
        Some(id) => {
            let r = text_eq(id.as_str(), "89ad4ac3-39f7-470e-963a-56509c546377");
            assert(credit.deep_view().artists[0] == credit.artists@[0].deep_view());
            r
        },
        None => {
            assert(credit.deep_view().artists[0] == credit.artists@[0].deep_view());
            false
        },
    }
}

/// The kind of a release group with its album credit.
pub fn release_kind(group: &ReleaseGroup, credit: &ArtistCredit) -> (r: ReleaseKind)
    ensures
        r.deep_view() == kind_of(group.primary_type@, credit.deep_view()),
{
    if is_various_artists(credit) {
        ReleaseKind::Compilation
    } else if text_eq_ignore_ascii_case(group.primary_type.as_str(), "album") {
        ReleaseKind::Album
    } else if text_eq_ignore_ascii_case(group.primary_type.as_str(), "single") {
        ReleaseKind::Single
    } else if text_eq_ignore_ascii_case(group.primary_type.as_str(), "ep") {
        ReleaseKind::Ep
    } else {
        ReleaseKind::Other(group.primary_type.clone())
    }
}

/// `t` with its ASCII capitals lowered.
pub open spec fn ascii_folded(t: Seq<char>) -> Seq<char> {
    t.map_values(|c: char| crate::text::ascii_lower(c))
}

proof fn lemma_folded_word(word: Seq<char>)
    requires
        forall|i: int| 0 <= i < word.len() ==> 'a' <= #[trigger] word[i] && word[i] <= 'z',
    ensures
        ascii_folded(word) == word,
{
    assert(ascii_folded(word) =~= word);
}

/// Law: a release's kind does not depend on the ASCII case of the group's primary
/// type: any spelling of "album", "single" or "ep" (such as MusicBrainz's own
/// "Single") gives that kind, unless the release is credited to various artists,
/// and any other primary type is kept, as written, as an unusual kind.
pub proof fn law_release_kind_ignores_ascii_case(t: Seq<char>, credit: ArtistCreditV)
    ensures
        credits_various_artists(credit) ==> kind_of(t, credit) == ReleaseKindV::Compilation,
        !credits_various_artists(credit) && ascii_folded(t) == "album"@ ==> kind_of(t, credit) == ReleaseKindV::Album,
        !credits_various_artists(credit) && ascii_folded(t) == "single"@ ==> kind_of(t, credit) == ReleaseKindV::Single,
        !credits_various_artists(credit) && ascii_folded(t) == "ep"@ ==> kind_of(t, credit) == ReleaseKindV::Ep,
        !credits_various_artists(credit) && ascii_folded(t) != "album"@ && ascii_folded(t) != "single"@
            && ascii_folded(t) != "ep"@ ==> kind_of(t, credit) == ReleaseKindV::Other(t),
        kind_of(ascii_folded(t), credit) is Album <==> kind_of(t, credit) is Album,
        kind_of(ascii_folded(t), credit) is Single <==> kind_of(t, credit) is Single,
        kind_of(ascii_folded(t), credit) is Ep <==> kind_of(t, credit) is Ep,
{
    reveal_strlit("album");
    reveal_strlit("single");
    reveal_strlit("ep");
    lemma_folded_word("album"@);
    lemma_folded_word("single"@);
    lemma_folded_word("ep"@);
    assert(ascii_folded(ascii_folded(t)) =~= ascii_folded(t));
}

/// Whether `c` is an ASCII digit.
fn is_digit_char(c: char) -> (r: bool)
    ensures
        r == crate::provider::search::is_digit(c),
{
    '0' <= c && c <= '9'
}

/// The value of an ASCII digit.
fn digit_of(c: char) -> (r: u16)
    requires
        crate::provider::search::is_digit(c),
    ensures
        r == crate::provider::search::digit_value(c),
{
    (c as u32 - '0' as u32) as u16
}

/// The year a first-release date starts with, when its first four characters read
/// as a number.
pub fn year(value: &Option<String>) -> (r: Option<u16>)
    ensures
        r == year_of(*value),
{
    let text = match value {
        Some(t) => t,
        None => return None,
    };
    let chars = chars_of(text.as_str());
    if chars.len() < 4 {
        return None;
    }
    let (c0, c1, c2, c3) = (chars[0], chars[1], chars[2], chars[3]);
    if !(is_digit_char(c1) && is_digit_char(c2) && is_digit_char(c3)) {
        return None;
    }
    let low = digit_of(c1) * 100 + digit_of(c2) * 10 + digit_of(c3);
    if c0 == '+' {
        Some(low)
    } else if is_digit_char(c0) {
        Some(digit_of(c0) * 1000 + low)
    } else {
        None
    }
}

impl ReleaseDetail {
    /// Whether the release's status is "official", compared without ASCII case.
    pub fn is_official(&self) -> (r: bool)
        ensures
            r == eq_ignore_ascii_case(self.status@, "official"@),
    {
        text_eq_ignore_ascii_case(self.status.as_str(), "official")
    }
}

/// The candidate track of one release track.
fn candidate_track(t: &Track, disc: u16, number: u16, album: &ArtistCredit) -> (r: ReleaseTrack)
    ensures
        r.deep_view() == track_of(*t, disc, number, album.deep_view()),
{
    let title = match &t.title {
        Some(x) => x.clone(),
        None => t.recording.title.clone(),
    };
    let artist_credit = match artist_credit(&t.artist_credit) {
        Some(c) => c,
        None => match artist_credit(&t.recording.artist_credit) {
            Some(c) => c,
            None => album.clone(),
        },
    };
    let duration_ms = match t.length {
        Some(l) => l,
        None => match t.recording.length {
            Some(l) => l,
            None => 0,
        },
    };
    ReleaseTrack {
        title,
        artist_credit,
        position: Position::new(disc, number),
        duration_ms,
        recording_id: Some(t.recording.id.clone()),
    }
}

impl ReleaseDetail {
    /// The candidate this release stands for, if it can stand for one.
    pub fn into_candidate(self) -> (r: Option<CandidateRelease>)
        ensures
            r.deep_view() == candidate_of(self),
    {
        self.to_candidate()
    }

    /// The candidate this release stands for, if it can stand for one.
    pub fn to_candidate(&self) -> (r: Option<CandidateRelease>)
        ensures
            r.deep_view() == candidate_of(*self),
    {
        let group = match &self.release_group {
            Some(g) => g,
            None => return None,
        };
        let album = match artist_credit(&group.artist_credit) {
            Some(c) => c,
            None => return None,
        };
        let ghost av = album.deep_view();
        let kind = release_kind(group, &album);
        let mut tracks: Vec<ReleaseTrack> = Vec::new();
        let mut i: usize = 0;
        assert(self.media@.take(0) =~= Seq::<Medium>::empty());
        while i < self.media.len()
            invariant
                i <= self.media@.len(),
                av == album.deep_view(),
                media_fit(self.media@.take(i as int)),
                tracks.deep_view() == media_tracks(self.media@.take(i as int), av),
            decreases self.media@.len() - i,
        {
            let medium = &self.media[i];
            let disc_index: usize = match medium.position {
                Some(p) => p,
                None => i + 1,
            };
            if disc_index > 65535 {
                assert(!medium_fits(self.media@[i as int], i as int));
                return None;
            }
            let disc = disc_index as u16;
            let ghost before = tracks.deep_view();
            let mut j: usize = 0;
            while j < medium.tracks.len()
                invariant
                    i < self.media@.len(),
                    *medium == self.media@[i as int],
                    j <= medium.tracks@.len(),
                    disc as int == disc_number(*medium, i as int),
                    forall|k: int| 0 <= k < j ==> #[trigger] track_number(medium.tracks@[k], k) <= u16::MAX,
                    tracks.deep_view() == before + medium_tracks(*medium, i as int, av).take(j as int),
                    av == album.deep_view(),
                decreases medium.tracks@.len() - j,
            {
                let t = &medium.tracks[j];
                let number_index: usize = match t.position {
                    Some(p) => p,
                    None => j + 1,
                };
                if number_index > 65535 {
                    assert(track_number(medium.tracks@[j as int], j as int) > u16::MAX);
                    assert(!medium_fits(self.media@[i as int], i as int));
                    return None;
                }
                let track = candidate_track(t, disc, number_index as u16, &album);
                let ghost tv = track.deep_view();
                let ghost w = tracks.deep_view();
                tracks.push(track);
                assert(tracks.deep_view() =~= w.push(tv));
                j = j + 1;
                assert(medium_tracks(*medium, i as int, av).take(j as int) =~= medium_tracks(*medium, i as int, av).take(
                    j - 1,
                ).push(tv));
            }
            assert(medium_tracks(*medium, i as int, av).take(j as int) =~= medium_tracks(*medium, i as int, av));
            let ghost next = self.media@.take(i + 1);
            assert(next.drop_last() =~= self.media@.take(i as int));
            assert(next.last() == self.media@[i as int]);
            assert forall|k: int| 0 <= k < i + 1 implies #[trigger] medium_fits(next[k], k) by {
                if k < i {
                    assert(next[k] == self.media@.take(i as int)[k]);
                    assert(medium_fits(self.media@.take(i as int)[k], k));
                }
            }
            i = i + 1;
        }
        assert(self.media@.take(self.media@.len() as int) =~= self.media@);
        if tracks.len() == 0 {
            return None;
        }
        let provider_key = self.id.clone();
        let title = group.title.clone();
        let original_year = year(&group.first_release_date);
        let release_group_id = Some(group.id.clone());
        Some(
            CandidateRelease {
                provider_key,
                title,
                album_artist: album,
                original_year,
                kind,
                tracks,
                release_group_id,
                exact_release_id: None,
            },
        )
    }
}

// ---------------------------------------------------------------------------
// Which releases become candidates
// ---------------------------------------------------------------------------

/// How many tracks a release's media hold together.
pub open spec fn total_tracks(media: Seq<Medium>) -> nat
    decreases media.len(),
{
    if media.len() == 0 {
        0
    } else {
        total_tracks(media.drop_last()) + media.last().tracks@.len()
    }
}

/// Whether a release can stand for the searched source: it is official and, for an
/// album directory, holds exactly as many tracks as the source.
pub open spec fn compatible_release(s: ProviderSearch, d: ReleaseDetail) -> bool {
    &&& eq_ignore_ascii_case(d.status@, "official"@)
    &&& (s.kind == SourceKind::LooseFile || total_tracks(d.media@) == s.track_count)
}

/// The candidates of the compatible releases, in order; a release that maps to no
/// candidate is passed over.
pub open spec fn compatible_candidates(s: ProviderSearch, releases: Seq<ReleaseDetail>) -> Seq<CandidateReleaseV>
    decreases releases.len(),
{
    if releases.len() == 0 {
        Seq::empty()
    } else {
        let before = compatible_candidates(s, releases.drop_last());
        let d = releases.last();
        if compatible_release(s, d) && candidate_of(d) is Some {
            before.push(candidate_of(d)->0)
        } else {
            before
        }
    }
}

/// What every candidate of a search holds: a release group, no exact release, some
/// tracks and, for an album directory, as many tracks as the source.
pub open spec fn compatible_candidate(s: ProviderSearch, c: CandidateReleaseV) -> bool {
    &&& c.release_group_id is Some
    &&& c.exact_release_id is None
    &&& c.tracks.len() > 0
    &&& (s.kind == SourceKind::AlbumDirectory ==> c.tracks.len() == s.track_count)
}

/// A release's media give one candidate track per track.
pub proof fn lemma_media_tracks_len(media: Seq<Medium>, album: ArtistCreditV)
    ensures
        media_tracks(media, album).len() == total_tracks(media),
    decreases media.len(),
{
    if media.len() > 0 {
        lemma_media_tracks_len(media.drop_last(), album);
    }
}

/// Every candidate of compatible releases has the shape a search promises.
pub proof fn lemma_compatible_candidates_shape(s: ProviderSearch, releases: Seq<ReleaseDetail>)
    ensures
        forall|k: int|
            0 <= k < compatible_candidates(s, releases).len() ==> compatible_candidate(
                s,
                #[trigger] compatible_candidates(s, releases)[k],
            ),
    decreases releases.len(),
{
    if releases.len() > 0 {
        let before = compatible_candidates(s, releases.drop_last());
        lemma_compatible_candidates_shape(s, releases.drop_last());
        let d = releases.last();
        if compatible_release(s, d) && candidate_of(d) is Some {
            let group = d.release_group->0;
            let album = credit_of(group.artist_credit@)->0;
            lemma_media_tracks_len(d.media@, album);
            let c = candidate_of(d)->0;
            assert(compatible_candidate(s, c));
            assert forall|k: int| 0 <= k < before.len() + 1 implies compatible_candidate(s, #[trigger] before.push(c)[k]) by {
                if k < before.len() {
                    assert(before.push(c)[k] == before[k]);
                }
            }
        }
    }
}

/// Whether the release's media hold exactly `count` tracks.
fn holds_track_count(detail: &ReleaseDetail, count: usize) -> (r: bool)
    ensures
        r == (total_tracks(detail.media@) == count),
{
    let mut sum: usize = 0;
    let mut i: usize = 0;
    while i < detail.media.len()
        invariant
            i <= detail.media@.len(),
            sum == total_tracks(detail.media@.take(i as int)),
            sum <= count,
        decreases detail.media@.len() - i,
    {
        let n = detail.media[i].tracks.len();
        assert(detail.media@.take(i + 1).drop_last() =~= detail.media@.take(i as int));
        if n > count - sum {
            proof {
                lemma_total_tracks_grows(detail.media@, i + 1);
            }
            return false;
        }
        sum = sum + n;
        i = i + 1;
    }
    assert(detail.media@.take(detail.media@.len() as int) =~= detail.media@);
    sum == count
}

/// The tracks of all media are at least those of the first `i`.
proof fn lemma_total_tracks_grows(media: Seq<Medium>, i: int)
    requires
        0 <= i <= media.len(),
    ensures
        total_tracks(media.take(i)) <= total_tracks(media),
    decreases media.len(),
{
    if i < media.len() {
        lemma_total_tracks_grows(media.drop_last(), i);
        assert(media.drop_last().take(i) =~= media.take(i));
    } else {
        assert(media.take(i) =~= media);
    }
}

/// Appends the candidates of the compatible releases among `releases`.
pub fn extend_candidates(candidates: &mut Vec<CandidateRelease>, search: &ProviderSearch, releases: &Vec<ReleaseDetail>)
    ensures
        final(candidates).deep_view() == old(candidates).deep_view() + compatible_candidates(*search, releases@),
{
    let ghost start = candidates.deep_view();
    let mut i: usize = 0;
    assert(releases@.take(0) =~= Seq::<ReleaseDetail>::empty());
    assert(start + Seq::<CandidateReleaseV>::empty() =~= start);
    while i < releases.len()
        invariant
            i <= releases@.len(),
            candidates.deep_view() == start + compatible_candidates(*search, releases@.take(i as int)),
        decreases releases@.len() - i,
    {
        let release = &releases[i];
        let ghost prefix = releases@.take(i + 1);
        assert(prefix.drop_last() =~= releases@.take(i as int));
        assert(prefix.last() == releases@[i as int]);
        let official = release.is_official();
        let fits = match search.kind {
            SourceKind::LooseFile => true,
            SourceKind::AlbumDirectory => holds_track_count(release, search.track_count),
        };
        if official && fits {
            match release.to_candidate() {
                Some(c) => {
                    let ghost before = candidates.deep_view();
                    let ghost cv = c.deep_view();
                    candidates.push(c);
                    assert(candidates.deep_view() =~= before.push(cv));
                    assert(start + compatible_candidates(*search, prefix) =~= (start + compatible_candidates(
                        *search,
                        releases@.take(i as int),
                    )).push(cv));
                },
                None => {},
            }
        }
        i = i + 1;
    }
    assert(releases@.take(releases@.len() as int) =~= releases@);
}

// ---------------------------------------------------------------------------
// Discovering release groups
// ---------------------------------------------------------------------------

/// The release group a release belongs to, by identifier.
pub open spec fn release_group_id_of(d: ReleaseDetail) -> Option<Seq<char>> {
    match d.release_group {
        Some(g) => Some(g.id@),
        None => None,
    }
}

/// The release groups found so far, with those of the official releases among
/// `releases` added in order: each once, and no more than the discovery limit.
pub open spec fn with_recording_groups(groups: Seq<Seq<char>>, releases: Seq<ReleaseDetail>) -> Seq<Seq<char>>
    decreases releases.len(),
{
    if releases.len() == 0 {
        groups
    } else {
        let before = with_recording_groups(groups, releases.drop_last());
        let d = releases.last();
        if eq_ignore_ascii_case(d.status@, "official"@) && release_group_id_of(d) is Some && !before.contains(
            release_group_id_of(d)->0,
        ) && before.len() < DISCOVERY_GROUP_LIMIT {
            before.push(release_group_id_of(d)->0)
        } else {
            before
        }
    }
}

/// Whether `t` is among `list`.
fn contains_text(list: &Vec<String>, t: &str) -> (r: bool)
    ensures
        r == list.deep_view().contains(t@),
{
    let mut i: usize = 0;
    while i < list.len()
        invariant
            i <= list@.len(),
            forall|k: int| 0 <= k < i ==> list.deep_view()[k] != t@,
        decreases list@.len() - i,
    {
        if text_eq(list[i].as_str(), t) {
            assert(list.deep_view()[i as int] == t@);
            return true;
        }
        i = i + 1;
    }
    false
}

/// Adds the release groups of the official releases among `releases`.
pub fn add_recording_groups(groups: &mut Vec<String>, releases: &Vec<ReleaseDetail>)
    ensures
        final(groups).deep_view() == with_recording_groups(old(groups).deep_view(), releases@),
{
    let ghost start = groups.deep_view();
    let mut i: usize = 0;
    assert(releases@.take(0) =~= Seq::<ReleaseDetail>::empty());
    while i < releases.len()
        invariant
            i <= releases@.len(),
            groups.deep_view() == with_recording_groups(start, releases@.take(i as int)),
        decreases releases@.len() - i,
    {
        let release = &releases[i];
        let ghost prefix = releases@.take(i + 1);
        assert(prefix.drop_last() =~= releases@.take(i as int));
        assert(prefix.last() == releases@[i as int]);
        if release.is_official() && groups.len() < DISCOVERY_GROUP_LIMIT {
            match &release.release_group {
                Some(group) => {
                    if !contains_text(groups, group.id.as_str()) {
                        let ghost before = groups.deep_view();
                        groups.push(group.id.clone());
                        assert(groups.deep_view() =~= before.push(group.id@));
                    }
                },
                None => {},
            }
        }
        i = i + 1;
    }
    assert(releases@.take(releases@.len() as int) =~= releases@);
}

/// The first release groups of a search's hits, no more than the discovery limit.
pub fn first_groups(hits: &Vec<String>) -> (r: Vec<String>)
    ensures
        r.deep_view() == hits.deep_view().take(
            if hits@.len() < DISCOVERY_GROUP_LIMIT { hits@.len() as int } else { DISCOVERY_GROUP_LIMIT as int },
        ),
{
    let mut out: Vec<String> = Vec::new();
    let mut i: usize = 0;
    while i < hits.len() && i < DISCOVERY_GROUP_LIMIT
        invariant
            i <= hits@.len(),
            i <= DISCOVERY_GROUP_LIMIT,
            out.deep_view() == hits.deep_view().take(i as int),
        decreases hits@.len() - i,
    {
        let ghost before = out.deep_view();
        out.push(hits[i].clone());
        assert(out.deep_view() =~= before.push(hits.deep_view()[i as int]));
        i = i + 1;
        assert(hits.deep_view().take(i as int) =~= hits.deep_view().take(i - 1).push(hits.deep_view()[i - 1]));
    }
    out
}

/// The warnings a discovery gives: identifiers that found nothing.
pub open spec fn discovery_warning(w: Seq<char>) -> bool {
    ||| w == "Existing MusicBrainz recording identifiers found no releases; falling back to artist and title search"@
    ||| w == "Existing MusicBrainz artist identifiers found no release groups; falling back to artist names"@
}

/// The warnings a search gives: those of discovery, and identifiers whose releases
/// were none of them compatible.
pub open spec fn search_warning(w: Seq<char>) -> bool {
    ||| discovery_warning(w)
    ||| w == "Existing MusicBrainz release-group identifier found no compatible official release; falling back to artist and title search"@
    ||| w == "Existing MusicBrainz recording identifiers found no compatible official release; falling back to artist and title search"@
}

/// The search without its release-group and recording identifiers.
pub fn without_identifiers(search: &ProviderSearch) -> (r: ProviderSearch)
    ensures
        r.kind == search.kind,
        r.album.deep_view() == search.album.deep_view(),
        r.artist.deep_view() == search.artist.deep_view(),
        r.artist_ids.deep_view() == search.artist_ids.deep_view(),
        r.album_artist_ids.deep_view() == search.album_artist_ids.deep_view(),
        r.title.deep_view() == search.title.deep_view(),
        r.release_group_id is None,
        r.recording_ids@.len() == 0,
        r.track_count == search.track_count,
{
    ProviderSearch {
        kind: search.kind,
        album: clone_opt_string(&search.album),
        artist: clone_opt_string(&search.artist),
        artist_ids: clone_strings(&search.artist_ids),
        album_artist_ids: clone_strings(&search.album_artist_ids),
        title: clone_opt_string(&search.title),
        release_group_id: None,
        recording_ids: Vec::new(),
        track_count: search.track_count,
    }
}

/// The search without its title, for looking a loose file up by its album.
fn without_title(search: &ProviderSearch) -> (r: ProviderSearch)
    ensures
        r.kind == search.kind,
        r.album.deep_view() == search.album.deep_view(),
        r.artist.deep_view() == search.artist.deep_view(),
        r.artist_ids.deep_view() == search.artist_ids.deep_view(),
        r.album_artist_ids.deep_view() == search.album_artist_ids.deep_view(),
        r.title is None,
{
    ProviderSearch {
        kind: search.kind,
        album: clone_opt_string(&search.album),
        artist: clone_opt_string(&search.artist),
        artist_ids: clone_strings(&search.artist_ids),
        album_artist_ids: clone_strings(&search.album_artist_ids),
        title: None,
        release_group_id: clone_opt_string(&search.release_group_id),
        recording_ids: clone_strings(&search.recording_ids),
        track_count: search.track_count,
    }
}

/// How the client reaches MusicBrainz: a release-group search answers with the
/// identifiers of the groups it found, a release browse with the releases.
pub trait MusicBrainzHttp {
    fn release_groups<Q: ProviderProgress>(
        &mut self,
        url: &str,
        operation: &'static str,
        progress: &mut Q,
    ) -> Result<Vec<String>, ProviderError>;

    fn releases<Q: ProviderProgress>(
        &mut self,
        url: &str,
        operation: &'static str,
        progress: &mut Q,
    ) -> Result<Vec<ReleaseDetail>, ProviderError>;
}

/// The warning given when recording identifiers found no releases.
pub open spec fn recordings_found_nothing() -> Seq<char> {
    "Existing MusicBrainz recording identifiers found no releases; falling back to artist and title search"@
}

/// The warning given when artist identifiers found no release groups.
pub open spec fn artist_ids_found_nothing() -> Seq<char> {
    "Existing MusicBrainz artist identifiers found no release groups; falling back to artist names"@
}

/// The release-browse URL for a recording.
pub open spec fn recording_browse_url(recording_id: Seq<char>) -> Seq<char> {
    "https://musicbrainz.org/ws/2/release?recording="@ + recording_id
        + "&inc=artist-credits+recordings+release-groups&fmt=json&limit=100"@
}

/// The first release groups of a search's hits, no more than the discovery limit.
pub open spec fn first_of(hits: Seq<Seq<char>>) -> Seq<Seq<char>> {
    hits.take(if hits.len() < DISCOVERY_GROUP_LIMIT { hits.len() as int } else { DISCOVERY_GROUP_LIMIT as int })
}

/// A list's contents.
pub open spec fn found<T: DeepView>(answer: Result<Vec<T>, ProviderError>) -> Result<Seq<T::V>, ProviderError> {
    match answer {
        Ok(v) => Ok(v.deep_view()),
        Err(e) => Err(e),
    }
}

/// The answer at position `i`; past the end, a failure (never reached by a
/// record that matches the exchanges made).
pub open spec fn answer_at<T>(answers: Seq<Result<T, ProviderError>>, i: int) -> Result<T, ProviderError> {
    if 0 <= i < answers.len() { answers[i] } else { Err(ProviderError::InsufficientEvidence) }
}

/// Browsing the releases of the recordings from the `k`-th on, while fewer than
/// the limit of release groups are known, with `answers` the browses' answers in
/// order: the URLs browsed, and the release groups known at the end or the
/// failure that stopped the browsing.
pub open spec fn recording_phase(
    s: ProviderSearch,
    answers: Seq<Result<Vec<ReleaseDetail>, ProviderError>>,
    k: int,
    groups: Seq<Seq<char>>,
) -> (Seq<Seq<char>>, Result<Seq<Seq<char>>, ProviderError>)
    decreases s.recording_ids@.len() - k,
{
    if k < 0 || k >= s.recording_ids@.len() || groups.len() >= DISCOVERY_GROUP_LIMIT {
        (Seq::empty(), Ok(groups))
    } else {
        let url = recording_browse_url(s.recording_ids@[k]@);
        match answer_at(answers, 0) {
            Err(e) => (seq![url], Err(e)),
            Ok(releases) => {
                let rest = recording_phase(s, answers.drop_first(), k + 1, with_recording_groups(groups, releases@));
                (seq![url] + rest.0, rest.1)
            },
        }
    }
}

/// The query searching a loose file's album instead of its title.
pub open spec fn album_query(s: ProviderSearch) -> Option<Seq<char>> {
    release_group_query(ProviderSearch { title: None, ..s }, false)
}

/// Whether a loose file that found nothing is searched again by its album.
pub open spec fn album_fallback_applies(s: ProviderSearch, groups: Seq<Seq<char>>) -> bool {
    &&& groups.len() == 0
    &&& s.kind == SourceKind::LooseFile
    &&& s.album is Some
    &&& s.title is Some
    &&& s.album.deep_view() != s.title.deep_view()
}

/// The last text search: for a loose file that found nothing, by album instead of
/// title, answered by the `n`-th search answer.
pub open spec fn album_step(
    s: ProviderSearch,
    answers: Seq<Result<Vec<String>, ProviderError>>,
    n: int,
    urls: Seq<Seq<char>>,
    groups: Seq<Seq<char>>,
    warnings: Seq<Seq<char>>,
) -> (Seq<Seq<char>>, Result<(Seq<Seq<char>>, Seq<Seq<char>>), ProviderError>) {
    if album_fallback_applies(s, groups) {
        match album_query(s) {
            None => (urls, Err(ProviderError::InsufficientEvidence)),
            Some(q) => {
                let url = release_group_search_url(q);
                match found(answer_at(answers, n)) {
                    Err(e) => (urls.push(url), Err(e)),
                    Ok(hits) => (urls.push(url), Ok((first_of(hits), warnings))),
                }
            },
        }
    } else {
        (urls, Ok((groups, warnings)))
    }
}

/// Searching release groups by text, with `answers` the searches' answers in
/// order: by title and artist (and artist identifier when known); when an
/// identifier found nothing, again by names alone; then `album_step`.
pub open spec fn text_phase(
    s: ProviderSearch,
    answers: Seq<Result<Vec<String>, ProviderError>>,
    warnings: Seq<Seq<char>>,
) -> (Seq<Seq<char>>, Result<(Seq<Seq<char>>, Seq<Seq<char>>), ProviderError>) {
    match release_group_query(s, true) {
        None => (Seq::empty(), Err(ProviderError::InsufficientEvidence)),
        Some(q1) => {
            let u1 = release_group_search_url(q1);
            match found(answer_at(answers, 0)) {
                Err(e) => (seq![u1], Err(e)),
                Ok(hits) => {
                    let g1 = first_of(hits);
                    if g1.len() == 0 && (s.album_artist_ids@.len() > 0 || s.artist_ids@.len() > 0) {
                        let w2 = warnings.push(artist_ids_found_nothing());
                        match release_group_query(s, false) {
                            None => (seq![u1], Err(ProviderError::InsufficientEvidence)),
                            Some(q2) => {
                                let u2 = release_group_search_url(q2);
                                match found(answer_at(answers, 1)) {
                                    Err(e) => (seq![u1, u2], Err(e)),
                                    Ok(hits2) => album_step(s, answers, 2, seq![u1, u2], first_of(hits2), w2),
                                }
                            },
                        }
                    } else {
                        album_step(s, answers, 1, seq![u1], g1, warnings)
                    }
                },
            }
        },
    }
}

/// Discovery as a whole, given the answers to its browses and to its searches,
/// each in order: the URLs browsed, the URLs searched, and the release groups
/// found with the warnings, or the failure that stopped it.
pub open spec fn discovery(
    s: ProviderSearch,
    browses: Seq<Result<Vec<ReleaseDetail>, ProviderError>>,
    searches: Seq<Result<Vec<String>, ProviderError>>,
) -> (Seq<Seq<char>>, Seq<Seq<char>>, Result<(Seq<Seq<char>>, Seq<Seq<char>>), ProviderError>) {
    match s.release_group_id {
        Some(g) => (Seq::empty(), Seq::empty(), Ok((seq![g@], Seq::empty()))),
        None => {
            let by_recordings = if s.recording_ids@.len() > 0 {
                recording_phase(s, browses, 0, Seq::empty())
            } else {
                (Seq::empty(), Ok(Seq::empty()))
            };
            match by_recordings.1 {
                Err(e) => (by_recordings.0, Seq::empty(), Err(e)),
                Ok(groups) => {
                    let w = if s.recording_ids@.len() > 0 && groups.len() == 0 {
                        seq![recordings_found_nothing()]
                    } else {
                        Seq::empty()
                    };
                    if groups.len() > 0 {
                        (by_recordings.0, Seq::empty(), Ok((groups, w)))
                    } else {
                        let by_text = text_phase(s, searches, w);
                        (by_recordings.0, by_text.0, by_text.1)
                    }
                },
            }
        },
    }
}

/// The URLs of a record of exchanges.
pub open spec fn urls_of<T>(record: Seq<(Seq<char>, T)>) -> Seq<Seq<char>> {
    record.map_values(|e: (Seq<char>, T)| e.0)
}

/// The answers of a record of exchanges.
pub open spec fn answers_of<T>(record: Seq<(Seq<char>, T)>) -> Seq<T> {
    record.map_values(|e: (Seq<char>, T)| e.1)
}

/// A discovery's result as plain values.
pub open spec fn discovered(r: Result<(Vec<String>, Vec<String>), ProviderError>) -> Result<(Seq<Seq<char>>, Seq<Seq<char>>), ProviderError> {
    match r {
        Ok((groups, warnings)) => Ok((groups.deep_view(), warnings.deep_view())),
        Err(e) => Err(e),
    }
}

/// Searches MusicBrainz through a recorded connection.
pub struct MusicBrainzClient<H> {
    http: RecordedHttp<H>,
}

impl<H: MusicBrainzHttp> MusicBrainzClient<H> {
    /// A client that reaches MusicBrainz through `http`, with nothing exchanged yet.
    pub fn new(http: H) -> (r: Self)
        ensures
            r.searched().len() == 0,
            r.browsed().len() == 0,
            r.connection() == http,
    {
        MusicBrainzClient { http: RecordedHttp::new(http) }
    }

    /// The connection.
    pub closed spec fn connection(&self) -> H {
        self.http.connection()
    }

    /// The release-group searches made so far: URL and answer, in order.
    pub closed spec fn searched(&self) -> Seq<(Seq<char>, Result<Vec<String>, ProviderError>)> {
        self.http.searched()
    }

    /// The release browses made so far: URL and answer, in order.
    pub closed spec fn browsed(&self) -> Seq<(Seq<char>, Result<Vec<ReleaseDetail>, ProviderError>)> {
        self.http.browsed()
    }

    /// The connection, to read.
    pub fn http(&self) -> (r: &H)
        ensures
            *r == self.connection(),
    {
        self.http.http()
    }

    /// The connection, once the client is no longer needed.
    pub fn into_http(self) -> (r: H)
        ensures
            r == self.connection(),
    {
        self.http.into_http()
    }

    /// Browses the releases of the recordings from the `k`-th on while fewer than
    /// the limit of release groups are known, adding their official release groups.
    fn browse_recordings<Q: ProviderProgress>(
        &mut self,
        search: &ProviderSearch,
        k: usize,
        groups: Vec<String>,
        progress: &mut Q,
    ) -> (r: Result<Vec<String>, ProviderError>)
        requires
            k <= search.recording_ids@.len(),
            groups.deep_view().len() <= DISCOVERY_GROUP_LIMIT,
        ensures
            final(self).searched() == old(self).searched(),
            old(self).browsed().len() <= final(self).browsed().len(),
            final(self).browsed().take(old(self).browsed().len() as int) == old(self).browsed(),
            ({
                let made = final(self).browsed().skip(old(self).browsed().len() as int);
                recording_phase(*search, answers_of(made), k as int, groups.deep_view()) == (urls_of(made), found(r))
            }),
            r matches Ok(g) ==> g.deep_view().len() <= DISCOVERY_GROUP_LIMIT,
        decreases search.recording_ids@.len() - k,
    {
        let ghost start = self.browsed();
        if k >= search.recording_ids.len() || groups.len() >= DISCOVERY_GROUP_LIMIT {
            proof {
                assert(self.browsed().skip(start.len() as int) =~= Seq::empty());
                assert(urls_of(self.browsed().skip(start.len() as int)) =~= Seq::<Seq<char>>::empty());
                assert(self.browsed().take(start.len() as int) =~= start);
            }
            return Ok(groups);
        }
        let url = browse_recording_url(search.recording_ids[k].as_str());
        let answer = self.http.releases(url.as_str(), "MusicBrainz recording releases", progress);
        let ghost first = (url@, answer);
        assert(self.browsed() == start.push(first));
        match answer {
            Err(error) => {
                proof {
                    let made = self.browsed().skip(start.len() as int);
                    assert(made =~= seq![first]);
                    assert(answers_of(made) =~= seq![first.1]);
                    assert(urls_of(made) =~= seq![url@]);
                    assert(self.browsed().take(start.len() as int) =~= start);
                }
                Err(error)
            },
            Ok(releases) => {
                let mut groups = groups;
                let ghost before = groups.deep_view();
                add_recording_groups(&mut groups, &releases);
                proof {
                    lemma_recording_groups_bounded(before, releases@);
                }
                let ghost middle = self.browsed();
                let r = self.browse_recordings(search, k + 1, groups, progress);
                proof {
                    let rest = self.browsed().skip(middle.len() as int);
                    let made = self.browsed().skip(start.len() as int);
                    assert(middle.len() == start.len() + 1);
                    assert(middle == start.push(first));
                    assert(self.browsed().take(middle.len() as int) == middle);
                    assert forall|i: int| 0 <= i < made.len() implies made[i] == (seq![first] + rest)[i] by {
                        if i == 0 {
                            assert(self.browsed().take(middle.len() as int)[start.len() as int] == middle[start.len() as int]);
                        }
                    }
                    assert(made =~= seq![first] + rest);
                    assert(answers_of(made).drop_first() =~= answers_of(rest));
                    assert(answers_of(made)[0] == first.1);
                    assert(urls_of(made) =~= seq![url@] + urls_of(rest));
                    assert(self.browsed().take(start.len() as int) =~= start) by {
                        assert(self.browsed().take(middle.len() as int) == middle);
                        assert(middle.take(start.len() as int) =~= start);
                    }
                }
                r
            },
        }
    }

    /// Finds the release groups to browse: the known release group; else those of
    /// the recordings' official releases; else (or when those found none) the
    /// groups a text search finds, retried by artist name alone when artist
    /// identifiers found nothing, and for a loose file by album instead of title.
    /// The browses and searches made, and the result, are exactly those of
    /// `discovery` for the answers that came back.
    pub fn discover<Q: ProviderProgress>(&mut self, search: &ProviderSearch, progress: &mut Q) -> (r: Result<
        (Vec<String>, Vec<String>),
        ProviderError,
    >)
        ensures
            old(self).browsed().len() <= final(self).browsed().len(),
            old(self).searched().len() <= final(self).searched().len(),
            final(self).browsed().take(old(self).browsed().len() as int) == old(self).browsed(),
            final(self).searched().take(old(self).searched().len() as int) == old(self).searched(),
            ({
                let browsed = final(self).browsed().skip(old(self).browsed().len() as int);
                let searched = final(self).searched().skip(old(self).searched().len() as int);
                discovery(*search, answers_of(browsed), answers_of(searched)) == (urls_of(browsed), urls_of(searched), discovered(r))
            }),
            search.release_group_id matches Some(g) ==> r matches Ok((groups, warnings)) && groups.deep_view() == seq![g@]
                && warnings@.len() == 0,
            (r matches Err(ProviderError::InsufficientEvidence) && final(self).browsed() == old(self).browsed()
                && final(self).searched() == old(self).searched()) <==> (search.release_group_id is None
                && search.recording_ids@.len() == 0 && release_group_query(*search, true) is None),
            r matches Ok((groups, warnings)) ==> {
                &&& groups.deep_view().len() <= DISCOVERY_GROUP_LIMIT
                &&& forall|k: int| 0 <= k < warnings.deep_view().len() ==> discovery_warning(#[trigger] warnings.deep_view()[k])
            },
    {
        let ghost b0 = self.browsed();
        let ghost s0 = self.searched();
        match &search.release_group_id {
            Some(g) => {
                let mut group_ids: Vec<String> = Vec::new();
                group_ids.push(g.clone());
                let warnings: Vec<String> = Vec::new();
                proof {
                    assert(group_ids.deep_view() =~= seq![g@]);
                    assert(warnings.deep_view() =~= Seq::<Seq<char>>::empty());
                    assert(self.browsed().skip(b0.len() as int) =~= Seq::empty());
                    assert(self.searched().skip(s0.len() as int) =~= Seq::empty());
                    assert(urls_of(self.browsed().skip(b0.len() as int)) =~= Seq::<Seq<char>>::empty());
                    assert(urls_of(self.searched().skip(s0.len() as int)) =~= Seq::<Seq<char>>::empty());
                    assert(self.browsed().take(b0.len() as int) =~= b0);
                    assert(self.searched().take(s0.len() as int) =~= s0);
                }
                return Ok((group_ids, warnings));
            },
            None => {},
        }
        let mut warnings: Vec<String> = Vec::new();
        let mut group_ids: Vec<String> = Vec::new();
        if search.recording_ids.len() > 0 {
            assert(group_ids.deep_view() =~= Seq::<Seq<char>>::empty());
            match self.browse_recordings(search, 0, group_ids, progress) {
                Ok(found_groups) => {
                    group_ids = found_groups;
                },
                Err(error) => {
                    proof {
                        let made = self.browsed().skip(b0.len() as int);
                        assert(urls_of(made).len() >= 1);
                        assert(made.len() >= 1);
                        assert(self.browsed().len() > b0.len());
                        assert(self.searched().skip(s0.len() as int) =~= Seq::empty());
                        assert(urls_of(self.searched().skip(s0.len() as int)) =~= Seq::<Seq<char>>::empty());
                        assert(self.searched().take(s0.len() as int) =~= s0);
                    }
                    return Err(error);
                },
            }
            if group_ids.len() == 0 {
                let w = owned(
                    "Existing MusicBrainz recording identifiers found no releases; falling back to artist and title search",
                );
                warnings.push(w);
                proof {
                    reveal_strlit(
                        "Existing MusicBrainz recording identifiers found no releases; falling back to artist and title search",
                    );
                }
            }
        } else {
            proof {
                assert(self.browsed().skip(b0.len() as int) =~= Seq::empty());
                assert(urls_of(self.browsed().skip(b0.len() as int)) =~= Seq::<Seq<char>>::empty());
                assert(self.browsed().take(b0.len() as int) =~= b0);
            }
        }
        let ghost w0 = warnings.deep_view();
        proof {
            if search.recording_ids@.len() > 0 && group_ids.deep_view().len() == 0 {
                assert(w0 =~= seq![recordings_found_nothing()]);
            } else {
                assert(w0 =~= Seq::<Seq<char>>::empty());
            }
        }
        if group_ids.len() > 0 {
            proof {
                assert(self.searched().skip(s0.len() as int) =~= Seq::empty());
                assert(urls_of(self.searched().skip(s0.len() as int)) =~= Seq::<Seq<char>>::empty());
                assert(self.searched().take(s0.len() as int) =~= s0);
            }
            return Ok((group_ids, warnings));
        }
        let ghost b1 = self.browsed();
        let url = match textual_search_url(search, true) {
            Ok(u) => u,
            Err(error) => {
                proof {
                    assert(self.searched().skip(s0.len() as int) =~= Seq::empty());
                    assert(urls_of(self.searched().skip(s0.len() as int)) =~= Seq::<Seq<char>>::empty());
                    assert(self.searched().take(s0.len() as int) =~= s0);
                }
                return Err(error);
            },
        };
        let hits = self.http.release_groups(url.as_str(), "MusicBrainz release-group search", progress);
        let ghost e1 = (url@, hits);
        let hits = match hits {
            Ok(found_hits) => found_hits,
            Err(error) => {
                proof {
                    let made = self.searched().skip(s0.len() as int);
                    assert(made =~= seq![e1]);
                    assert(answers_of(made) =~= seq![e1.1]);
                    assert(urls_of(made) =~= seq![url@]);
                    assert(self.searched().take(s0.len() as int) =~= s0);
                }
                return Err(error);
            },
        };
        group_ids = first_groups(&hits);
        let ghost record1 = seq![e1];
        let ghost urls1 = seq![url@];
        let mut used: usize = 1;
        let ghost mut record = record1;
        let ghost mut urls = urls1;
        proof {
            assert(self.searched() =~= s0 + record);
        }
        if group_ids.len() == 0 && (search.album_artist_ids.len() > 0 || search.artist_ids.len() > 0) {
            let w = owned("Existing MusicBrainz artist identifiers found no release groups; falling back to artist names");
            warnings.push(w);
            proof {
                reveal_strlit("Existing MusicBrainz artist identifiers found no release groups; falling back to artist names");
                assert(warnings.deep_view() =~= w0.push(artist_ids_found_nothing()));
            }
            let url2 = match textual_search_url(search, false) {
                Ok(u) => u,
                Err(error) => {
                    proof {
                        let made = self.searched().skip(s0.len() as int);
                        assert(made =~= record);
                        assert(answers_of(made) =~= seq![e1.1]);
                        assert(urls_of(made) =~= urls);
                        assert(self.searched().take(s0.len() as int) =~= s0);
                    }
                    return Err(error);
                },
            };
            let hits2 = self.http.release_groups(url2.as_str(), "MusicBrainz release-group search", progress);
            let ghost e2 = (url2@, hits2);
            proof {
                record = record.push(e2);
                urls = urls.push(url2@);
                assert(self.searched() =~= s0 + record);
            }
            let hits2 = match hits2 {
                Ok(found_hits) => found_hits,
                Err(error) => {
                    proof {
                        let made = self.searched().skip(s0.len() as int);
                        assert(made =~= record);
                        assert(answers_of(made) =~= seq![e1.1, e2.1]);
                        assert(urls_of(made) =~= urls);
                        assert(self.searched().take(s0.len() as int) =~= s0);
                    }
                    return Err(error);
                },
            };
            group_ids = first_groups(&hits2);
            used = 2;
        }
        let loose = match search.kind {
            SourceKind::LooseFile => true,
            SourceKind::AlbumDirectory => false,
        };
        let ghost groups_before_album = group_ids.deep_view();
        let ghost warnings_final = warnings.deep_view();
        if group_ids.len() == 0 && loose && search.album.is_some() && search.title.is_some() && !opt_text_eq(
            &search.album,
            &search.title,
        ) {
            let album_fallback = without_title(search);
            proof {
                assert(release_group_query(album_fallback, false) == album_query(*search));
            }
            let url3 = match textual_search_url(&album_fallback, false) {
                Ok(u) => u,
                Err(error) => {
                    proof {
                        let made = self.searched().skip(s0.len() as int);
                        assert(made =~= record);
                        assert(urls_of(made) =~= urls);
                        assert(self.searched().take(s0.len() as int) =~= s0);
                    }
                    return Err(error);
                },
            };
            let hits3 = self.http.release_groups(url3.as_str(), "MusicBrainz album fallback search", progress);
            let ghost e3 = (url3@, hits3);
            proof {
                record = record.push(e3);
                urls = urls.push(url3@);
                assert(self.searched() =~= s0 + record);
            }
            let hits3 = match hits3 {
                Ok(found_hits) => found_hits,
                Err(error) => {
                    proof {
                        let made = self.searched().skip(s0.len() as int);
                        assert(made =~= record);
                        assert(urls_of(made) =~= urls);
                        assert(self.searched().take(s0.len() as int) =~= s0);
                    }
                    return Err(error);
                },
            };
            group_ids = first_groups(&hits3);
        }
        proof {
            let made = self.searched().skip(s0.len() as int);
            assert(made =~= record);
            assert(urls_of(made) =~= urls);
            assert(self.searched().take(s0.len() as int) =~= s0);
        }
        Ok((group_ids, warnings))
    }

    /// Browses the releases of each release group and appends the candidates of the
    /// compatible ones.
    fn collect_candidates<Q: ProviderProgress>(
        &mut self,
        search: &ProviderSearch,
        group_ids: &Vec<String>,
        candidates: &mut Vec<CandidateRelease>,
        progress: &mut Q,
    ) -> (r: Result<(), ProviderError>)
        requires
            forall|k: int| 0 <= k < old(candidates).deep_view().len() ==> compatible_candidate(*search, #[trigger] old(candidates).deep_view()[k]),
        ensures
            forall|k: int| 0 <= k < final(candidates).deep_view().len() ==> compatible_candidate(*search, #[trigger] final(candidates).deep_view()[k]),
            group_ids@.len() == 0 ==> r is Ok && final(candidates).deep_view() == old(candidates).deep_view(),
            exists|answers: Seq<Seq<ReleaseDetail>>| {
                &&& (r is Ok ==> answers.len() == group_ids@.len())
                &&& (r is Err ==> answers.len() < group_ids@.len())
                &&& final(candidates).deep_view() == old(candidates).deep_view() + #[trigger] browsed_candidates(*search, answers)
            },
    {
        let ghost start = candidates.deep_view();
        let ghost mut answers: Seq<Seq<ReleaseDetail>> = Seq::empty();
        assert(start + browsed_candidates(*search, answers) =~= start);
        let mut i: usize = 0;
        while i < group_ids.len()
            invariant
                i <= group_ids@.len(),
                answers.len() == i,
                start == old(candidates).deep_view(),
                candidates.deep_view() == start + browsed_candidates(*search, answers),
                forall|k: int| 0 <= k < candidates.deep_view().len() ==> compatible_candidate(*search, #[trigger] candidates.deep_view()[k]),
            decreases group_ids@.len() - i,
        {
            let url = browse_group_url(group_ids[i].as_str());
            let releases = match self.http.releases(url.as_str(), "MusicBrainz release variants", progress) {
                Ok(found) => found,
                Err(error) => {
                    assert(candidates.deep_view() == start + browsed_candidates(*search, answers));
                    return Err(error);
                },
            };
            let ghost before = candidates.deep_view();
            extend_candidates(candidates, search, &releases);
            proof {
                let grown = answers.push(releases@);
                assert(grown.drop_last() =~= answers);
                assert(start + browsed_candidates(*search, grown) =~= before + compatible_candidates(*search, releases@));
                answers = grown;
            }
            proof {
                lemma_compatible_candidates_shape(*search, releases@);
                assert forall|k: int| 0 <= k < candidates.deep_view().len() implies compatible_candidate(*search, #[trigger] candidates.deep_view()[k]) by {
                    if k >= before.len() {
                        assert(candidates.deep_view()[k] == compatible_candidates(*search, releases@)[k - before.len()]);
                    } else {
                        assert(candidates.deep_view()[k] == before[k]);
                    }
                }
            }
            i = i + 1;
        }
        Ok(())
    }

    /// Searches for the source's release: discovers release groups, browses their
    /// official releases with a compatible track count, and keeps one candidate of
    /// each set that would groom alike. When identifiers led nowhere compatible, the
    /// search is repeated by artist and title, with a warning.
    pub fn search<Q: ProviderProgress>(&mut self, search: &ProviderSearch, progress: &mut Q) -> (r: Result<
        ProviderSearchResult,
        ProviderError,
    >)
        ensures
            !usable_search(*search) ==> r matches Err(ProviderError::InsufficientEvidence),
            r matches Ok(result) ==> {
                &&& exists|found: Seq<CandidateReleaseV>|
                    {
                        &&& result.candidates.deep_view() == #[trigger] distinct_results(found)
                        &&& forall|k: int| 0 <= k < found.len() ==> compatible_candidate(*search, #[trigger] found[k])
                    }
                &&& forall|k: int| 0 <= k < result.candidates.deep_view().len() ==> compatible_candidate(*search, #[trigger] result.candidates.deep_view()[k])
                &&& forall|k: int| 0 <= k < result.warnings.deep_view().len() ==> search_warning(#[trigger] result.warnings.deep_view()[k])
            },
    {
        if !search.is_usable() {
            return Err(ProviderError::InsufficientEvidence);
        }
        let (group_ids, mut warnings) = match self.discover(search, progress) {
            Ok(found) => found,
            Err(error) => return Err(error),
        };
        let identifier_discovery = search.release_group_id.is_some() || search.recording_ids.len() > 0;
        let mut candidates: Vec<CandidateRelease> = Vec::new();
        match self.collect_candidates(search, &group_ids, &mut candidates, progress) {
            Ok(()) => {},
            Err(error) => return Err(error),
        }
        if identifier_discovery && candidates.len() == 0 {
            let w = if search.release_group_id.is_some() {
                owned(
                    "Existing MusicBrainz release-group identifier found no compatible official release; falling back to artist and title search",
                )
            } else {
                owned(
                    "Existing MusicBrainz recording identifiers found no compatible official release; falling back to artist and title search",
                )
            };
            let ghost before = warnings.deep_view();
            let ghost t = w@;
            warnings.push(w);
            assert(warnings.deep_view() =~= before.push(t));
            let fallback = without_identifiers(search);
            if fallback.artist.is_some() && (fallback.album.is_some() || fallback.title.is_some()) {
                let (groups, _) = match self.discover(&fallback, progress) {
                    Ok(found) => found,
                    Err(error) => return Err(error),
                };
                match self.collect_candidates(search, &groups, &mut candidates, progress) {
                    Ok(()) => {},
                    Err(error) => return Err(error),
                }
            }
        }
        let ghost found = candidates.deep_view();
        let collapsed = collapse_equivalent(candidates);
        proof {
            lemma_distinct_results_keep(found, *search);
        }
        Ok(ProviderSearchResult { candidates: collapsed, warnings })
    }
}

/// The compatible candidates that browsing answered with `answers`, one list of
/// releases per release group, in order.
pub open spec fn browsed_candidates(s: ProviderSearch, answers: Seq<Seq<ReleaseDetail>>) -> Seq<CandidateReleaseV>
    decreases answers.len(),
{
    if answers.len() == 0 {
        Seq::empty()
    } else {
        browsed_candidates(s, answers.drop_last()) + compatible_candidates(s, answers.last())
    }
}

/// Adding recording groups never takes a list past the discovery limit.
proof fn lemma_recording_groups_bounded(groups: Seq<Seq<char>>, releases: Seq<ReleaseDetail>)
    requires
        groups.len() <= DISCOVERY_GROUP_LIMIT,
    ensures
        with_recording_groups(groups, releases).len() <= DISCOVERY_GROUP_LIMIT,
    decreases releases.len(),
{
    if releases.len() > 0 {
        lemma_recording_groups_bounded(groups, releases.drop_last());
    }
}

/// Every candidate that collapsing keeps was among those collapsed.
proof fn lemma_distinct_results_keep(cs: Seq<CandidateReleaseV>, s: ProviderSearch)
    requires
        forall|k: int| 0 <= k < cs.len() ==> compatible_candidate(s, #[trigger] cs[k]),
    ensures
        forall|k: int| 0 <= k < distinct_results(cs).len() ==> compatible_candidate(s, #[trigger] distinct_results(cs)[k]),
    decreases cs.len(),
{
    if cs.len() > 0 {
        let rest = cs.drop_last();
        assert(forall|k: int| 0 <= k < rest.len() ==> rest[k] == cs[k]);
        lemma_distinct_results_keep(rest, s);
        let kept = distinct_results(rest);
        let last = cs.last();
        assert(compatible_candidate(s, cs[cs.len() - 1]));
        if !has_equivalent(kept, last) {
            assert forall|k: int| 0 <= k < kept.len() + 1 implies compatible_candidate(s, #[trigger] kept.push(last)[k]) by {
                if k < kept.len() {
                    assert(kept.push(last)[k] == kept[k]);
                }
            }
        }
    }
}

} // verus!
