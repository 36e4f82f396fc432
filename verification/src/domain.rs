use vstd::prelude::*;

use crate::text::{append, decimal, owned, push_decimal};

verus! {

/// One credited artist, with its MusicBrainz identifier where known.
#[derive(Debug, PartialEq, Eq)]
pub struct Artist {
    pub name: String,
    pub musicbrainz_id: Option<String>,
}

/// The contents of an `Artist`.
pub struct ArtistV {
    pub name: Seq<char>,
    pub musicbrainz_id: Option<Seq<char>>,
}

impl DeepView for Artist {
    type V = ArtistV;

    open spec fn deep_view(&self) -> ArtistV {
        ArtistV { name: self.name@, musicbrainz_id: self.musicbrainz_id.deep_view() }
    }
}

impl Clone for Artist {
    fn clone(&self) -> (r: Self)
        ensures
            r.deep_view() == self.deep_view(),
    {
        Artist { name: self.name.clone(), musicbrainz_id: clone_opt_string(&self.musicbrainz_id) }
    }
}

/// A copy of an optional string.
pub fn clone_opt_string(o: &Option<String>) -> (r: Option<String>)
    ensures
        r.deep_view() == o.deep_view(),
{
    match o {
        Some(s) => Some(s.clone()),
        None => None,
    }
}

/// A copy of a list of strings.
pub fn clone_strings(v: &Vec<String>) -> (r: Vec<String>)
    ensures
        r.deep_view() == v.deep_view(),
{
    let mut out: Vec<String> = Vec::new();
    let mut i: usize = 0;
    while i < v.len()
        invariant
            i <= v.len(),
            out@.len() == i,
            forall|k: int| 0 <= k < i ==> (#[trigger] out@[k]).deep_view() == v@[k].deep_view(),
        decreases v.len() - i,
    {
        let c = v[i].clone();
        assert(c.deep_view() == v@[i as int].deep_view());
        out.push(c);
        i = i + 1;
    }
    assert(out.deep_view() =~= v.deep_view());
    out
}

/// A copy of a list of artists.
pub fn clone_artists(v: &Vec<Artist>) -> (r: Vec<Artist>)
    ensures
        r.deep_view() == v.deep_view(),
{
    let mut out: Vec<Artist> = Vec::new();
    let mut i: usize = 0;
    while i < v.len()
        invariant
            i <= v.len(),
            out@.len() == i,
            forall|k: int| 0 <= k < i ==> (#[trigger] out@[k]).deep_view() == v@[k].deep_view(),
        decreases v.len() - i,
    {
        let c = v[i].clone();
        assert(c.deep_view() == v@[i as int].deep_view());
        out.push(c);
        i = i + 1;
    }
    assert(out.deep_view() =~= v.deep_view());
    out
}

impl Artist {
    /// An artist known only by name.
    pub fn named(name: &str) -> (r: Self)
        ensures
            r.name@ == name@,
            r.musicbrainz_id is None,
    {
        Artist { name: owned(name), musicbrainz_id: None }
    }
}

/// How a release or track credits its artists: the display text and the artists behind it.
#[derive(Debug, PartialEq, Eq)]
pub struct ArtistCredit {
    pub display: String,
    pub artists: Vec<Artist>,
}

/// The contents of an `ArtistCredit`.
pub struct ArtistCreditV {
    pub display: Seq<char>,
    pub artists: Seq<ArtistV>,
}

impl DeepView for ArtistCredit {
    type V = ArtistCreditV;

    open spec fn deep_view(&self) -> ArtistCreditV {
        ArtistCreditV { display: self.display@, artists: self.artists.deep_view() }
    }
}

impl Clone for ArtistCredit {
    fn clone(&self) -> (r: Self)
        ensures
            r.deep_view() == self.deep_view(),
    {
        ArtistCredit { display: self.display.clone(), artists: clone_artists(&self.artists) }
    }
}

impl ArtistCredit {
    /// A credit of one artist, displayed by its name.
    pub fn single(name: &str) -> (r: Self)
        ensures
            r.display@ == name@,
            r.artists@.len() == 1,
            r.artists@[0].name@ == name@,
            r.artists@[0].musicbrainz_id is None,
    {
        let mut artists = Vec::new();
        artists.push(Artist::named(name));
        ArtistCredit { display: owned(name), artists }
    }

    /// A credit with its own display text and list of artists.
    pub fn credited(display: &str, artists: Vec<Artist>) -> (r: Self)
        ensures
            r.display@ == display@,
            r.artists == artists,
    {
        ArtistCredit { display: owned(display), artists }
    }
}

/// Whether two artist credits have the same display text and the same artists.
pub fn credits_equal(a: &ArtistCredit, b: &ArtistCredit) -> (r: bool)
    ensures
        r == (a.deep_view() == b.deep_view()),
{
    if !crate::text::text_eq(a.display.as_str(), b.display.as_str()) {
        return false;
    }
    if a.artists.len() != b.artists.len() {
        assert(a.artists.deep_view().len() != b.artists.deep_view().len());
        return false;
    }
    let mut i: usize = 0;
    while i < a.artists.len()
        invariant
            i <= a.artists@.len(),
            a.artists@.len() == b.artists@.len(),
            a.display@ == b.display@,
            forall|k: int| 0 <= k < i ==> (#[trigger] a.artists@[k]).deep_view() == b.artists@[k].deep_view(),
        decreases a.artists@.len() - i,
    {
        let x = &a.artists[i];
        let y = &b.artists[i];
        let same_name = crate::text::text_eq(x.name.as_str(), y.name.as_str());
        let same_id = match (&x.musicbrainz_id, &y.musicbrainz_id) {
            (Some(p), Some(q)) => crate::text::text_eq(p.as_str(), q.as_str()),
            (None, None) => true,
            _ => false,
        };
        if !(same_name && same_id) {
            assert(a.artists.deep_view()[i as int] != b.artists.deep_view()[i as int]);
            return false;
        }
        i = i + 1;
    }
    assert(a.artists.deep_view() =~= b.artists.deep_view());
    true
}

/// What the user selected: a whole album directory or one loose file.
#[derive(Clone, Copy, Debug, PartialEq, Eq)]
pub enum SourceKind {
    AlbumDirectory,
    LooseFile,
}

impl SourceKind {
    /// Only an album directory must map onto a complete release.
    pub fn requires_complete_release(self) -> (r: bool)
        ensures
            r == (self == SourceKind::AlbumDirectory),
    {
        match self {
            SourceKind::AlbumDirectory => true,
            SourceKind::LooseFile => false,
        }
    }

    pub fn is_loose_file(self) -> (r: bool)
        ensures
            r == (self == SourceKind::LooseFile),
    {
        match self {
            SourceKind::AlbumDirectory => false,
            SourceKind::LooseFile => true,
        }
    }
}

/// A disc and track number.
#[derive(Clone, Copy, Debug, PartialEq, Eq)]
pub struct Position {
    pub disc: u16,
    pub track: u16,
}

impl Position {
    pub fn new(disc: u16, track: u16) -> (r: Self)
        ensures
            r.disc == disc,
            r.track == track,
    {
        Position { disc, track }
    }
}

/// Whether two positions are equal.
pub fn same_position(a: Position, b: Position) -> (r: bool)
    ensures
        r == (a == b),
{
    a.disc == b.disc && a.track == b.track
}

/// What the source's tags say about one audio file.
#[derive(Debug, PartialEq, Eq)]
pub struct InspectedTrack {
    pub source_name: String,
    pub title: Option<String>,
    pub artist: Option<String>,
    pub album: Option<String>,
    pub album_artist: Option<String>,
    pub artist_ids: Vec<String>,
    pub album_artist_ids: Vec<String>,
    pub compilation: Option<bool>,
    pub original_year: Option<u16>,
    pub position: Option<Position>,
    pub duration_ms: u64,
    pub recording_id: Option<String>,
    pub release_group_id: Option<String>,
}

/// The contents of an `InspectedTrack`.
pub struct InspectedTrackV {
    pub source_name: Seq<char>,
    pub title: Option<Seq<char>>,
    pub artist: Option<Seq<char>>,
    pub album: Option<Seq<char>>,
    pub album_artist: Option<Seq<char>>,
    pub artist_ids: Seq<Seq<char>>,
    pub album_artist_ids: Seq<Seq<char>>,
    pub compilation: Option<bool>,
    pub original_year: Option<u16>,
    pub position: Option<Position>,
    pub duration_ms: u64,
    pub recording_id: Option<Seq<char>>,
    pub release_group_id: Option<Seq<char>>,
}

impl DeepView for InspectedTrack {
    type V = InspectedTrackV;

    open spec fn deep_view(&self) -> InspectedTrackV {
        InspectedTrackV {
            source_name: self.source_name@,
            title: self.title.deep_view(),
            artist: self.artist.deep_view(),
            album: self.album.deep_view(),
            album_artist: self.album_artist.deep_view(),
            artist_ids: self.artist_ids.deep_view(),
            album_artist_ids: self.album_artist_ids.deep_view(),
            compilation: self.compilation,
            original_year: self.original_year,
            position: self.position,
            duration_ms: self.duration_ms,
            recording_id: self.recording_id.deep_view(),
            release_group_id: self.release_group_id.deep_view(),
        }
    }
}

impl Clone for InspectedTrack {
    fn clone(&self) -> (r: Self)
        ensures
            r.deep_view() == self.deep_view(),
    {
        InspectedTrack {
            source_name: self.source_name.clone(),
            title: clone_opt_string(&self.title),
            artist: clone_opt_string(&self.artist),
            album: clone_opt_string(&self.album),
            album_artist: clone_opt_string(&self.album_artist),
            artist_ids: clone_strings(&self.artist_ids),
            album_artist_ids: clone_strings(&self.album_artist_ids),
            compilation: self.compilation,
            original_year: self.original_year,
            position: self.position,
            duration_ms: self.duration_ms,
            recording_id: clone_opt_string(&self.recording_id),
            release_group_id: clone_opt_string(&self.release_group_id),
        }
    }
}

/// The selected source as the matcher sees it.
#[derive(Debug, PartialEq, Eq)]
pub struct Inspection {
    pub source_label: String,
    pub kind: SourceKind,
    pub tracks: Vec<InspectedTrack>,
}

impl Clone for Inspection {
    fn clone(&self) -> (r: Self)
        ensures
            r.source_label@ == self.source_label@,
            r.kind == self.kind,
            r.tracks.deep_view() == self.tracks.deep_view(),
    {
        let mut tracks: Vec<InspectedTrack> = Vec::new();
        let mut i: usize = 0;
        while i < self.tracks.len()
            invariant
                i <= self.tracks.len(),
                tracks@.len() == i,
                forall|k: int| 0 <= k < i ==> (#[trigger] tracks@[k]).deep_view() == self.tracks@[k].deep_view(),
            decreases self.tracks.len() - i,
        {
            let c = self.tracks[i].clone();
            assert(c.deep_view() == self.tracks@[i as int].deep_view());
            tracks.push(c);
            i = i + 1;
        }
        assert(tracks.deep_view() =~= self.tracks.deep_view());
        Inspection { source_label: self.source_label.clone(), kind: self.kind, tracks }
    }
}

/// The primary type of a release group.
#[derive(Debug, PartialEq, Eq)]
pub enum ReleaseKind {
    Album,
    Single,
    Ep,
    Compilation,
    Other(String),
}

/// The contents of a `ReleaseKind`.
pub enum ReleaseKindV {
    Album,
    Single,
    Ep,
    Compilation,
    Other(Seq<char>),
}

impl DeepView for ReleaseKind {
    type V = ReleaseKindV;

    open spec fn deep_view(&self) -> ReleaseKindV {
        match self {
            ReleaseKind::Album => ReleaseKindV::Album,
            ReleaseKind::Single => ReleaseKindV::Single,
            ReleaseKind::Ep => ReleaseKindV::Ep,
            ReleaseKind::Compilation => ReleaseKindV::Compilation,
            ReleaseKind::Other(name) => ReleaseKindV::Other(name@),
        }
    }
}

impl Clone for ReleaseKind {
    fn clone(&self) -> (r: Self)
        ensures
            r.deep_view() == self.deep_view(),
    {
        match self {
            ReleaseKind::Album => ReleaseKind::Album,
            ReleaseKind::Single => ReleaseKind::Single,
            ReleaseKind::Ep => ReleaseKind::Ep,
            ReleaseKind::Compilation => ReleaseKind::Compilation,
            ReleaseKind::Other(name) => ReleaseKind::Other(name.clone()),
        }
    }
}

/// The label shown for a release kind.
pub open spec fn kind_label(kind: ReleaseKind) -> Seq<char> {
    match kind {
        ReleaseKind::Album => "Album"@,
        ReleaseKind::Single => "Single"@,
        ReleaseKind::Ep => "EP"@,
        ReleaseKind::Compilation => "Compilation"@,
        ReleaseKind::Other(name) => name@,
    }
}

impl ReleaseKind {
    /// The label shown for this kind.
    pub fn label(&self) -> (r: String)
        ensures
            r@ == kind_label(*self),
    {
        match self {
            ReleaseKind::Album => owned("Album"),
            ReleaseKind::Single => owned("Single"),
            ReleaseKind::Ep => owned("EP"),
            ReleaseKind::Compilation => owned("Compilation"),
            ReleaseKind::Other(name) => name.clone(),
        }
    }

    pub fn is_single(&self) -> (r: bool)
        ensures
            r == (*self is Single),
    {
        match self {
            ReleaseKind::Single => true,
            _ => false,
        }
    }

    pub fn is_compilation(&self) -> (r: bool)
        ensures
            r == (*self is Compilation),
    {
        match self {
            ReleaseKind::Compilation => true,
            _ => false,
        }
    }

    pub fn is_other(&self) -> (r: bool)
        ensures
            r == (*self is Other),
    {
        match self {
            ReleaseKind::Other(_) => true,
            _ => false,
        }
    }
}

/// Whether two release kinds are the same kind (with the same name for `Other`).
pub open spec fn same_kind(a: ReleaseKind, b: ReleaseKind) -> bool {
    a.deep_view() == b.deep_view()
}

/// Whether two release kinds are the same kind.
pub fn kinds_equal(a: &ReleaseKind, b: &ReleaseKind) -> (r: bool)
    ensures
        r == same_kind(*a, *b),
{
    match (a, b) {
        (ReleaseKind::Album, ReleaseKind::Album) => true,
        (ReleaseKind::Single, ReleaseKind::Single) => true,
        (ReleaseKind::Ep, ReleaseKind::Ep) => true,
        (ReleaseKind::Compilation, ReleaseKind::Compilation) => true,
        (ReleaseKind::Other(x), ReleaseKind::Other(y)) => crate::text::text_eq(x.as_str(), y.as_str()),
        _ => false,
    }
}

/// One track of a candidate release.
#[derive(Debug, PartialEq, Eq)]
pub struct ReleaseTrack {
    pub title: String,
    pub artist_credit: ArtistCredit,
    pub position: Position,
    pub duration_ms: u64,
    pub recording_id: Option<String>,
}

/// The contents of a `ReleaseTrack`.
pub struct ReleaseTrackV {
    pub title: Seq<char>,
    pub artist_credit: ArtistCreditV,
    pub position: Position,
    pub duration_ms: u64,
    pub recording_id: Option<Seq<char>>,
}

impl DeepView for ReleaseTrack {
    type V = ReleaseTrackV;

    open spec fn deep_view(&self) -> ReleaseTrackV {
        ReleaseTrackV {
            title: self.title@,
            artist_credit: self.artist_credit.deep_view(),
            position: self.position,
            duration_ms: self.duration_ms,
            recording_id: self.recording_id.deep_view(),
        }
    }
}

impl Clone for ReleaseTrack {
    fn clone(&self) -> (r: Self)
        ensures
            r.deep_view() == self.deep_view(),
    {
        ReleaseTrack {
            title: self.title.clone(),
            artist_credit: self.artist_credit.clone(),
            position: self.position,
            duration_ms: self.duration_ms,
            recording_id: clone_opt_string(&self.recording_id),
        }
    }
}

/// A release that a provider offered as the source's identity.
#[derive(Debug, PartialEq, Eq)]
pub struct CandidateRelease {
    pub provider_key: String,
    pub title: String,
    pub album_artist: ArtistCredit,
    pub original_year: Option<u16>,
    pub kind: ReleaseKind,
    pub tracks: Vec<ReleaseTrack>,
    pub release_group_id: Option<String>,
    pub exact_release_id: Option<String>,
}

/// The contents of a `CandidateRelease`.
pub struct CandidateReleaseV {
    pub provider_key: Seq<char>,
    pub title: Seq<char>,
    pub album_artist: ArtistCreditV,
    pub original_year: Option<u16>,
    pub kind: ReleaseKindV,
    pub tracks: Seq<ReleaseTrackV>,
    pub release_group_id: Option<Seq<char>>,
    pub exact_release_id: Option<Seq<char>>,
}

impl DeepView for CandidateRelease {
    type V = CandidateReleaseV;

    open spec fn deep_view(&self) -> CandidateReleaseV {
        CandidateReleaseV {
            provider_key: self.provider_key@,
            title: self.title@,
            album_artist: self.album_artist.deep_view(),
            original_year: self.original_year,
            kind: self.kind.deep_view(),
            tracks: self.tracks.deep_view(),
            release_group_id: self.release_group_id.deep_view(),
            exact_release_id: self.exact_release_id.deep_view(),
        }
    }
}

/// A copy of a list of release tracks.
pub fn clone_release_tracks(v: &Vec<ReleaseTrack>) -> (r: Vec<ReleaseTrack>)
    ensures
        r.deep_view() == v.deep_view(),
{
    let mut out: Vec<ReleaseTrack> = Vec::new();
    let mut i: usize = 0;
    while i < v.len()
        invariant
            i <= v.len(),
            out@.len() == i,
            forall|k: int| 0 <= k < i ==> (#[trigger] out@[k]).deep_view() == v@[k].deep_view(),
        decreases v.len() - i,
    {
        let c = v[i].clone();
        out.push(c);
        i = i + 1;
    }
    assert(out.deep_view() =~= v.deep_view());
    out
}

impl Clone for CandidateRelease {
    fn clone(&self) -> (r: Self)
        ensures
            r.deep_view() == self.deep_view(),
    {
        CandidateRelease {
            provider_key: self.provider_key.clone(),
            title: self.title.clone(),
            album_artist: self.album_artist.clone(),
            original_year: self.original_year,
            kind: self.kind.clone(),
            tracks: clone_release_tracks(&self.tracks),
            release_group_id: clone_opt_string(&self.release_group_id),
            exact_release_id: clone_opt_string(&self.exact_release_id),
        }
    }
}

/// The human label of a candidate: credit, title, then year (where known), kind
/// and track count in brackets.
pub open spec fn human_label_text(c: CandidateRelease) -> Seq<char> {
    c.album_artist.display@ + " — "@ + c.title@ + " ("@
        + (match c.original_year {
            Some(year) => decimal(year as nat) + ", "@,
            None => Seq::<char>::empty(),
        })
        + kind_label(c.kind) + ", "@ + decimal(c.tracks@.len()) + " "@
        + (if c.tracks@.len() == 1 { "track"@ } else { "tracks"@ }) + ")"@
}

impl CandidateRelease {
    /// How the candidate is shown to the user, for example
    /// `The Group — The Album (1971, Album, 2 tracks)`.
    pub fn human_label(&self) -> (r: String)
        ensures
            r@ == human_label_text(*self),
    {
        let mut out = self.album_artist.display.clone();
        append(&mut out, " — ");
        append(&mut out, self.title.as_str());
        append(&mut out, " (");
        let ghost before_year = out@;
        match self.original_year {
            Some(year) => {
                push_decimal(&mut out, year as u64);
                append(&mut out, ", ");
            },
            None => {},
        }
        let ghost year_part = match self.original_year {
            Some(year) => decimal(year as nat) + ", "@,
            None => Seq::<char>::empty(),
        };
        assert(out@ == before_year + year_part);
        let kind = self.kind.label();
        append(&mut out, kind.as_str());
        append(&mut out, ", ");
        push_decimal(&mut out, self.tracks.len() as u64);
        append(&mut out, " ");
        if self.tracks.len() == 1 {
            append(&mut out, "track");
        } else {
            append(&mut out, "tracks");
        }
        append(&mut out, ")");
        out
    }
}

} // verus!
