use vstd::prelude::*;

use crate::domain::{clone_opt_string, clone_strings, SourceKind};
use crate::text::{append, owned};

verus! {

/// An audio container and codec that the library supports.
#[derive(Clone, Copy, Debug, PartialEq, Eq)]
pub enum AudioFormat {
    Flac,
    Mp3,
    Aac,
    Alac,
    Vorbis,
    Opus,
}

/// The file extension used for each audio format.
pub open spec fn audio_extension(format: AudioFormat) -> Seq<char> {
    match format {
        AudioFormat::Flac => "flac"@,
        AudioFormat::Mp3 => "mp3"@,
        AudioFormat::Aac => "m4a"@,
        AudioFormat::Alac => "m4a"@,
        AudioFormat::Vorbis => "ogg"@,
        AudioFormat::Opus => "opus"@,
    }
}

impl AudioFormat {
    /// The canonical file extension, without a dot.
    pub fn canonical_extension(self) -> (r: String)
        ensures
            r@ == audio_extension(self),
    {
        match self {
            AudioFormat::Flac => owned("flac"),
            AudioFormat::Mp3 => owned("mp3"),
            AudioFormat::Aac => owned("m4a"),
            AudioFormat::Alac => owned("m4a"),
            AudioFormat::Vorbis => owned("ogg"),
            AudioFormat::Opus => owned("opus"),
        }
    }
}

/// An image format accepted for artwork.
#[derive(Clone, Copy, Debug, PartialEq, Eq)]
pub enum ArtworkFormat {
    Jpeg,
    Png,
    WebP,
    Gif,
}

/// The file extension used for each artwork format.
pub open spec fn artwork_extension(format: ArtworkFormat) -> Seq<char> {
    match format {
        ArtworkFormat::Jpeg => "jpg"@,
        ArtworkFormat::Png => "png"@,
        ArtworkFormat::WebP => "webp"@,
        ArtworkFormat::Gif => "gif"@,
    }
}

impl ArtworkFormat {
    /// The canonical file extension, without a dot.
    pub fn canonical_extension(self) -> (r: String)
        ensures
            r@ == artwork_extension(self),
    {
        match self {
            ArtworkFormat::Jpeg => owned("jpg"),
            ArtworkFormat::Png => owned("png"),
            ArtworkFormat::WebP => owned("webp"),
            ArtworkFormat::Gif => owned("gif"),
        }
    }
}

/// Technical properties of an audio stream.
#[derive(Clone, Copy, Debug, PartialEq, Eq)]
pub struct AudioProperties {
    pub duration_ms: u64,
    pub sample_rate: Option<u32>,
    pub channels: Option<u8>,
    pub bit_depth: Option<u8>,
    pub audio_bitrate: Option<u32>,
}

/// The tags read from one audio file.
#[derive(Debug, PartialEq, Eq)]
pub struct AudioTags {
    pub title: Option<String>,
    pub artist: Option<String>,
    pub artists: Vec<String>,
    pub album: Option<String>,
    pub album_artist: Option<String>,
    pub album_artists: Vec<String>,
    pub artist_ids: Vec<String>,
    pub album_artist_ids: Vec<String>,
    pub compilation: Option<bool>,
    pub date: Option<String>,
    pub track: Option<u32>,
    pub track_total: Option<u32>,
    pub disc: Option<u32>,
    pub disc_total: Option<u32>,
    pub recording_id: Option<String>,
    pub release_group_id: Option<String>,
    pub embedded_pictures: usize,
}

impl Default for AudioTags {
    fn default() -> (r: Self)
        ensures
            r.title is None,
            r.artist is None,
            r.artists@.len() == 0,
            r.album is None,
            r.album_artist is None,
            r.album_artists@.len() == 0,
            r.artist_ids@.len() == 0,
            r.album_artist_ids@.len() == 0,
            r.compilation is None,
            r.date is None,
            r.track is None,
            r.track_total is None,
            r.disc is None,
            r.disc_total is None,
            r.recording_id is None,
            r.release_group_id is None,
            r.embedded_pictures == 0,
    {
        AudioTags {
            title: None,
            artist: None,
            artists: Vec::new(),
            album: None,
            album_artist: None,
            album_artists: Vec::new(),
            artist_ids: Vec::new(),
            album_artist_ids: Vec::new(),
            compilation: None,
            date: None,
            track: None,
            track_total: None,
            disc: None,
            disc_total: None,
            recording_id: None,
            release_group_id: None,
            embedded_pictures: 0,
        }
    }
}

impl Clone for AudioTags {
    fn clone(&self) -> (r: Self)
        ensures
            r.title.deep_view() == self.title.deep_view(),
            r.artist.deep_view() == self.artist.deep_view(),
            r.artists.deep_view() == self.artists.deep_view(),
            r.album.deep_view() == self.album.deep_view(),
            r.album_artist.deep_view() == self.album_artist.deep_view(),
            r.album_artists.deep_view() == self.album_artists.deep_view(),
            r.artist_ids.deep_view() == self.artist_ids.deep_view(),
            r.album_artist_ids.deep_view() == self.album_artist_ids.deep_view(),
            r.compilation == self.compilation,
            r.date.deep_view() == self.date.deep_view(),
            r.track == self.track,
            r.track_total == self.track_total,
            r.disc == self.disc,
            r.disc_total == self.disc_total,
            r.recording_id.deep_view() == self.recording_id.deep_view(),
            r.release_group_id.deep_view() == self.release_group_id.deep_view(),
            r.embedded_pictures == self.embedded_pictures,
    {
        AudioTags {
            title: clone_opt_string(&self.title),
            artist: clone_opt_string(&self.artist),
            artists: clone_strings(&self.artists),
            album: clone_opt_string(&self.album),
            album_artist: clone_opt_string(&self.album_artist),
            album_artists: clone_strings(&self.album_artists),
            artist_ids: clone_strings(&self.artist_ids),
            album_artist_ids: clone_strings(&self.album_artist_ids),
            compilation: self.compilation,
            date: clone_opt_string(&self.date),
            track: self.track,
            track_total: self.track_total,
            disc: self.disc,
            disc_total: self.disc_total,
            recording_id: clone_opt_string(&self.recording_id),
            release_group_id: clone_opt_string(&self.release_group_id),
            embedded_pictures: self.embedded_pictures,
        }
    }
}

/// The tags planned for one groomed track.
#[derive(Clone, Debug, PartialEq, Eq)]
pub struct PlannedTags {
    pub title: String,
    pub artist: String,
    pub artists: Vec<String>,
    pub album: String,
    pub album_artist: String,
    pub album_artists: Vec<String>,
    pub artist_ids: Option<Vec<String>>,
    pub album_artist_ids: Option<Vec<String>>,
    pub compilation: bool,
    pub original_year: Option<u16>,
    pub track: u32,
    pub track_total: u32,
    pub disc: u32,
    pub disc_total: u32,
    pub recording_id: Option<String>,
    pub release_group_id: Option<String>,
}

/// One supported audio file of the source.
#[derive(Clone, Debug, PartialEq, Eq)]
pub struct InspectedAudio {
    pub relative_path: String,
    pub format: AudioFormat,
    pub properties: AudioProperties,
    pub tags: AudioTags,
}

/// A non-audio file that is carried along with the release.
#[derive(Clone, Debug, PartialEq, Eq)]
pub struct AncillaryFile {
    pub relative_path: String,
    pub bytes: u64,
}

/// An image in the source that could serve as album artwork.
#[derive(Debug, PartialEq, Eq)]
pub struct ArtworkCandidate {
    pub relative_path: String,
    pub format: ArtworkFormat,
    pub dimensions: (u32, u32),
    pub name_priority: u8,
}

impl Clone for ArtworkCandidate {
    fn clone(&self) -> (copy: Self)
        ensures
            copy.relative_path@ == self.relative_path@,
            copy.format == self.format,
            copy.dimensions == self.dimensions,
            copy.name_priority == self.name_priority,
    {
        ArtworkCandidate {
            relative_path: self.relative_path.clone(),
            format: self.format,
            dimensions: self.dimensions,
            name_priority: self.name_priority,
        }
    }
}

/// What an inspection notice is about.
#[derive(Clone, Copy, Debug, PartialEq, Eq, Structural)]
pub enum NoticeKind {
    MissingMetadata,
    StaleReference,
    UnsupportedFile,
    Unreadable,
}

/// How serious an inspection notice is.
#[derive(Clone, Copy, Debug, PartialEq, Eq)]
pub enum NoticeSeverity {
    Warning,
    Blocker,
}

/// Something inspection found worth telling the user.
#[derive(Clone, Debug, PartialEq, Eq)]
pub struct InspectionNotice {
    pub kind: NoticeKind,
    pub severity: NoticeSeverity,
    pub path: Option<String>,
    pub message: String,
}

/// How a notice is summarized: `path: message`, or the message alone.
pub open spec fn notice_summary(path: Option<Seq<char>>, message: Seq<char>) -> Seq<char> {
    match path {
        Some(p) => p + ": "@ + message,
        None => message,
    }
}

impl InspectionNotice {
    /// A warning about `path` (if any).
    pub fn warning(kind: NoticeKind, path: Option<String>, message: &str) -> (r: Self)
        ensures
            r.kind == kind,
            r.severity == NoticeSeverity::Warning,
            r.path == path,
            r.message@ == message@,
    {
        InspectionNotice { kind, severity: NoticeSeverity::Warning, path, message: owned(message) }
    }

    /// The one-line summary of this notice.
    pub fn summary(&self) -> (r: String)
        ensures
            r@ == notice_summary(self.path.deep_view(), self.message@),
    {
        match &self.path {
            Some(path) => {
                let mut out = path.clone();
                append(&mut out, ": ");
                append(&mut out, self.message.as_str());
                out
            },
            None => self.message.clone(),
        }
    }
}

/// What kind of file-system object a snapshot entry records.
#[derive(Clone, Copy, Debug, PartialEq, Eq, Structural)]
pub enum SourceObjectKind {
    File,
    Directory,
    Symlink,
    Special,
}

/// One object of the source as it was when inspected; `modified` is in seconds
/// since the Unix epoch.
#[derive(Clone, Debug, PartialEq, Eq)]
pub struct SourceSnapshotEntry {
    pub relative_path: String,
    pub kind: SourceObjectKind,
    pub bytes: u64,
    pub modified: Option<u64>,
}

/// Everything inspection learned about the selected source.
#[derive(Clone, Debug, PartialEq, Eq)]
pub struct SourceInspection {
    pub source: String,
    pub kind: SourceKind,
    pub audio: Vec<InspectedAudio>,
    pub ancillary: Vec<AncillaryFile>,
    pub artwork: Vec<ArtworkCandidate>,
    pub selected_artwork: Option<usize>,
    pub notices: Vec<InspectionNotice>,
    pub snapshot: Vec<SourceSnapshotEntry>,
}

} // verus!
