use music_groomer::domain::{Position, SourceKind};
use music_groomer::provider::search::{original_year, source_inspection, ProviderError, ProviderSearch};
use music_groomer::source::{AudioFormat, AudioProperties, AudioTags, InspectedAudio, SourceInspection};

fn audio(track: u32, date: &str) -> InspectedAudio {
    InspectedAudio {
        relative_path: format!("{track:02}.flac"),
        format: AudioFormat::Flac,
        properties: AudioProperties {
            duration_ms: 120_000,
            sample_rate: Some(44_100),
            channels: Some(2),
            bit_depth: Some(16),
            audio_bitrate: None,
        },
        tags: AudioTags {
            title: Some(format!("Track {track}")),
            artist: Some("Track Artist".into()),
            album: Some("Album".into()),
            album_artist: Some("Album Artist".into()),
            date: Some(date.into()),
            track: Some(track),
            disc: Some(1),
            ..AudioTags::default()
        },
    }
}

fn source(audio: Vec<InspectedAudio>) -> SourceInspection {
    SourceInspection {
        source: "incoming/album".into(),
        kind: SourceKind::AlbumDirectory,
        audio,
        ancillary: Vec::new(),
        artwork: Vec::new(),
        selected_artwork: None,
        notices: Vec::new(),
        snapshot: Vec::new(),
    }
}

#[test]
fn builds_search_and_matching_values_from_real_inspection_shape() {
    let source = source(vec![audio(1, "1999-04-02"), audio(2, "1999-04-02")]);

    let (inspection, search) = source_inspection(&source);

    assert_eq!(inspection.tracks[0].position, Some(Position::new(1, 1)));
    assert_eq!(inspection.tracks[0].original_year, Some(1999));
    assert_eq!(search.album.as_deref(), Some("Album"));
    assert_eq!(search.artist.as_deref(), Some("Album Artist"));
    assert_eq!(search.track_count, 2);
    assert!(search.is_usable());
}

#[test]
fn cosmetic_case_and_spacing_differences_still_form_a_search() {
    let mut source = source(vec![audio(1, "1999"), audio(2, "1999")]);
    source.audio[1].tags.album = Some("  album  ".into());

    let (_, search) = source_inspection(&source);

    assert_eq!(search.album.as_deref(), Some("Album"));
    assert!(search.is_usable());
}

#[test]
fn disagreeing_albums_leave_the_album_out_of_the_search() {
    let mut source = source(vec![audio(1, "1999"), audio(2, "1999")]);
    source.audio[1].tags.album = Some("Another Album".into());

    let (_, search) = source_inspection(&source);

    assert_eq!(search.album, None);
    assert!(!search.is_usable());
}

#[test]
fn recordings_and_loose_titles_are_searched() {
    let mut source = source(vec![audio(3, "1999")]);
    source.kind = SourceKind::LooseFile;
    source.audio[0].tags.recording_id = Some("recording".into());
    source.audio[0].tags.track = Some(0);

    let (inspection, search) = source_inspection(&source);

    assert_eq!(search.title.as_deref(), Some("Track 3"));
    assert_eq!(search.recording_ids, vec!["recording".to_string()]);
    assert_eq!(inspection.tracks[0].position, None);
    assert!(search.is_usable());
}

#[test]
fn years_are_read_from_the_start_of_the_date() {
    let tags = |date: &str| AudioTags { date: Some(date.into()), ..AudioTags::default() };
    assert_eq!(original_year(&tags("  2004-05")), Some(2004));
    assert_eq!(original_year(&tags("+199x")), Some(199));
    assert_eq!(original_year(&tags("19")), None);
    assert_eq!(original_year(&tags("May 2004")), None);
    assert_eq!(original_year(&AudioTags::default()), None);
}

#[test]
fn a_search_needs_an_identifier_or_artist_and_name() {
    let search = ProviderSearch {
        kind: SourceKind::AlbumDirectory,
        album: None,
        artist: Some("Artist".into()),
        artist_ids: Vec::new(),
        album_artist_ids: Vec::new(),
        title: None,
        release_group_id: None,
        recording_ids: Vec::new(),
        track_count: 1,
    };
    assert!(!search.is_usable());
    let mut with_group = search.clone();
    with_group.release_group_id = Some("group".into());
    assert!(with_group.is_usable());
}

#[test]
fn provider_errors_read_as_sentences() {
    let error = ProviderError::HttpStatus { operation: "MusicBrainz search", status: 503 };
    assert_eq!(error.describe(), "MusicBrainz search returned HTTP 503");
    assert_eq!(
        ProviderError::InsufficientEvidence.describe(),
        "the source has too little metadata to search MusicBrainz"
    );
}
