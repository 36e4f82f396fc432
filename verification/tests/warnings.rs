use music_groomer::domain::{ArtistCredit, CandidateRelease, InspectedTrack, Inspection, Position, ReleaseKind, SourceKind};
use music_groomer::guided_matching::warnings::{
    deduplicated, identifier_warnings, selection_year_warnings, source_warnings, WarningState,
};
use music_groomer::guided_matching::ArtworkSelection;
use music_groomer::matching::RankedCandidate;
use music_groomer::matching_ui::MetadataSelection;
use music_groomer::source::{InspectionNotice, NoticeKind, NoticeSeverity, SourceInspection};

fn track(name: &str, year: Option<u16>, group: Option<&str>, artist_ids: &[&str]) -> InspectedTrack {
    InspectedTrack {
        source_name: name.into(),
        title: Some("Title".into()),
        artist: Some("Artist".into()),
        album: Some("Album".into()),
        album_artist: Some("Artist".into()),
        artist_ids: Vec::new(),
        album_artist_ids: artist_ids.iter().map(|id| id.to_string()).collect(),
        compilation: Some(false),
        original_year: year,
        position: Some(Position::new(1, 1)),
        duration_ms: 1000,
        recording_id: None,
        release_group_id: group.map(Into::into),
    }
}

fn inspection(tracks: Vec<InspectedTrack>) -> Inspection {
    Inspection { source_label: "incoming/album".into(), kind: SourceKind::AlbumDirectory, tracks }
}

fn source(notices: Vec<InspectionNotice>) -> SourceInspection {
    SourceInspection {
        source: "incoming/album".into(),
        kind: SourceKind::AlbumDirectory,
        audio: Vec::new(),
        ancillary: Vec::new(),
        artwork: Vec::new(),
        selected_artwork: None,
        notices,
        snapshot: Vec::new(),
    }
}

fn selected(year: Option<u16>) -> MetadataSelection {
    MetadataSelection::Provider(Box::new(RankedCandidate {
        candidate: CandidateRelease {
            provider_key: "release".into(),
            title: "Album".into(),
            album_artist: ArtistCredit::single("Artist"),
            original_year: year,
            kind: ReleaseKind::Album,
            tracks: Vec::new(),
            release_group_id: Some("group".into()),
            exact_release_id: None,
        },
        mappings: Vec::new(),
        reasons: Vec::new(),
        score: 10,
        complete: true,
        credible_identity: true,
        meaningful_track_evidence: true,
        identifier_conflict: false,
    }))
}

fn year_of(selection: &MetadataSelection) -> Option<u16> {
    match selection {
        MetadataSelection::Provider(ranked) => ranked.candidate.original_year,
        _ => None,
    }
}

#[test]
fn current_warnings_keep_source_paths_and_drop_repeated_causes() {
    let notices = vec![
        InspectionNotice::warning(NoticeKind::StaleReference, Some("01.flac".into()), "stale reference"),
        InspectionNotice::warning(NoticeKind::MissingMetadata, None, "missing album"),
        InspectionNotice {
            kind: NoticeKind::Unreadable,
            severity: NoticeSeverity::Blocker,
            path: None,
            message: "blocked".into(),
        },
    ];
    let tracks = inspection(vec![track("01.flac", None, Some("a"), &[]), track("02.flac", None, None, &[])]);
    let mut state = WarningState::new(&source(notices), &tracks);
    state.set_metadata(vec!["missing album".into(), "lookup".into()]);
    state.set_identification(vec!["lookup".into()]);
    state.set_artwork(Vec::new(), &ArtworkSelection::Absent, None);

    assert_eq!(
        state.current(),
        vec![
            "01.flac: stale reference",
            "missing album",
            "Source MusicBrainz release-group identifiers are inconsistent; using textual discovery instead",
            "lookup",
            "No album artwork is available",
        ]
    );
}

#[test]
fn identifier_warnings_detect_disagreeing_release_groups_and_artists() {
    let consistent = inspection(vec![track("1", None, Some("g"), &["x"]), track("2", None, Some("g"), &["x"])]);
    let differing = inspection(vec![track("1", None, Some("g"), &["x"]), track("2", None, Some("h"), &["y"])]);

    assert!(identifier_warnings(&consistent).is_empty());
    assert_eq!(
        identifier_warnings(&differing),
        vec![
            "Source MusicBrainz release-group identifiers are inconsistent; using textual discovery instead",
            "Source MusicBrainz album-artist identifiers are inconsistent; using artist names instead",
        ]
    );
}

#[test]
fn missing_year_is_filled_from_an_agreeing_source_with_a_warning() {
    let agreeing = inspection(vec![track("1", Some(1971), None, &[]), track("2", Some(1971), None, &[])]);
    let mut selection = selected(None);

    let (year, warnings) = selection_year_warnings(&agreeing, &mut selection);

    assert_eq!(year, Some(1971));
    assert_eq!(year_of(&selection), Some(1971));
    assert_eq!(
        warnings,
        vec!["Selected MusicBrainz metadata has no original year; source year 1971 is used as an unverified fallback"]
    );
}

#[test]
fn missing_year_stays_absent_when_the_source_disagrees() {
    let disagreeing = inspection(vec![track("1", Some(1971), None, &[]), track("2", Some(1972), None, &[])]);
    let mut selection = selected(None);

    let (year, warnings) = selection_year_warnings(&disagreeing, &mut selection);

    assert_eq!(year, None);
    assert_eq!(year_of(&selection), None);
    assert_eq!(warnings, vec!["MusicBrainz and the source do not provide an original year; it will remain absent"]);

    let mut dated = selected(Some(1969));
    assert_eq!(selection_year_warnings(&disagreeing, &mut dated), (None, Vec::new()));
    assert_eq!(year_of(&dated), Some(1969));
}

#[test]
fn duplicates_keep_their_first_place() {
    assert_eq!(
        deduplicated(vec!["b".into(), "a".into(), "b".into(), "c".into(), "a".into()]),
        vec!["b", "a", "c"]
    );
    assert!(source_warnings(&source(Vec::new())).is_empty());
}

use music_groomer::guided_matching::{
    artwork_group, common_release_group_id, initial_artwork, parse_choice, same_result, selection_for,
};
use music_groomer::provider::cover_art_archive::ProviderArtwork;
use music_groomer::source::ArtworkFormat;

fn front() -> ProviderArtwork {
    ProviderArtwork { bytes: vec![1, 2, 3], format: ArtworkFormat::Jpeg, dimensions: (1200, 1200) }
}

#[test]
fn artwork_identity_follows_the_selected_metadata() {
    let shared = inspection(vec![track("1", None, Some("g"), &[]), track("2", None, Some("g"), &[])]);
    let mixed = inspection(vec![track("1", None, Some("g"), &[]), track("2", None, None, &[])]);

    assert_eq!(common_release_group_id(&shared).as_deref(), Some("g"));
    assert_eq!(common_release_group_id(&mixed), None);
    assert_eq!(artwork_group(&mixed, &selected(None)), Ok("group".to_string()));
    assert_eq!(artwork_group(&shared, &MetadataSelection::ExistingTags), Ok("g".to_string()));
    assert_eq!(
        artwork_group(&mixed, &MetadataSelection::ExistingTags),
        Err("Selected metadata has no release-group artwork identity".to_string())
    );
}

#[test]
fn initial_artwork_prefers_the_source_cover_then_the_archive_front() {
    let mut with_cover = source(Vec::new());
    let without_cover = source(Vec::new());
    with_cover.selected_artwork = Some(0);
    let archive = front();

    assert!(matches!(initial_artwork(&with_cover, &selected(None), Some(&archive)), ArtworkSelection::Source(0)));
    assert!(matches!(
        initial_artwork(&without_cover, &selected(None), Some(&archive)),
        ArtworkSelection::CoverArtArchive(_)
    ));
    assert!(matches!(
        initial_artwork(&without_cover, &MetadataSelection::ExistingTags, Some(&archive)),
        ArtworkSelection::Absent
    ));
}

#[test]
fn artwork_choices_are_numbered_source_first_then_archive() {
    assert_eq!(parse_choice(" 2 ", 3), Some(2));
    assert_eq!(parse_choice("+1", 3), Some(1));
    assert_eq!(parse_choice("0", 3), None);
    assert_eq!(parse_choice("4", 3), None);
    assert_eq!(parse_choice("99999999999999999999999", 3), None);
    assert_eq!(parse_choice("two", 3), None);
    let archive = front();
    let source = source(Vec::new());
    assert!(matches!(selection_for(&source, Some(&archive), 1), ArtworkSelection::CoverArtArchive(_)));
}

#[test]
fn same_result_compares_what_would_be_groomed() {
    assert!(same_result(&selected(Some(1970)), &selected(Some(1970))));
    assert!(!same_result(&selected(Some(1970)), &selected(Some(1971))));
    assert!(same_result(&MetadataSelection::ExistingTags, &MetadataSelection::ExistingTags));
    assert!(!same_result(&MetadataSelection::ExistingTags, &MetadataSelection::Cancelled));
}

use music_groomer::artwork_viewer::{ArtworkViewer, ViewerError};
use music_groomer::guided_matching::{view_artwork, view_message};
use music_groomer::provider::search::source_inspection;
use music_groomer::source::{AudioFormat, AudioProperties, AudioTags, InspectedAudio};

fn audio_source() -> SourceInspection {
    SourceInspection {
        source: "incoming/album".into(),
        kind: SourceKind::AlbumDirectory,
        audio: vec![InspectedAudio {
            relative_path: "01.flac".into(),
            format: AudioFormat::Flac,
            properties: AudioProperties {
                duration_ms: 120_000,
                sample_rate: Some(44_100),
                channels: Some(2),
                bit_depth: Some(16),
                audio_bitrate: None,
            },
            tags: AudioTags {
                title: Some("Track".into()),
                artist: Some("Artist".into()),
                album: Some("Album".into()),
                album_artist: Some("Artist".into()),
                date: Some("2000".into()),
                track: Some(1),
                disc: Some(1),
                ..AudioTags::default()
            },
        }],
        ancillary: Vec::new(),
        artwork: Vec::new(),
        selected_artwork: None,
        notices: Vec::new(),
        snapshot: Vec::new(),
    }
}

#[test]
fn inconsistent_source_identity_tags_are_visible_before_textual_fallback() {
    let (mut inspection, _) = source_inspection(&audio_source());
    inspection.tracks[0].album_artist_ids = vec!["artist-one".into()];
    let mut second = inspection.tracks[0].clone();
    second.source_name = "02.flac".into();
    second.album_artist_ids = vec!["artist-two".into()];
    second.release_group_id = Some("other-group".into());
    inspection.tracks[0].release_group_id = Some("first-group".into());
    inspection.tracks.push(second);

    let warnings = identifier_warnings(&inspection);

    assert!(warnings.iter().any(|warning| warning.contains("release-group")));
    assert!(warnings.iter().any(|warning| warning.contains("album-artist")));
}

#[derive(Default)]
struct RecordingViewer {
    paths: Vec<String>,
    downloads: usize,
}

impl ArtworkViewer for RecordingViewer {
    fn view_path(&mut self, path: &str) -> Result<(), ViewerError> {
        self.paths.push(path.to_owned());
        Ok(())
    }

    fn view_download(&mut self, _artwork: &ProviderArtwork) -> Result<(), ViewerError> {
        self.downloads += 1;
        Ok(())
    }
}

#[test]
fn artwork_view_action_uses_the_viewer_boundary() {
    let mut viewer = RecordingViewer::default();
    let artwork = ProviderArtwork { bytes: vec![1, 2, 3], format: ArtworkFormat::Jpeg, dimensions: (10, 20) };

    let result = view_artwork(&audio_source(), &ArtworkSelection::CoverArtArchive(artwork), &mut viewer);
    let message = view_message(&result);

    assert_eq!(viewer.downloads, 1);
    assert!(message.contains("Opened the artwork choice"));
}

#[test]
fn source_covers_are_viewed_by_their_path_and_missing_ones_are_explained() {
    let mut viewer = RecordingViewer::default();
    let mut source = audio_source();
    source.artwork = vec![music_groomer::source::ArtworkCandidate {
        relative_path: "cover.jpg".into(),
        format: ArtworkFormat::Jpeg,
        dimensions: (400, 400),
        name_priority: 0,
    }];

    assert!(view_artwork(&source, &ArtworkSelection::Source(0), &mut viewer).is_ok());
    assert_eq!(viewer.paths, vec!["incoming/album/cover.jpg"]);
    let missing = view_artwork(&source, &ArtworkSelection::Source(3), &mut viewer);
    assert_eq!(view_message(&missing), "Could not view artwork: the selected source cover is unavailable");
    let none = view_artwork(&source, &ArtworkSelection::Absent, &mut viewer);
    assert_eq!(view_message(&none), "Could not view artwork: no artwork is available to view");
}
