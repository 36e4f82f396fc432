use music_groomer::demo::planning::{coherent_standalone, demo_mappings_fit};
use music_groomer::demo::planning::{demo_plan, DemoData};
use music_groomer::demo::DemoError;
use music_groomer::domain::{
    Artist, ArtistCredit, CandidateRelease, InspectedTrack, Inspection, Position, ReleaseKind, ReleaseTrack, SourceKind,
};
use music_groomer::matching::{MatchReason, RankedCandidate, TrackMapping, TrackMatchBasis};
use music_groomer::plan::{ArtworkChoice, ArtworkOrigin, MatchSelection, MetadataBasis, PlanWarning, TagField};

fn inspected(name: &str, title: Option<&str>, artist: Option<&str>, track: u16) -> InspectedTrack {
    InspectedTrack {
        source_name: name.into(),
        title: title.map(str::to_owned),
        artist: artist.map(str::to_owned),
        album: None,
        album_artist: None,
        artist_ids: Vec::new(),
        album_artist_ids: Vec::new(),
        compilation: None,
        original_year: None,
        position: Some(Position { disc: 1, track }),
        duration_ms: 180_000,
        recording_id: None,
        release_group_id: None,
    }
}

fn credit(name: &str) -> ArtistCredit {
    ArtistCredit::credited(name, vec![Artist::named(name)])
}

fn artwork(label: &str) -> ArtworkChoice {
    ArtworkChoice {
        origin: ArtworkOrigin::SourceSidecar { source_name: "folder.jpg".into() },
        label: label.into(),
        dimensions: Some((1800, 1800)),
        output_name: Some("cover.jpg".into()),
    }
}

fn album_data() -> DemoData {
    DemoData {
        inspection: Inspection {
            source_label: "demo/incoming/The Group - The Album".into(),
            kind: SourceKind::AlbumDirectory,
            tracks: vec![
                inspected("01 opening.flac", Some("Opening (old title)"), Some("The Group"), 1),
                inspected("02 closing.flac", Some("Closing"), Some("The Group"), 2),
            ],
        },
        candidates: Vec::new(),
        extensions: vec!["flac".into(), "flac".into()],
        source_artwork: Some(artwork("folder.jpg")),
        provider_artwork: Some(artwork("archive")),
        warning: Some(PlanWarning { summary: "playlist".into(), detail: "kept".into() }),
        embedded_artwork_count: 2,
    }
}

fn selected() -> Box<RankedCandidate> {
    let track = |title: &str, number: u16| ReleaseTrack {
        title: title.into(),
        artist_credit: credit("The Group"),
        position: Position { disc: 1, track: number },
        duration_ms: 180_000,
        recording_id: None,
    };
    Box::new(RankedCandidate {
        candidate: CandidateRelease {
            provider_key: "clear".into(),
            title: "The Album".into(),
            album_artist: credit("The Group"),
            original_year: Some(1971),
            kind: ReleaseKind::Album,
            tracks: vec![track("Opening", 1), track("Closing", 2)],
            release_group_id: None,
            exact_release_id: None,
        },
        mappings: vec![
            TrackMapping { source_index: 0, candidate_index: 0, basis: TrackMatchBasis::PositionFallback },
            TrackMapping { source_index: 1, candidate_index: 1, basis: TrackMatchBasis::PositionFallback },
        ],
        reasons: vec![MatchReason { summary: "track count matches".into() }],
        score: 90,
        complete: true,
        credible_identity: true,
        meaningful_track_evidence: true,
        identifier_conflict: false,
    })
}

#[test]
fn a_demo_album_is_laid_out_and_retagged_from_the_candidate() {
    let plan = demo_plan(&album_data(), Some(selected()), MatchSelection::Automatic, "/library").unwrap();
    assert!(matches!(plan.metadata, MetadataBasis::MusicBrainz(_)));
    assert_eq!(plan.match_reasons, vec!["track count matches".to_string()]);
    assert_eq!(plan.destination, "/library/The Group/1971 - The Album");
    assert_eq!(plan.tracks.len(), 2);
    assert_eq!(plan.tracks[0].destination, "/library/The Group/1971 - The Album/01 - Opening.flac");
    assert!(plan.tracks[0].tag_changes.iter().any(|change| change.field == TagField::Title));
    assert!(!plan.tracks[1].tag_changes.iter().any(|change| change.field == TagField::Title));
    assert_eq!(plan.artwork.label, "folder.jpg");
    assert_eq!(plan.artwork_alternatives.len(), 1);
    assert_eq!(plan.warnings.len(), 1);
    assert_eq!(plan.preserved_embedded_artwork, 2);
}

#[test]
fn a_demo_standalone_track_keeps_its_tags() {
    let data = DemoData {
        inspection: Inspection {
            source_label: "demo/incoming/track.mp3".into(),
            kind: SourceKind::LooseFile,
            tracks: vec![inspected("track.mp3", Some("Song"), Some("Singer"), 1)],
        },
        candidates: Vec::new(),
        extensions: vec!["mp3".into()],
        source_artwork: None,
        provider_artwork: None,
        warning: None,
        embedded_artwork_count: 0,
    };
    let plan = demo_plan(&data, None, MatchSelection::ExistingTags, "/library").unwrap();
    assert!(matches!(plan.metadata, MetadataBasis::ExistingTags));
    assert_eq!(plan.tracks.len(), 1);
    assert!(plan.tracks[0].tag_changes.is_empty());
    assert_eq!(plan.artwork.label, "No sidecar artwork");
}

#[test]
fn a_demo_standalone_track_without_an_artist_is_invalid() {
    let data = DemoData {
        inspection: Inspection {
            source_label: "x".into(),
            kind: SourceKind::LooseFile,
            tracks: vec![inspected("track.mp3", Some("Song"), None, 1)],
        },
        candidates: Vec::new(),
        extensions: vec!["mp3".into()],
        source_artwork: None,
        provider_artwork: None,
        warning: None,
        embedded_artwork_count: 0,
    };
    match demo_plan(&data, None, MatchSelection::ExistingTags, "/library") {
        Err(DemoError::InvalidDemoData(message)) => assert_eq!(message, "standalone track has no artist"),
        other => panic!("unexpected {other:?}"),
    }
}

#[test]
fn a_simulated_apply_reports_the_plan_without_copying() {
    let plan = demo_plan(&album_data(), Some(selected()), MatchSelection::Automatic, "/library").unwrap();
    let report = music_groomer::demo::session::demo_apply_report(&plan);
    assert_eq!(report.destination, plan.destination);
    assert_eq!(report.tracks_validated, plan.tracks.len());
    assert_eq!(report.artwork_validated, plan.artwork.output_name.is_some());
    assert!(report.source_unchanged);
    assert!(report.warnings.is_empty());
    assert!(!report.publication_copied);
}

#[test]
fn demo_data_fit_checks_mappings_and_standalone_tags() {

    let data = album_data();
    let mut chosen = selected();
    assert!(demo_mappings_fit(&data, &chosen));
    chosen.mappings[0].source_index = 7;
    assert!(!demo_mappings_fit(&data, &chosen));
    assert!(!coherent_standalone(&data));
}
