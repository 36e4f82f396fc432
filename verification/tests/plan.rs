use music_groomer::domain::{ArtistCredit, CandidateRelease, ReleaseKind};
use music_groomer::plan::{
    ArtworkChoice, ArtworkOrigin, GroomingPlan, MatchSelection, MetadataBasis, PlanError, TagChange,
    TagField, TrackPlan,
};

fn plan() -> GroomingPlan {
    GroomingPlan {
        source_label: "incoming".into(),
        metadata: MetadataBasis::MusicBrainz(CandidateRelease {
            provider_key: "candidate".into(),
            title: "Album".into(),
            album_artist: ArtistCredit::single("Artist"),
            original_year: Some(2000),
            kind: ReleaseKind::Album,
            tracks: Vec::new(),
            release_group_id: None,
            exact_release_id: None,
        }),
        match_selection: MatchSelection::Automatic,
        match_reasons: Vec::new(),
        destination_root: String::new(),
        destination: "Artist/2000 - Album".into(),
        tracks: vec![TrackPlan {
            source_relative: "old.flac".into(),
            destination: "Artist/2000 - Album/01 - New.flac".into(),
            tag_changes: vec![TagChange {
                field: TagField::Title,
                before: Some("Old".into()),
                after: "New".into(),
            }],
            planned_tags: None,
        }],
        ancillary: Vec::new(),
        ancillary_directories: Vec::new(),
        artwork: ArtworkChoice {
            origin: ArtworkOrigin::Absent,
            label: "No sidecar artwork".into(),
            dimensions: None,
            output_name: None,
        },
        artwork_alternatives: Vec::new(),
        warnings: Vec::new(),
        preserved_embedded_artwork: 1,
        archive_artwork_bytes: None,
    }
}

fn sidecar(name: &str) -> ArtworkChoice {
    ArtworkChoice {
        origin: ArtworkOrigin::SourceSidecar { source_name: name.into() },
        label: format!("Source {name}"),
        dimensions: Some((500, 400)),
        output_name: Some("cover.jpg".into()),
    }
}

#[test]
fn summarizes_changes_without_hiding_the_underlying_plan() {
    let plan = plan();

    assert_eq!(plan.tag_change_count(), 1);
    assert_eq!(plan.filename_change_count(), 1);
    assert_eq!(plan.tracks[0].tag_changes[0].field, TagField::Title);
}

#[test]
fn relocates_the_complete_plan_without_changing_relative_layout() {
    let relocated = plan()
        .with_destination_root("/media/music".into())
        .expect("plan paths begin under their root");

    assert_eq!(relocated.destination, "/media/music/Artist/2000 - Album");
    assert_eq!(relocated.tracks[0].destination, "/media/music/Artist/2000 - Album/01 - New.flac");
}

#[test]
fn relocating_twice_is_the_same_as_relocating_once() {
    let once = plan().with_destination_root("/media/music".into()).unwrap();
    let twice = plan()
        .with_destination_root("/elsewhere".into())
        .unwrap()
        .with_destination_root("/media/music".into())
        .unwrap();

    assert_eq!(once.destination, twice.destination);
    assert_eq!(once.tracks[0].destination, twice.tracks[0].destination);
}

#[test]
fn relocation_refuses_a_destination_outside_its_root() {
    let mut plan = plan();
    plan.destination_root = "/library".into();
    plan.destination = "/elsewhere/Artist".into();

    let error = plan.with_destination_root("/media".into()).unwrap_err();

    assert_eq!(error, PlanError::DestinationOutsideRoot("/elsewhere/Artist".into()));
    assert_eq!(
        error.describe(),
        "planned destination /elsewhere/Artist is outside its destination root"
    );
}

#[test]
fn unchanged_file_names_are_not_counted_as_renames() {
    let mut plan = plan();
    plan.tracks[0].destination = "Artist/2000 - Album/old.flac".into();

    assert_eq!(plan.filename_change_count(), 0);
}

#[test]
fn choosing_new_artwork_keeps_the_previous_choice_as_an_alternative() {
    let chosen = plan().with_artwork(sidecar("folder.jpg"));

    assert_eq!(chosen.artwork, sidecar("folder.jpg"));
    assert_eq!(chosen.artwork_alternatives.len(), 1);
    assert_eq!(chosen.artwork_alternatives[0].origin, ArtworkOrigin::Absent);

    let back = chosen.with_artwork(plan().artwork);
    assert_eq!(back.artwork.origin, ArtworkOrigin::Absent);
    assert_eq!(back.artwork_alternatives, vec![sidecar("folder.jpg")]);
}

#[test]
fn choosing_the_current_artwork_changes_nothing() {
    let same = plan().with_artwork(plan().artwork);

    assert!(same.artwork_alternatives.is_empty());
}

#[test]
fn artwork_description_shows_known_dimensions() {
    assert_eq!(sidecar("folder.jpg").description(), "Source folder.jpg (500x400)");
    assert_eq!(plan().artwork.description(), "No sidecar artwork");
}

#[test]
fn tag_fields_have_readable_labels() {
    assert_eq!(TagField::AlbumArtistIds.label(), "MusicBrainz album-artist IDs");
    assert_eq!(TagField::TrackTotal.label(), "track total");
}

#[test]
fn relocating_there_and_back_gives_the_same_paths() {
    let mut original = plan();
    original.destination_root = "/root".into();
    original.destination = "/root//Artist/./2000 - Album".into();
    original.tracks[0].destination = "/root//Artist/2000 - Album/01 - New.flac".into();

    let there = original_copy(&original).with_destination_root("/new".into()).unwrap();
    assert_eq!(there.destination, "/new/Artist/2000 - Album");
    let back = there.with_destination_root("/root".into()).unwrap();

    assert_eq!(back.destination_root, "/root");
    assert_eq!(back.destination, "/root/Artist/2000 - Album");
    assert_eq!(std::path::Path::new(&back.destination), std::path::Path::new(&original.destination));
    assert_eq!(
        std::path::Path::new(&back.tracks[0].destination),
        std::path::Path::new(&original.tracks[0].destination)
    );
    assert_eq!(back.tracks[0].tag_changes, original.tracks[0].tag_changes);
}

fn original_copy(plan: &GroomingPlan) -> GroomingPlan {
    GroomingPlan {
        source_label: plan.source_label.clone(),
        metadata: plan.metadata.clone(),
        match_selection: plan.match_selection,
        match_reasons: plan.match_reasons.clone(),
        destination_root: plan.destination_root.clone(),
        destination: plan.destination.clone(),
        tracks: plan.tracks.clone(),
        ancillary: plan.ancillary.clone(),
        ancillary_directories: plan.ancillary_directories.clone(),
        artwork: plan.artwork.clone(),
        artwork_alternatives: plan.artwork_alternatives.clone(),
        warnings: plan.warnings.clone(),
        preserved_embedded_artwork: plan.preserved_embedded_artwork,
        archive_artwork_bytes: plan.archive_artwork_bytes.clone(),
    }
}
