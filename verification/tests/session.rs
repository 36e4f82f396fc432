use music_groomer::domain::{InspectedTrack, Inspection, SourceKind};
use music_groomer::guided_matching::session::{
    artwork_follows_refresh, initial_match_selection, interpret_menu_answer, interpret_refresh_confirmation,
    interpret_review_answer, metadata_provenance, refreshed_metadata_step, selection_after_change,
    selection_changed, session_start, session_step, MenuAnswer, RefreshStep, ReviewAnswer, SessionAction, SessionEvent,
    SessionPhase,
};
use music_groomer::guided_matching::{ArtworkSelection, MetadataProvenance};
use music_groomer::matching::MatchDecision;
use music_groomer::matching_ui::MetadataSelection;
use music_groomer::plan::MatchSelection;

fn track(release_group_id: Option<&str>) -> InspectedTrack {
    InspectedTrack {
        source_name: "01.flac".into(),
        title: Some("Song".into()),
        artist: Some("Artist".into()),
        album: Some("Album".into()),
        album_artist: Some("Artist".into()),
        artist_ids: Vec::new(),
        album_artist_ids: Vec::new(),
        compilation: None,
        original_year: None,
        position: None,
        duration_ms: 180_000,
        recording_id: None,
        release_group_id: release_group_id.map(str::to_owned),
    }
}

fn inspection(tracks: Vec<InspectedTrack>) -> Inspection {
    Inspection { source_label: "Album".into(), kind: SourceKind::AlbumDirectory, tracks }
}

#[test]
fn menu_answers_are_read_without_case() {
    assert_eq!(interpret_menu_answer("R", false), MenuAnswer::Review);
    assert_eq!(interpret_menu_answer("artwork", false), MenuAnswer::Artwork);
    assert_eq!(interpret_menu_answer("Refresh", false), MenuAnswer::Refresh);
    assert_eq!(interpret_menu_answer("", false), MenuAnswer::Redisplay);
    assert_eq!(interpret_menu_answer("QUIT", false), MenuAnswer::Done);
    assert_eq!(interpret_menu_answer("d", true), MenuAnswer::Done);
    assert_eq!(interpret_menu_answer("x", false), MenuAnswer::Unrecognized);
}

#[test]
fn offline_menu_offers_no_refresh() {
    assert_eq!(interpret_menu_answer("f", true), MenuAnswer::Unrecognized);
    assert_eq!(interpret_menu_answer("refresh", true), MenuAnswer::Unrecognized);
}

#[test]
fn first_selection_follows_the_decision() {
    assert_eq!(initial_match_selection(&MatchDecision::NeedsChoice(Vec::new())), MatchSelection::UserChosen);
    assert_eq!(initial_match_selection(&MatchDecision::NoUsableMatch(Vec::new())), MatchSelection::ExistingTags);
}

#[test]
fn changed_selection_is_the_users() {
    assert_eq!(
        selection_after_change(&MetadataSelection::ExistingTags, MatchSelection::Automatic),
        MatchSelection::ExistingTags
    );
    assert_eq!(
        selection_after_change(&MetadataSelection::Cancelled, MatchSelection::Automatic),
        MatchSelection::Automatic
    );
}

#[test]
fn refreshed_metadata_is_taken_quietly_only_when_it_grooms_alike() {
    assert_eq!(
        refreshed_metadata_step(&MetadataSelection::ExistingTags, &MetadataSelection::ExistingTags),
        RefreshStep::Replace
    );
    assert_eq!(
        refreshed_metadata_step(&MetadataSelection::ExistingTags, &MetadataSelection::Cancelled),
        RefreshStep::KeepCurrent
    );
    assert_eq!(
        refreshed_metadata_step(&MetadataSelection::Cancelled, &MetadataSelection::ExistingTags),
        RefreshStep::Confirm
    );
}

#[test]
fn refreshed_archive_artwork_replaces_only_archive_or_missing_choices() {
    assert!(!artwork_follows_refresh(&ArtworkSelection::Source(0), true));
    assert!(artwork_follows_refresh(&ArtworkSelection::Absent, false));
    assert!(!artwork_follows_refresh(&ArtworkSelection::Absent, true));
}

#[test]
fn provenance_names_where_metadata_came_from() {
    let shared = inspection(vec![track(Some("rg-1")), track(Some("rg-1"))]);
    let mixed = inspection(vec![track(Some("rg-1")), track(Some("rg-2"))]);
    assert_eq!(
        metadata_provenance(&MetadataSelection::ExistingTags, false, None, &shared),
        MetadataProvenance::ExistingTags { artwork_via_source_id: true }
    );
    assert_eq!(
        metadata_provenance(&MetadataSelection::ExistingTags, false, None, &mixed),
        MetadataProvenance::ExistingTags { artwork_via_source_id: false }
    );
    assert_eq!(
        metadata_provenance(&MetadataSelection::Cancelled, true, Some(1999), &shared),
        MetadataProvenance::Absent
    );
}

#[test]
fn review_answers_offer_identification_only_with_evidence() {
    assert_eq!(interpret_review_answer("S", false), ReviewAnswer::SourceFiles);
    assert_eq!(interpret_review_answer("metadata", false), ReviewAnswer::Metadata);
    assert_eq!(interpret_review_answer("w", true), ReviewAnswer::Warnings);
    assert_eq!(interpret_review_answer("i", true), ReviewAnswer::Identification);
    assert_eq!(interpret_review_answer("i", false), ReviewAnswer::Unrecognized);
    assert_eq!(interpret_review_answer("", true), ReviewAnswer::Back);
}

#[test]
fn revised_selection_changes_only_with_its_identity() {
    assert!(!selection_changed(&MetadataSelection::ExistingTags, &MetadataSelection::ExistingTags));
    assert!(selection_changed(&MetadataSelection::Cancelled, &MetadataSelection::ExistingTags));
    assert!(!selection_changed(&MetadataSelection::Cancelled, &MetadataSelection::Cancelled));
}

#[test]
fn refreshed_data_needs_an_explicit_yes() {
    assert_eq!(interpret_refresh_confirmation("Y"), Some(true));
    assert_eq!(interpret_refresh_confirmation(""), Some(false));
    assert_eq!(interpret_refresh_confirmation("no"), Some(false));
    assert_eq!(interpret_refresh_confirmation("later"), None);
}

#[test]
fn a_session_previews_then_refreshes_and_asks_about_changed_metadata() {
    let (s, action) = session_start(false);
    assert_eq!(action, SessionAction::LookUpMetadata { force_refresh: false });
    let (s, action) = session_step(s, SessionEvent::LookedUp);
    assert_eq!(action, SessionAction::Identify { force_refresh: false });
    let (s, action) = session_step(s, SessionEvent::Identified);
    assert_eq!(action, SessionAction::ChooseMetadata);
    let (s, action) = session_step(s, SessionEvent::Chose { cancelled: false });
    assert_eq!(action, SessionAction::FetchArtwork { force_refresh: false, adopt_refreshed_metadata: false });
    let (s, action) = session_step(s, SessionEvent::Fetched { archive_artwork_changed: false });
    assert_eq!(action, SessionAction::ShowPreview { adopt_refreshed_artwork: false });
    let (s, action) = session_step(s, SessionEvent::Answered("?".into()));
    assert_eq!(action, SessionAction::ComplainThenShowPreview);
    let (s, action) = session_step(s, SessionEvent::Answered("f".into()));
    assert_eq!(action, SessionAction::LookUpMetadata { force_refresh: true });
    let (s, _) = session_step(s, SessionEvent::LookedUp);
    let (s, _) = session_step(s, SessionEvent::Identified);
    let (s, action) = session_step(s, SessionEvent::RefreshChose(RefreshStep::Confirm));
    assert_eq!(action, SessionAction::AskToUseRefreshedMetadata);
    let (s, action) = session_step(s, SessionEvent::Answered("".into()));
    assert_eq!(action, SessionAction::FetchArtwork { force_refresh: true, adopt_refreshed_metadata: false });
    let (s, action) = session_step(s, SessionEvent::Fetched { archive_artwork_changed: true });
    assert_eq!(action, SessionAction::AskToUseRefreshedArtwork);
    let (s, action) = session_step(s, SessionEvent::Answered("yes".into()));
    assert_eq!(action, SessionAction::ShowPreview { adopt_refreshed_artwork: true });
    let (s, action) = session_step(s, SessionEvent::Answered("done".into()));
    assert_eq!(action, SessionAction::Finish { cancelled: false });
    assert_eq!(s.phase, SessionPhase::Finished);
}

#[test]
fn an_offline_session_cannot_refresh_and_a_cancelled_choice_ends_it() {
    let (s, _) = session_start(true);
    let (s, _) = session_step(s, SessionEvent::LookedUp);
    let (s, _) = session_step(s, SessionEvent::Identified);
    let (s, _) = session_step(s, SessionEvent::Chose { cancelled: false });
    let (s, _) = session_step(s, SessionEvent::Fetched { archive_artwork_changed: false });
    let (_, action) = session_step(s, SessionEvent::Answered("f".into()));
    assert_eq!(action, SessionAction::ComplainThenShowPreview);
    let (s, _) = session_start(true);
    let (s, _) = session_step(s, SessionEvent::LookedUp);
    let (s, _) = session_step(s, SessionEvent::Identified);
    let (_, action) = session_step(s, SessionEvent::Chose { cancelled: true });
    assert_eq!(action, SessionAction::Finish { cancelled: true });
}
