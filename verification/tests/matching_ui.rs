use music_groomer::matching::MatchDecision;
use music_groomer::matching_ui::{choice_start, choice_step, ChoiceAction, ChoiceOutcome, ChoicePhase};
use music_groomer::domain::{InspectedTrack, Inspection, Position, SourceKind};
use music_groomer::matching_ui::{
    coherent_existing_metadata, initially_shown, interpret_candidate_answer,
    interpret_fallback_answer, CandidateAnswer, FallbackAnswer,
};

fn track(title: Option<&str>, artist: Option<&str>, position: Option<Position>) -> InspectedTrack {
    InspectedTrack {
        source_name: "track.flac".into(),
        title: title.map(String::from),
        artist: artist.map(String::from),
        album: None,
        album_artist: None,
        artist_ids: Vec::new(),
        album_artist_ids: Vec::new(),
        compilation: None,
        original_year: None,
        position,
        duration_ms: 1000,
        recording_id: None,
        release_group_id: None,
    }
}

fn album_track(number: u16, album: &str, album_artist: &str) -> InspectedTrack {
    let mut track = track(Some("Title"), Some("Artist"), Some(Position::new(1, number)));
    track.album = Some(album.into());
    track.album_artist = Some(album_artist.into());
    track
}

#[test]
fn coherent_standalone_can_use_existing_tags() {
    let inspection = Inspection {
        source_label: "track.flac".into(),
        kind: SourceKind::LooseFile,
        tracks: vec![track(Some("Title"), Some("Artist"), Some(Position::new(1, 1)))],
    };

    assert!(coherent_existing_metadata(&inspection).is_ok());
}

#[test]
fn incomplete_local_metadata_lists_each_problem_once_in_order() {
    let inspection = Inspection {
        source_label: "track.flac".into(),
        kind: SourceKind::LooseFile,
        tracks: vec![track(None, None, None), track(Some(" "), None, None)],
    };

    assert_eq!(
        coherent_existing_metadata(&inspection).unwrap_err(),
        vec!["a track artist is missing".to_string(), "a track title is missing".to_string()]
    );
}

#[test]
fn album_tags_must_agree_and_positions_must_be_distinct() {
    let inspection = Inspection {
        source_label: "album".into(),
        kind: SourceKind::AlbumDirectory,
        tracks: vec![album_track(1, "Album", "Artist"), album_track(1, "Other", "  ARTIST ")],
    };

    assert_eq!(
        coherent_existing_metadata(&inspection).unwrap_err(),
        vec![
            "album titles disagree".to_string(),
            "disc-track positions are duplicated or missing".to_string()
        ]
    );
}

#[test]
fn an_empty_album_has_no_tracks_to_use() {
    let inspection = Inspection { source_label: "album".into(), kind: SourceKind::AlbumDirectory, tracks: Vec::new() };

    assert_eq!(coherent_existing_metadata(&inspection).unwrap_err(), vec!["no audio tracks".to_string()]);
}

#[test]
fn candidate_answers_pick_shown_numbers_and_known_words() {
    assert_eq!(interpret_candidate_answer("2", 3, 5, false), CandidateAnswer::Pick(1));
    assert_eq!(interpret_candidate_answer("+1", 3, 5, false), CandidateAnswer::Pick(0));
    assert_eq!(interpret_candidate_answer("4", 3, 5, false), CandidateAnswer::Unrecognized);
    assert_eq!(interpret_candidate_answer("0", 3, 5, false), CandidateAnswer::Unrecognized);
    assert_eq!(interpret_candidate_answer("99999999999999999999999", 3, 5, false), CandidateAnswer::Unrecognized);
    assert_eq!(interpret_candidate_answer("More", 3, 5, false), CandidateAnswer::ShowMore);
    assert_eq!(interpret_candidate_answer("m", 5, 5, false), CandidateAnswer::Unrecognized);
    assert_eq!(interpret_candidate_answer("E", 3, 5, true), CandidateAnswer::UseExisting);
    assert_eq!(interpret_candidate_answer("e", 3, 5, false), CandidateAnswer::Unrecognized);
    assert_eq!(interpret_candidate_answer("QUIT", 3, 5, false), CandidateAnswer::Cancel);
    assert_eq!(initially_shown(5), 3);
    assert_eq!(initially_shown(2), 2);
}

#[test]
fn fallback_answers_default_to_yes() {
    assert_eq!(interpret_fallback_answer(""), FallbackAnswer::UseExisting);
    assert_eq!(interpret_fallback_answer("YES"), FallbackAnswer::UseExisting);
    assert_eq!(interpret_fallback_answer("no"), FallbackAnswer::Cancel);
    assert_eq!(interpret_fallback_answer("maybe"), FallbackAnswer::Unrecognized);
}

#[test]
fn incomplete_local_metadata_explains_why_it_cannot_be_fallback() {
    let inspection = Inspection {
        source_label: "track.flac".into(),
        kind: SourceKind::LooseFile,
        tracks: vec![track(None, None, None)],
    };

    let coherent = coherent_existing_metadata(&inspection);
    let (phase, action) = choice_start(&MatchDecision::NoUsableMatch(Vec::new()), coherent.is_ok());

    assert_eq!((phase, action), (ChoicePhase::Finished, ChoiceAction::ExplainIncomplete));
    let problems = coherent.unwrap_err();
    assert!(problems.iter().any(|problem| problem.contains("track artist is missing")));
    assert!(problems.iter().any(|problem| problem.contains("track title is missing")));
}

#[test]
fn coherent_existing_tags_are_offered_when_nothing_matches() {
    let inspection = Inspection {
        source_label: "track.flac".into(),
        kind: SourceKind::LooseFile,
        tracks: vec![track(Some("Title"), Some("Artist"), None)],
    };

    let usable = coherent_existing_metadata(&inspection).is_ok();
    let (phase, action) = choice_start(&MatchDecision::NoUsableMatch(Vec::new()), usable);
    assert_eq!((phase, action), (ChoicePhase::Fallback, ChoiceAction::AskFallback));
    let (phase, action) = choice_step(phase, "maybe");
    assert_eq!(action, ChoiceAction::ComplainThenAskFallback);
    let (_, action) = choice_step(phase, "");
    assert_eq!(action, ChoiceAction::Finish(ChoiceOutcome::ExistingTags));
}
