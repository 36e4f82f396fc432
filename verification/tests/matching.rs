use music_groomer::matching_ui::{choice_start, choice_step, ChoiceAction, ChoiceOutcome, ChoicePhase};
use music_groomer::domain::{
    Artist, ArtistCredit, CandidateRelease, InspectedTrack, Inspection, Position, ReleaseKind,
    ReleaseTrack, SourceKind,
};
use music_groomer::matching::{MatchDecision, MatchPolicy, TrackMatchBasis};
use music_groomer::text::normalize;

fn inspected_album() -> Inspection {
    Inspection {
        source_label: "incoming/album".into(),
        kind: SourceKind::AlbumDirectory,
        tracks: vec![
            inspected_track("01 old.flac", "Opening", 1, 180_000),
            inspected_track("02 old.flac", "Closing", 2, 240_000),
        ],
    }
}

fn inspected_track(name: &str, title: &str, track: u16, duration_ms: u64) -> InspectedTrack {
    InspectedTrack {
        source_name: name.into(),
        title: Some(title.into()),
        artist: Some("The Group".into()),
        album: Some("The Album".into()),
        album_artist: Some("The Group".into()),
        artist_ids: Vec::new(),
        album_artist_ids: Vec::new(),
        compilation: Some(false),
        original_year: Some(1971),
        position: Some(Position::new(1, track)),
        duration_ms,
        recording_id: None,
        release_group_id: None,
    }
}

fn candidate(key: &str, title: &str, durations: [u64; 2]) -> CandidateRelease {
    CandidateRelease {
        provider_key: key.into(),
        title: title.into(),
        album_artist: ArtistCredit::single("The Group"),
        original_year: Some(1971),
        kind: ReleaseKind::Album,
        tracks: vec![
            ReleaseTrack {
                title: "Opening".into(),
                artist_credit: ArtistCredit::single("The Group"),
                position: Position::new(1, 1),
                duration_ms: durations[0],
                recording_id: None,
            },
            ReleaseTrack {
                title: "Closing".into(),
                artist_credit: ArtistCredit::single("The Group"),
                position: Position::new(1, 2),
                duration_ms: durations[1],
                recording_id: None,
            },
        ],
        release_group_id: None,
        exact_release_id: None,
    }
}

#[test]
fn auto_selects_clear_structural_text_and_duration_match() {
    let decision = MatchPolicy::default().decide(
        &inspected_album(),
        vec![
            candidate("best", "The Album", [180_500, 239_500]),
            candidate("other", "Other Edition", [191_000, 251_000]),
        ],
    );

    let MatchDecision::Selected { selected, .. } = decision else {
        panic!("expected automatic selection");
    };
    assert_eq!(selected.candidate.provider_key, "best");
    assert!(selected.is_complete());
}

#[test]
fn asks_when_two_candidates_have_equivalent_evidence() {
    let decision = MatchPolicy::default().decide(
        &inspected_album(),
        vec![
            candidate("one", "The Album", [180_000, 240_000]),
            candidate("two", "The Album", [180_000, 240_000]),
        ],
    );

    let MatchDecision::NeedsChoice(candidates) = decision else {
        panic!("expected a choice");
    };
    assert_eq!(candidates.len(), 2);
}

#[test]
fn rejects_album_candidate_with_incomplete_structure() {
    let mut incomplete = candidate("short", "The Album", [180_000, 240_000]);
    incomplete.tracks.pop();

    let decision = MatchPolicy::default().decide(&inspected_album(), vec![incomplete]);

    assert!(matches!(decision, MatchDecision::NoUsableMatch(_)));
}

#[test]
fn ignores_incomplete_candidate_when_selecting_the_best_usable_match() {
    let mut incomplete = candidate("incomplete", "The Album", [180_000, 240_000]);
    incomplete.tracks.pop();
    incomplete.tracks[0].recording_id = Some("recording-1".into());

    let mut inspection = inspected_album();
    inspection.tracks[0].recording_id = Some("recording-1".into());
    let usable = candidate("usable", "The Album", [180_500, 239_500]);

    let decision = MatchPolicy::default().decide(&inspection, vec![incomplete, usable]);

    let MatchDecision::Selected { selected, .. } = decision else {
        panic!("expected the complete candidate to be selected");
    };
    assert_eq!(selected.candidate.provider_key, "usable");
}

#[test]
fn weak_position_only_evidence_is_not_automatically_accepted() {
    let mut weak = candidate("weak", "Different Album", [300_000, 300_000]);
    for (index, track) in weak.tracks.iter_mut().enumerate() {
        track.title = format!("Unrelated {index}");
        track.artist_credit = ArtistCredit::single("Someone Else");
    }

    let decision = MatchPolicy::default().decide(&inspected_album(), vec![weak]);

    assert!(matches!(decision, MatchDecision::NeedsChoice(_)));
}

#[test]
fn standalone_track_can_map_into_a_single_release() {
    let inspection = Inspection {
        source_label: "song.flac".into(),
        kind: SourceKind::LooseFile,
        tracks: vec![InspectedTrack {
            source_name: "song.flac".into(),
            title: Some("The Song".into()),
            artist: Some("The Artist".into()),
            album: None,
            album_artist: None,
            artist_ids: Vec::new(),
            album_artist_ids: Vec::new(),
            compilation: None,
            original_year: None,
            position: None,
            duration_ms: 200_000,
            recording_id: Some("recording-1".into()),
            release_group_id: None,
        }],
    };
    let candidate = CandidateRelease {
        provider_key: "single".into(),
        title: "The Song".into(),
        album_artist: ArtistCredit::single("The Artist"),
        original_year: Some(1982),
        kind: ReleaseKind::Single,
        tracks: vec![ReleaseTrack {
            title: "The Song".into(),
            artist_credit: ArtistCredit::single("The Artist"),
            position: Position::new(1, 1),
            duration_ms: 200_500,
            recording_id: Some("recording-1".into()),
        }],
        release_group_id: Some("group-1".into()),
        exact_release_id: None,
    };

    let decision = MatchPolicy::default().decide(&inspection, vec![candidate]);

    assert!(matches!(decision, MatchDecision::Selected { .. }));
}

#[test]
fn loose_track_asks_when_a_single_and_album_are_both_credible() {
    let inspection = Inspection {
        source_label: "song.flac".into(),
        kind: SourceKind::LooseFile,
        tracks: vec![InspectedTrack {
            source_name: "song.flac".into(),
            title: Some("The Song".into()),
            artist: Some("The Artist".into()),
            album: None,
            album_artist: None,
            artist_ids: Vec::new(),
            album_artist_ids: Vec::new(),
            compilation: None,
            original_year: None,
            position: None,
            duration_ms: 200_000,
            recording_id: None,
            release_group_id: None,
        }],
    };
    let release = |key: &str, kind: ReleaseKind| CandidateRelease {
        provider_key: key.into(),
        title: "The Song".into(),
        album_artist: ArtistCredit::single("The Artist"),
        original_year: Some(1982),
        kind,
        tracks: vec![ReleaseTrack {
            title: "The Song".into(),
            artist_credit: ArtistCredit::single("The Artist"),
            position: Position::new(1, 1),
            duration_ms: 200_500,
            recording_id: None,
        }],
        release_group_id: Some(format!("group-{key}")),
        exact_release_id: None,
    };

    let decision = MatchPolicy::default().decide(
        &inspection,
        vec![
            release("album", ReleaseKind::Album),
            release("single", ReleaseKind::Single),
        ],
    );

    let MatchDecision::NeedsChoice(candidates) = decision else {
        panic!("expected a choice");
    };
    assert_eq!(candidates[0].candidate.provider_key, "single");
}

#[test]
fn unrelated_single_does_not_displace_a_credible_album() {
    let mut inspection = inspected_album();
    inspection.kind = SourceKind::LooseFile;
    inspection.tracks.truncate(1);
    let album = candidate("album", "The Album", [180_000, 240_000]);
    let mut single = candidate("single", "Unrelated", [300_000, 240_000]);
    single.kind = ReleaseKind::Single;
    single.tracks.truncate(1);
    single.tracks[0].title = "Not Opening".into();

    let decision = MatchPolicy::default().decide(&inspection, vec![single, album]);

    let MatchDecision::Selected { selected, .. } = decision else {
        panic!("expected the credible album");
    };
    assert_eq!(selected.candidate.provider_key, "album");
}

#[test]
fn album_length_cannot_turn_position_only_evidence_into_auto_acceptance() {
    let mut inspection = inspected_album();
    let mut weak = candidate("weak", "Different", [300_000, 300_000]);
    for index in 2..20 {
        inspection.tracks.push(inspected_track(
            &format!("{index:02}.flac"),
            &format!("Source {index}"),
            index as u16 + 1,
            180_000,
        ));
        weak.tracks.push(ReleaseTrack {
            title: format!("Candidate {index}"),
            artist_credit: ArtistCredit::single("Elsewhere"),
            position: Position::new(1, index as u16 + 1),
            duration_ms: 300_000,
            recording_id: None,
        });
    }

    let decision = MatchPolicy::default().decide(&inspection, vec![weak]);

    assert!(matches!(decision, MatchDecision::NeedsChoice(_)));
}

#[test]
fn unique_title_and_duration_override_incorrect_positions() {
    let mut swapped = candidate("swapped", "The Album", [180_000, 240_000]);
    swapped.tracks[0].position = Position::new(1, 2);
    swapped.tracks[1].position = Position::new(1, 1);

    let decision = MatchPolicy::default().decide(&inspected_album(), vec![swapped]);

    let MatchDecision::Selected { selected, .. } = decision else {
        panic!("expected a strong textual mapping");
    };
    assert!(
        selected
            .mappings
            .iter()
            .all(|mapping| mapping.basis == TrackMatchBasis::TitleAndDuration)
    );
}

#[test]
fn conflicting_recording_identifier_prevents_automatic_acceptance() {
    let mut inspection = inspected_album();
    inspection.tracks[0].recording_id = Some("source-recording".into());
    let mut release = candidate("conflict", "The Album", [180_000, 240_000]);
    release.tracks[0].recording_id = Some("different-recording".into());

    let decision = MatchPolicy::default().decide(&inspection, vec![release]);

    assert!(matches!(decision, MatchDecision::NeedsChoice(_)));
}

#[test]
fn missing_provider_duration_is_not_treated_as_a_mismatch() {
    let mut release = candidate("no-duration", "The Album", [0, 0]);
    for track in &mut release.tracks {
        track.duration_ms = 0;
    }

    let decision = MatchPolicy::default().decide(&inspected_album(), vec![release]);

    assert!(matches!(decision, MatchDecision::Selected { .. }));
}

#[test]
fn coherent_album_artist_identifiers_can_confirm_a_collaboration_credit() {
    let mut inspection = inspected_album();
    for track in &mut inspection.tracks {
        track.album_artist = Some("Abbreviated Duo".into());
        track.album_artist_ids = vec!["artist-a".into(), "artist-b".into()];
    }
    let mut release = candidate("duo", "The Album", [180_000, 240_000]);
    release.album_artist = ArtistCredit::credited(
        "Alice with Bob",
        vec![
            Artist {
                name: "Alice".into(),
                musicbrainz_id: Some("artist-a".into()),
            },
            Artist {
                name: "Bob".into(),
                musicbrainz_id: Some("artist-b".into()),
            },
        ],
    );

    let decision = MatchPolicy::default().decide(&inspection, vec![release]);

    assert!(matches!(decision, MatchDecision::Selected { .. }));
}

#[test]
fn coherent_track_artist_can_confirm_album_identity_when_album_artist_is_missing() {
    let mut inspection = inspected_album();
    for track in &mut inspection.tracks {
        track.album_artist = None;
    }

    let decision = MatchPolicy::default().decide(
        &inspection,
        vec![candidate("album", "The Album", [180_000, 240_000])],
    );

    assert!(matches!(decision, MatchDecision::Selected { .. }));
}

#[test]
fn normalization_handles_case_punctuation_and_spacing() {
    assert_eq!(normalize("  AC/DC—Live  "), "ac dc live");
}

#[test]
fn an_ambiguous_match_lists_the_candidates_and_takes_a_listed_number() {
    let decision = MatchPolicy::default().decide(
        &inspected_album(),
        vec![
            candidate("one", "The Album", [180_000, 240_000]),
            candidate("two", "The Album", [180_000, 240_000]),
        ],
    );

    let (phase, action) = choice_start(&decision, false);
    assert_eq!(action, ChoiceAction::ListCandidates { shown: 2 });
    let (phase, action) = choice_step(phase, "e");
    assert_eq!(action, ChoiceAction::ComplainThenListCandidates { shown: 2 });
    let (phase, action) = choice_step(phase, "m");
    assert_eq!(action, ChoiceAction::ComplainThenListCandidates { shown: 2 });
    let (phase, action) = choice_step(phase, "2");
    assert_eq!((phase, action), (ChoicePhase::Finished, ChoiceAction::Finish(ChoiceOutcome::Candidate(1))));
}
