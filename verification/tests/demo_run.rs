use std::collections::VecDeque;

use music_groomer::demo::planning::{demo_plan, DemoData};
use music_groomer::demo::session::{
    demo_start, demo_step, interpret_release_answer, DemoAction, DemoEvent, DemoSelection,
};
use music_groomer::demo::DemoScenario;
use music_groomer::domain::{
    Artist, ArtistCredit, CandidateRelease, InspectedTrack, Inspection, Position, ReleaseKind, ReleaseTrack, SourceKind,
};
use music_groomer::matching::{MatchDecision, MatchPolicy};
use music_groomer::plan::{ArtworkChoice, ArtworkOrigin, GroomingPlan, MatchSelection, PlanWarning};

/// What a scripted demo went through.
struct Run {
    applied: bool,
    actions: Vec<DemoAction>,
    asked_for_a_release: bool,
    chosen_label: Option<String>,
    viewed: Vec<String>,
    selected_artwork: Option<String>,
    plan: Option<GroomingPlan>,
}

fn next(answers: &mut VecDeque<&str>) -> String {
    answers.pop_front().expect("script ended").to_string()
}

/// Drives the demo's steps with scripted answers, doing the work each action
/// asks for as the terminal program does.
fn run(scenario: Option<DemoScenario>, script: &[&str]) -> Run {
    let mut answers: VecDeque<&str> = script.iter().copied().collect();
    let mut outcome = Run {
        applied: false,
        actions: Vec::new(),
        asked_for_a_release: false,
        chosen_label: None,
        viewed: Vec::new(),
        selected_artwork: None,
        plan: None,
    };
    let (mut phase, mut action) = demo_start(scenario);
    loop {
        let event = match &action {
            DemoAction::Finish { applied } => {
                outcome.applied = *applied;
                outcome.actions.push(action);
                return outcome;
            }
            DemoAction::ShowScenario(scenario) => {
                let data = demo_data(*scenario);
                let (selected, selection) = match MatchPolicy::default().decide(&data.inspection, data.candidates.clone()) {
                    MatchDecision::Selected { selected, .. } => (Some(selected), MatchSelection::Automatic),
                    MatchDecision::NeedsChoice(candidates) => {
                        outcome.asked_for_a_release = true;
                        match interpret_release_answer(&next(&mut answers), candidates.len()) {
                            Some(Some(index)) => {
                                outcome.chosen_label = Some(candidates[index].candidate.human_label());
                                (Some(Box::new(candidates[index].clone())), MatchSelection::UserChosen)
                            }
                            _ => panic!("the script picks a listed release"),
                        }
                    }
                    MatchDecision::NoUsableMatch(_) => (None, MatchSelection::ExistingTags),
                };
                let kind = if selected.is_some() { DemoSelection::Matched } else { DemoSelection::ExistingTags };
                outcome.plan = Some(demo_plan(&data, selected, selection, "/media/music").expect("demo plan"));
                DemoEvent::MetadataSelected(kind)
            }
            DemoAction::ShowDetails => DemoEvent::SubflowDone,
            DemoAction::ChooseArtwork => {
                let plan = outcome.plan.take().expect("plan");
                let mut choices = vec![plan.artwork.clone()];
                choices.extend(plan.artwork_alternatives.iter().cloned());
                let mut plan = Some(plan);
                loop {
                    let answer = next(&mut answers);
                    if answer == "b" {
                        break;
                    }
                    if answer == "v" {
                        let number: usize = next(&mut answers).parse().expect("artwork number");
                        outcome.viewed.push(choices[number - 1].description());
                        continue;
                    }
                    let number: usize = answer.parse().expect("artwork number");
                    let chosen = choices[number - 1].clone();
                    outcome.selected_artwork = Some(chosen.description());
                    plan = plan.map(|plan| plan.with_artwork(chosen));
                    break;
                }
                outcome.plan = plan;
                DemoEvent::SubflowDone
            }
            DemoAction::ChooseDestination => DemoEvent::SubflowDone,
            _ => DemoEvent::Answered(next(&mut answers)),
        };
        outcome.actions.push(action);
        (phase, action) = demo_step(phase, event);
    }
}

#[test]
fn ambiguity_is_resolved_in_the_same_session_with_human_labels() {
    let run = run(Some(DemoScenario::AmbiguousCollaboration), &["2", "a", "yes"]);

    assert!(run.applied);
    assert!(run.asked_for_a_release);
    let label = run.chosen_label.expect("a release was chosen");
    assert!(label.contains("Niels-Henning Ørsted Pedersen & Kenny Drew — Duo: Studio Session (1974"));
    assert!(!label.contains("duo-session"));
}

#[test]
fn review_and_artwork_change_return_to_the_same_preview() {
    let run = run(Some(DemoScenario::ConfidentAlbum), &["r", "w", "v", "2", "2", "a", ""]);

    assert!(run.applied);
    assert!(run.actions.contains(&DemoAction::ShowDetails));
    let plan = run.plan.expect("plan");
    assert!(plan
        .tracks
        .iter()
        .flat_map(|track| track.tag_changes.iter())
        .any(|change| change.field.label() == "MusicBrainz artist IDs"));
    assert!(run.viewed.iter().any(|viewed| viewed.starts_with("Cover Art Archive")));
    assert!(run.selected_artwork.expect("artwork was selected").starts_with("Cover Art Archive"));
    assert_eq!(plan.artwork.label, "Cover Art Archive front image");
}

#[test]
fn unmatched_loose_track_is_visibly_unverified_and_can_be_cancelled() {
    let run = run(Some(DemoScenario::StandaloneTrack), &["c"]);

    assert!(!run.applied);
    assert!(!run.asked_for_a_release);
    let plan = run.plan.expect("plan");
    assert!(plan.warnings.iter().any(|warning| warning.summary.contains("not verified against MusicBrainz")));
    assert!(plan.destination.contains("Standalone Tracks/Mystery Song"));
}

#[test]
fn declining_final_confirmation_returns_to_preview() {
    let run = run(Some(DemoScenario::MatchedSingle), &["a", "n", "c"]);

    assert!(!run.applied);
    assert!(run.actions.contains(&DemoAction::DeclinedThenShowPlan));
    assert_eq!(run.plan.expect("plan").artwork.description(), "Cover Art Archive front image (1200x1200)");
}

#[test]
fn empty_main_action_redisplays_the_preview_instead_of_cancelling() {
    let run = run(Some(DemoScenario::ConfidentAlbum), &["", "c"]);

    assert!(!run.applied);
    assert_eq!(run.actions.iter().filter(|action| **action == DemoAction::ShowPlan).count(), 2);
}

#[test]
fn scenario_selection_requires_an_explicit_cancel() {
    let run = run(None, &["", "c"]);

    assert!(!run.applied);
    assert_eq!(
        run.actions,
        vec![DemoAction::AskScenario, DemoAction::ComplainThenAskScenario, DemoAction::Finish { applied: false }]
    );
}

// ---------------------------------------------------------------------------
// The pretend sources
// ---------------------------------------------------------------------------

fn demo_data(scenario: DemoScenario) -> DemoData {
    match scenario {
        DemoScenario::ConfidentAlbum => DemoData {
            inspection: Inspection {
                source_label: "demo/incoming/The Group - The Album".into(),
                kind: SourceKind::AlbumDirectory,
                tracks: vec![
                    inspected("01 opening.flac", "Opening (old title)", 1, 180_000),
                    inspected("02 closing.flac", "Closing", 2, 240_000),
                ],
            },
            candidates: vec![album_candidate("clear", "The Album", 1971, "The Group", [180_500, 239_500])],
            extensions: vec!["flac".into(), "flac".into()],
            source_artwork: Some(source_artwork("folder.jpg", 1800, 1800)),
            provider_artwork: Some(caa_artwork("group-clear")),
            warning: Some(PlanWarning {
                summary: "playlist.m3u may refer to the old filenames".into(),
                detail: "It will be copied unchanged; playlist rewriting is intentionally deferred.".into(),
            }),
            embedded_artwork_count: 2,
        },
        DemoScenario::AmbiguousCollaboration => {
            let credit = "Niels-Henning Ørsted Pedersen & Kenny Drew";
            let mut tracks =
                vec![inspected("track1.flac", "Opening", 1, 205_000), inspected("track2.flac", "Closing", 2, 198_000)];
            for track in &mut tracks {
                track.album = None;
                track.album_artist = None;
                track.original_year = None;
                track.artist = Some(credit.into());
            }
            DemoData {
                inspection: Inspection {
                    source_label: "demo/incoming/NHOP with Kenny Drew".into(),
                    kind: SourceKind::AlbumDirectory,
                    tracks,
                },
                candidates: vec![
                    album_candidate("duo", "Duo", 1973, credit, [205_000, 198_000]),
                    album_candidate("duo-session", "Duo: Studio Session", 1974, credit, [205_000, 198_000]),
                ],
                extensions: vec!["flac".into(), "flac".into()],
                source_artwork: Some(source_artwork("cover.jpg", 2400, 2400)),
                provider_artwork: Some(caa_artwork("group-duo")),
                warning: None,
                embedded_artwork_count: 2,
            }
        }
        DemoScenario::MatchedSingle => {
            let credit = ArtistCredit::credited(
                "The Driver",
                vec![Artist { name: "The Driver".into(), musicbrainz_id: Some("artist-driver".into()) }],
            );
            DemoData {
                inspection: Inspection {
                    source_label: "demo/incoming/car-song.opus".into(),
                    kind: SourceKind::LooseFile,
                    tracks: vec![loose("car-song.opus", "Car Song", "The Driver", 201_000, Some("recording-car-song"))],
                },
                candidates: vec![CandidateRelease {
                    provider_key: "car-single".into(),
                    title: "Car Song".into(),
                    album_artist: credit.clone(),
                    original_year: Some(2024),
                    kind: ReleaseKind::Single,
                    tracks: vec![ReleaseTrack {
                        title: "Car Song".into(),
                        artist_credit: credit,
                        position: Position::new(1, 1),
                        duration_ms: 200_500,
                        recording_id: Some("recording-car-song".into()),
                    }],
                    release_group_id: Some("group-car-song".into()),
                    exact_release_id: None,
                }],
                extensions: vec!["opus".into()],
                source_artwork: None,
                provider_artwork: Some(caa_artwork("group-car-song")),
                warning: None,
                embedded_artwork_count: 1,
            }
        }
        DemoScenario::StandaloneTrack => DemoData {
            inspection: Inspection {
                source_label: "demo/incoming/mystery-song.mp3".into(),
                kind: SourceKind::LooseFile,
                tracks: vec![loose("mystery-song.mp3", "Mystery Song", "Bedroom Artist", 189_000, None)],
            },
            candidates: Vec::new(),
            extensions: vec!["mp3".into()],
            source_artwork: None,
            provider_artwork: None,
            warning: Some(PlanWarning {
                summary: "metadata is not verified against MusicBrainz".into(),
                detail: "A later retry can search providers again without changing the source.".into(),
            }),
            embedded_artwork_count: 1,
        },
    }
}

fn loose(name: &str, title: &str, artist: &str, duration_ms: u64, recording_id: Option<&str>) -> InspectedTrack {
    InspectedTrack {
        source_name: name.into(),
        title: Some(title.into()),
        artist: Some(artist.into()),
        album: None,
        album_artist: None,
        artist_ids: Vec::new(),
        album_artist_ids: Vec::new(),
        compilation: recording_id.map(|_| false),
        original_year: None,
        position: None,
        duration_ms,
        recording_id: recording_id.map(str::to_owned),
        release_group_id: None,
    }
}

fn inspected(name: &str, title: &str, track: u16, duration_ms: u64) -> InspectedTrack {
    InspectedTrack {
        source_name: name.into(),
        title: Some(title.into()),
        artist: Some("The Group".into()),
        album: Some("The Album".into()),
        album_artist: Some("The Group".into()),
        artist_ids: Vec::new(),
        album_artist_ids: Vec::new(),
        compilation: Some(false),
        original_year: Some(1971),
        position: Some(Position::new(1, track)),
        duration_ms,
        recording_id: None,
        release_group_id: None,
    }
}

fn album_candidate(key: &str, title: &str, year: u16, artist: &str, durations: [u64; 2]) -> CandidateRelease {
    let artists = artist
        .split(" & ")
        .enumerate()
        .map(|(index, name)| Artist { name: name.to_owned(), musicbrainz_id: Some(format!("artist-{key}-{}", index + 1)) })
        .collect();
    let credit = ArtistCredit::credited(artist, artists);
    let mut tracks = Vec::new();
    for (index, (track_title, duration_ms)) in ["Opening", "Closing"].into_iter().zip(durations).enumerate() {
        tracks.push(ReleaseTrack {
            title: track_title.into(),
            artist_credit: credit.clone(),
            position: Position::new(1, index as u16 + 1),
            duration_ms,
            recording_id: Some(format!("recording-{key}-{}", index + 1)),
        });
    }
    CandidateRelease {
        provider_key: key.into(),
        title: title.into(),
        album_artist: credit,
        original_year: Some(year),
        kind: ReleaseKind::Album,
        tracks,
        release_group_id: Some(format!("group-{key}")),
        exact_release_id: None,
    }
}

fn source_artwork(name: &str, width: u32, height: u32) -> ArtworkChoice {
    ArtworkChoice {
        origin: ArtworkOrigin::SourceSidecar { source_name: name.into() },
        label: format!("existing source {name}"),
        dimensions: Some((width, height)),
        output_name: Some("cover.jpg".into()),
    }
}

fn caa_artwork(release_group_id: &str) -> ArtworkChoice {
    ArtworkChoice {
        origin: ArtworkOrigin::CoverArtArchive { release_group_id: release_group_id.into() },
        label: "Cover Art Archive front image".into(),
        dimensions: Some((1200, 1200)),
        output_name: Some("cover.jpg".into()),
    }
}
