use music_groomer::domain::{InspectedTrack, Inspection, Position, SourceKind};
use music_groomer::identification::needs_fingerprint;
use music_groomer::matching::MatchDecision;
use music_groomer::source::{AudioFormat, AudioProperties, AudioTags, InspectedAudio, SourceInspection};

fn inspection() -> Inspection {
    Inspection {
        source_label: "track.flac".into(),
        kind: SourceKind::LooseFile,
        tracks: vec![InspectedTrack {
            source_name: "track.flac".into(),
            title: None,
            artist: None,
            album: None,
            album_artist: None,
            artist_ids: Vec::new(),
            album_artist_ids: Vec::new(),
            compilation: None,
            original_year: None,
            position: None,
            duration_ms: 180_000,
            recording_id: None,
            release_group_id: None,
        }],
    }
}

fn source(track_count: usize) -> SourceInspection {
    SourceInspection {
        source: "incoming".into(),
        kind: if track_count == 1 { SourceKind::LooseFile } else { SourceKind::AlbumDirectory },
        audio: (0..track_count)
            .map(|index| InspectedAudio {
                relative_path: format!("track-{index}.flac"),
                format: AudioFormat::Flac,
                properties: AudioProperties {
                    duration_ms: 180_000,
                    sample_rate: Some(44_100),
                    channels: Some(2),
                    bit_depth: Some(16),
                    audio_bitrate: None,
                },
                tags: AudioTags::default(),
            })
            .collect(),
        ancillary: Vec::new(),
        artwork: Vec::new(),
        selected_artwork: None,
        notices: Vec::new(),
        snapshot: Vec::new(),
    }
}

#[test]
fn coherent_release_identity_does_not_trigger_fingerprinting() {
    let mut inspection = inspection();
    let track = &mut inspection.tracks[0];
    track.album = Some("Known Single".into());
    track.album_artist = Some("Known Artist".into());
    track.position = Some(Position::new(1, 1));

    assert!(!needs_fingerprint(&source(1), &inspection, &MatchDecision::NoUsableMatch(Vec::new())));
}

#[test]
fn album_selection_never_triggers_routine_fingerprinting() {
    let mut inspection = inspection();
    inspection.tracks.push(inspection.tracks[0].clone());

    assert!(!needs_fingerprint(&source(2), &inspection, &MatchDecision::NoUsableMatch(Vec::new())));
}

#[test]
fn an_anonymous_loose_track_without_a_match_is_fingerprinted() {
    assert!(needs_fingerprint(&source(1), &inspection(), &MatchDecision::NoUsableMatch(Vec::new())));
    assert!(needs_fingerprint(&source(1), &inspection(), &MatchDecision::NeedsChoice(Vec::new())));
}

#[test]
fn blank_release_tags_are_not_credible() {
    let mut inspection = inspection();
    inspection.tracks[0].album = Some("   ".into());
    inspection.tracks[0].album_artist = Some("Known Artist".into());
    inspection.tracks[0].position = Some(Position::new(1, 1));

    assert!(needs_fingerprint(&source(1), &inspection, &MatchDecision::NoUsableMatch(Vec::new())));
}

#[test]
fn existing_identifiers_make_fingerprinting_unnecessary() {
    let mut inspection = inspection();
    inspection.tracks[0].recording_id = Some("recording".into());

    assert!(!needs_fingerprint(&source(1), &inspection, &MatchDecision::NoUsableMatch(Vec::new())));
}
