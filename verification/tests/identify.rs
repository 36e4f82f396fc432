use music_groomer::domain::SourceKind;
use music_groomer::fingerprint::FingerprintError;
use music_groomer::guided_matching::identification::{
    identify_start, identify_step, IdentifyAction, IdentifyEvent, IdentifyStage,
};
use music_groomer::provider::search::ProviderSearch;

fn search() -> ProviderSearch {
    ProviderSearch {
        kind: SourceKind::AlbumDirectory,
        album: Some("Album".into()),
        artist: Some("Artist".into()),
        artist_ids: Vec::new(),
        album_artist_ids: Vec::new(),
        title: Some("Song".into()),
        release_group_id: Some("group".into()),
        recording_ids: Vec::new(),
        track_count: 1,
    }
}

#[test]
fn identification_is_skipped_when_no_fingerprint_is_needed() {
    let (state, action) = identify_start(search(), false, true, false);
    assert_eq!(state.stage, IdentifyStage::Finished);
    assert!(matches!(action, IdentifyAction::KeepBaseDecision { keep_evidence: false, evidence_replaced: true }));
    let (_, action) = identify_start(search(), true, false, false);
    assert!(matches!(action, IdentifyAction::KeepBaseDecision { keep_evidence: false, evidence_replaced: false }));
}

#[test]
fn a_failed_fingerprint_keeps_metadata_with_a_warning() {
    let (state, _) = identify_start(search(), true, true, false);
    let (state, action) = identify_step(state, IdentifyEvent::Fingerprinted(Err(FingerprintError::Unavailable)));
    assert!(matches!(action, IdentifyAction::KeepBaseDecision { keep_evidence: false, evidence_replaced: false }));
    assert_eq!(
        state.warnings,
        vec!["Audio fingerprint identification is unavailable (fpcalc is not available in PATH); keeping provider and source metadata".to_string()]
    );
}

#[test]
fn named_recordings_are_resolved_and_decided_again() {
    let (state, _) = identify_start(search(), true, true, false);
    let (state, action) = identify_step(state, IdentifyEvent::Fingerprinted(Ok(())));
    assert!(matches!(action, IdentifyAction::LookUpAcoustId));
    let (state, action) = identify_step(state, IdentifyEvent::AcoustIdAnswered { answered: true, warnings: vec!["cache".into()] });
    assert!(matches!(action, IdentifyAction::ReadEvidence));
    let (state, action) = identify_step(
        state,
        IdentifyEvent::EvidenceRead { recording_ids: vec!["rec-1".into()], unusually_ambiguous: true },
    );
    match action {
        IdentifyAction::ResolveRecordings(s) => {
            assert_eq!(s.kind, SourceKind::LooseFile);
            assert_eq!(s.release_group_id, None);
            assert_eq!(s.recording_ids, vec!["rec-1".to_string()]);
            assert_eq!(s.title.as_deref(), Some("Song"));
        }
        other => panic!("unexpected {other:?}"),
    }
    let (state, action) = identify_step(state, IdentifyEvent::RecordingsResolved { warnings: Vec::new() });
    match action {
        IdentifyAction::DecideWithRecordings(ids) => assert_eq!(ids, vec!["rec-1".to_string()]),
        other => panic!("unexpected {other:?}"),
    }
    assert_eq!(state.warnings.len(), 2);
    assert!(state.warnings[1].starts_with("Audio fingerprint produced more than five"));
}
