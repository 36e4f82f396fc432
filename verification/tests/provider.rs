use music_groomer::domain::{ArtistCredit, CandidateRelease, Position, ReleaseKind, ReleaseTrack};
use music_groomer::provider::{collapse_equivalent, equivalent_groomed_result};

fn candidate(release: &str) -> CandidateRelease {
    CandidateRelease {
        provider_key: release.into(),
        title: "Album".into(),
        album_artist: ArtistCredit::single("Artist"),
        original_year: Some(1970),
        kind: ReleaseKind::Album,
        tracks: vec![ReleaseTrack {
            title: "Track".into(),
            artist_credit: ArtistCredit::single("Artist"),
            position: Position::new(1, 1),
            duration_ms: 120_000,
            recording_id: Some("recording".into()),
        }],
        release_group_id: Some("group".into()),
        exact_release_id: Some(release.into()),
    }
}

#[test]
fn collapses_editions_that_would_groom_identically() {
    let candidates = collapse_equivalent(vec![candidate("release-a"), candidate("release-b")]);

    assert_eq!(candidates.len(), 1);
    assert_eq!(candidates[0].provider_key, "release-a");
}

#[test]
fn keeps_materially_different_track_lists() {
    let first = candidate("release-a");
    let mut second = candidate("release-b");
    second.tracks[0].title = "Different".into();

    assert_eq!(collapse_equivalent(vec![first, second]).len(), 2);
}

#[test]
fn durations_do_not_distinguish_editions() {
    let first = candidate("release-a");
    let mut second = candidate("release-b");
    second.tracks[0].duration_ms = 1;

    assert!(equivalent_groomed_result(&first, &second));
}

#[test]
fn collapsing_keeps_first_of_each_group_in_order() {
    let mut other = candidate("release-c");
    other.release_group_id = Some("other-group".into());
    let collapsed = collapse_equivalent(vec![
        candidate("release-a"),
        other,
        candidate("release-b"),
        candidate("release-d"),
    ]);

    let keys: Vec<&str> = collapsed.iter().map(|c| c.provider_key.as_str()).collect();
    assert_eq!(keys, ["release-a", "release-c"]);
}

#[test]
fn collapsing_an_already_collapsed_list_changes_nothing() {
    let mut other = candidate("release-c");
    other.original_year = Some(1971);
    let once = collapse_equivalent(vec![candidate("release-a"), other, candidate("release-b")]);
    let keys_once: Vec<String> = once.iter().map(|c| c.provider_key.clone()).collect();
    let twice = collapse_equivalent(once);
    let keys_twice: Vec<String> = twice.iter().map(|c| c.provider_key.clone()).collect();

    assert_eq!(keys_once, keys_twice);
}
