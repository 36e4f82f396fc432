use std::collections::VecDeque;

use music_groomer::domain::{ReleaseKind, SourceKind};
use music_groomer::provider::musicbrainz::{
    browse_group_url, escaped, textual_search_url, CreditArtist, CreditPart, Medium, MusicBrainzClient,
    MusicBrainzHttp, Recording, ReleaseDetail, ReleaseGroup, Track, DISCOVERY_GROUP_LIMIT,
};
use music_groomer::provider::search::{ProviderError, ProviderProgress, ProviderSearch};

enum Answer {
    Groups(Vec<String>),
    Releases(Vec<ReleaseDetail>),
}

struct FakeHttp {
    responses: VecDeque<Answer>,
    urls: Vec<String>,
}

impl MusicBrainzHttp for FakeHttp {
    fn release_groups<Q: ProviderProgress>(
        &mut self,
        url: &str,
        _operation: &'static str,
        _progress: &mut Q,
    ) -> Result<Vec<String>, ProviderError> {
        self.urls.push(url.to_owned());
        match self.responses.pop_front().expect("unexpected request") {
            Answer::Groups(ids) => Ok(ids),
            Answer::Releases(_) => Err(ProviderError::InvalidResponse("expected release groups".into())),
        }
    }

    fn releases<Q: ProviderProgress>(
        &mut self,
        url: &str,
        _operation: &'static str,
        _progress: &mut Q,
    ) -> Result<Vec<ReleaseDetail>, ProviderError> {
        self.urls.push(url.to_owned());
        match self.responses.pop_front().expect("unexpected request") {
            Answer::Releases(releases) => Ok(releases),
            Answer::Groups(_) => Err(ProviderError::InvalidResponse("expected releases".into())),
        }
    }
}

fn client(responses: Vec<Answer>) -> MusicBrainzClient<FakeHttp> {
    MusicBrainzClient::new(FakeHttp { responses: responses.into(), urls: Vec::new() })
}

fn search() -> ProviderSearch {
    ProviderSearch {
        kind: SourceKind::AlbumDirectory,
        album: Some("Album".into()),
        artist: Some("Artist".into()),
        artist_ids: Vec::new(),
        album_artist_ids: vec!["artist-id".into()],
        title: None,
        release_group_id: None,
        recording_ids: Vec::new(),
        track_count: 1,
    }
}

fn credit() -> Vec<CreditPart> {
    vec![CreditPart {
        name: "Artist".into(),
        joinphrase: String::new(),
        artist: CreditArtist { id: "artist-id".into(), name: "Artist".into() },
    }]
}

fn track(position: usize, title: &str, recording: &str) -> Track {
    Track {
        position: Some(position),
        title: Some(title.into()),
        length: Some(120_000),
        artist_credit: credit(),
        recording: Recording { id: recording.into(), title: "Recording".into(), length: Some(120_000), artist_credit: credit() },
    }
}

fn release(id: usize, track_title: &str, status: &str) -> ReleaseDetail {
    ReleaseDetail {
        id: format!("release-{id}"),
        status: status.into(),
        release_group: Some(ReleaseGroup {
            id: format!("group-{id}"),
            title: "Album".into(),
            artist_credit: credit(),
            first_release_date: Some("1974".into()),
            primary_type: "Album".into(),
        }),
        media: vec![Medium { position: Some(1), tracks: vec![track(1, track_title, &format!("recording-{id}"))] }],
    }
}

fn release_with_type(primary_type: &str) -> ReleaseDetail {
    let mut value = release(1, "Track", "Official");
    value.release_group.as_mut().unwrap().primary_type = primary_type.into();
    value
}

fn two_track_release() -> ReleaseDetail {
    let mut value = release(2, "First", "Official");
    value.media[0].tracks.push(Track {
        position: Some(2),
        title: Some("Second".into()),
        length: Some(130_000),
        artist_credit: credit(),
        recording: Recording {
            id: "recording-second".into(),
            title: "Second".into(),
            length: Some(130_000),
            artist_credit: credit(),
        },
    });
    value
}

fn groups(ids: Vec<String>) -> Answer {
    Answer::Groups(ids)
}

#[test]
fn browses_capped_groups_and_keeps_materially_distinct_official_variants() {
    let mut responses = vec![groups((0..10).map(|index| format!("group-{index}")).collect())];
    responses.extend((0..DISCOVERY_GROUP_LIMIT).map(|id| {
        Answer::Releases(vec![
            release(id, "Track", "Official"),
            release(id + 20, "Different", "Official"),
            release(id + 40, "Unofficial", "Bootleg"),
        ])
    }));
    let mut provider = client(responses);

    let result = provider.search(&search(), &mut ()).unwrap();

    assert_eq!(provider.http().urls.len(), 1 + DISCOVERY_GROUP_LIMIT);
    assert_eq!(result.candidates.len(), DISCOVERY_GROUP_LIMIT * 2);
    assert!(provider.http().urls[0].contains("limit=8"));
}

#[test]
fn maps_release_group_identity_and_prefers_release_track_credit_and_title() {
    let detail = ReleaseDetail {
        id: "release-id".into(),
        status: "Official".into(),
        release_group: Some(ReleaseGroup {
            id: "group-id".into(),
            title: "Original Album Title".into(),
            artist_credit: vec![
                CreditPart {
                    name: "Alice".into(),
                    joinphrase: " with ".into(),
                    artist: CreditArtist { id: "alice-id".into(), name: "Alice".into() },
                },
                CreditPart {
                    name: "Bob".into(),
                    joinphrase: String::new(),
                    artist: CreditArtist { id: "bob-id".into(), name: "Bob".into() },
                },
            ],
            first_release_date: Some("1974-05-01".into()),
            primary_type: "Album".into(),
        }),
        media: vec![Medium {
            position: None,
            tracks: vec![Track {
                position: None,
                title: Some("Opening (release version)".into()),
                length: None,
                artist_credit: vec![
                    CreditPart {
                        name: "Alice".into(),
                        joinphrase: " feat. ".into(),
                        artist: CreditArtist { id: "alice-id".into(), name: "Alice".into() },
                    },
                    CreditPart {
                        name: "Bob".into(),
                        joinphrase: String::new(),
                        artist: CreditArtist { id: "bob-id".into(), name: "Bob".into() },
                    },
                ],
                recording: Recording {
                    id: "recording-id".into(),
                    title: "Opening".into(),
                    length: Some(240_000),
                    artist_credit: credit(),
                },
            }],
        }],
    };

    let candidate = detail.into_candidate().expect("release should map");

    assert_eq!(candidate.title, "Original Album Title");
    assert_eq!(candidate.album_artist.display, "Alice with Bob");
    assert_eq!(candidate.original_year, Some(1974));
    assert_eq!(candidate.tracks[0].title, "Opening (release version)");
    assert_eq!(candidate.tracks[0].artist_credit.display, "Alice feat. Bob");
    assert_eq!(candidate.exact_release_id, None);
    assert_eq!(candidate.tracks[0].position.disc, 1);
    assert_eq!(candidate.tracks[0].position.track, 1);
    assert_eq!(candidate.tracks[0].duration_ms, 240_000);
    assert_eq!(candidate.release_group_id.as_deref(), Some("group-id"));
}

#[test]
fn recording_identifier_uses_browse_instead_of_an_invalid_search_field() {
    let mut search = search();
    search.recording_ids = vec!["recording-id".into()];
    let mut provider = client(vec![
        Answer::Releases(vec![release(1, "Track", "Official")]),
        Answer::Releases(vec![release(1, "Track", "Official")]),
    ]);

    provider.search(&search, &mut ()).unwrap();

    assert!(provider.http().urls[0].contains("recording=recording-id"));
    assert!(!provider.http().urls[0].contains("rid%3A"));
    assert!(provider.http().urls[1].contains("release-group=group-1"));
}

#[test]
fn stale_artist_identifier_warns_and_falls_back_to_name_search() {
    let mut provider = client(vec![
        groups(Vec::new()),
        groups(vec!["group-1".into()]),
        Answer::Releases(vec![release(1, "Track", "Official")]),
    ]);

    let result = provider.search(&search(), &mut ()).unwrap();

    assert!(provider.http().urls[0].contains("arid%3Aartist-id"));
    assert!(!provider.http().urls[1].contains("arid%3Aartist-id"));
    assert_eq!(result.candidates.len(), 1);
    assert!(result.warnings[0].contains("falling back to artist names"));
}

#[test]
fn stale_release_group_identifier_warns_and_falls_back_to_text_search() {
    let mut search = search();
    search.release_group_id = Some("stale-group".into());
    let mut provider = client(vec![
        Answer::Releases(Vec::new()),
        groups(vec!["group-1".into()]),
        Answer::Releases(vec![release(1, "Track", "Official")]),
    ]);

    let result = provider.search(&search, &mut ()).unwrap();

    assert!(provider.http().urls[0].contains("release-group=stale-group"));
    assert!(provider.http().urls[1].contains("release-group/?query="));
    assert_eq!(result.candidates.len(), 1);
    assert!(result.warnings[0].contains("release-group identifier"));
}

#[test]
fn incompatible_recording_identifier_result_falls_back_to_text_search() {
    let mut search = search();
    search.track_count = 2;
    search.recording_ids = vec!["stale-recording".into()];
    let mut provider = client(vec![
        Answer::Releases(vec![release(1, "Track", "Official")]),
        Answer::Releases(vec![release(1, "Track", "Official")]),
        groups(vec!["group-2".into()]),
        Answer::Releases(vec![two_track_release()]),
    ]);

    let result = provider.search(&search, &mut ()).unwrap();

    assert_eq!(result.candidates.len(), 1);
    assert!(result
        .warnings
        .iter()
        .any(|warning| warning.contains("recording identifiers found no compatible official release")));
}

#[test]
fn maps_ep_and_unusual_primary_type_without_calling_them_albums() {
    let ep = release_with_type("EP");
    let other = release_with_type("Broadcast");

    assert_eq!(ep.into_candidate().unwrap().kind, ReleaseKind::Ep);
    assert_eq!(other.into_candidate().unwrap().kind, ReleaseKind::Other("Broadcast".into()));
}

#[test]
fn loose_text_search_tries_the_track_title_before_an_existing_album_name() {
    let mut search = search();
    search.kind = SourceKind::LooseFile;
    search.title = Some("Song".into());
    search.album = Some("Album".into());

    let url = textual_search_url(&search, false).unwrap();

    assert!(url.contains("Song"));
    assert!(!url.contains("Album"));
}

#[test]
fn unusable_search_is_refused_without_a_request() {
    let mut search = search();
    search.artist = None;
    let mut provider = client(Vec::new());

    let result = provider.search(&search, &mut ());

    assert!(matches!(result, Err(ProviderError::InsufficientEvidence)));
    assert!(provider.http().urls.is_empty());
}

#[test]
fn text_query_is_quoted_escaped_and_percent_encoded() {
    let mut search = search();
    search.album = Some("Say \"Hi\"".into());

    let url = textual_search_url(&search, true).unwrap();

    assert_eq!(
        url,
        "https://musicbrainz.org/ws/2/release-group/?query=releasegroup%3A%22Say%20%20Hi%20%22%20AND%20artist%3A%22Artist%22%20AND%20arid%3Aartist-id&fmt=json&limit=8"
    );
    assert_eq!(escaped("a\\b\"c"), "a b c");
    assert_eq!(
        browse_group_url("g"),
        "https://musicbrainz.org/ws/2/release?release-group=g&inc=artist-credits+recordings+release-groups&fmt=json&limit=100"
    );
}

#[test]
fn various_artists_credit_makes_a_compilation_and_missing_group_maps_to_nothing() {
    let mut compilation = release(1, "Track", "Official");
    compilation.release_group.as_mut().unwrap().artist_credit = vec![CreditPart {
        name: "Various Artists".into(),
        joinphrase: String::new(),
        artist: CreditArtist { id: "89ad4ac3-39f7-470e-963a-56509c546377".into(), name: "Various Artists".into() },
    }];
    let mut orphan = release(2, "Track", "Official");
    orphan.release_group = None;
    let mut empty = release(3, "Track", "Official");
    empty.media.clear();

    assert_eq!(compilation.into_candidate().unwrap().kind, ReleaseKind::Compilation);
    assert!(orphan.into_candidate().is_none());
    assert!(empty.into_candidate().is_none());
}
