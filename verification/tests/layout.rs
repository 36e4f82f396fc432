use music_groomer::layout::{join_path, relative_to};
use music_groomer::plan::path_file_name;
use std::path::Path;
use music_groomer::domain::{Artist, ArtistCredit};
use music_groomer::layout::{LayoutError, LayoutPolicy, LayoutTrack, ReleaseLayout, StandaloneLayout};

fn credit(display: &str, artists: &[&str]) -> ArtistCredit {
    ArtistCredit::credited(display, artists.iter().map(|name| Artist::named(name)).collect())
}

fn track(title: &str, disc: u16, number: u16, extension: &str) -> LayoutTrack {
    LayoutTrack { title: title.into(), disc, track: number, extension: extension.into() }
}

#[test]
fn lays_out_single_disc_album_without_disc_prefix() {
    let layout = LayoutPolicy
        .release(&ReleaseLayout {
            album_artist: ArtistCredit::single("Ten Years After"),
            title: "Evolution".into(),
            original_year: Some(1971),
            disc_count: 1,
            tracks: vec![track("I'd Love to Change the World", 1, 4, "FLAC")],
        })
        .expect("layout should be valid");

    assert_eq!(layout.directory, "Ten Years After/1971 - Evolution");
    assert_eq!(
        layout.tracks,
        ["Ten Years After/1971 - Evolution/04 - I'd Love to Change the World.flac"]
    );
}

#[test]
fn lays_out_collaboration_using_full_credit() {
    let layout = LayoutPolicy
        .release(&ReleaseLayout {
            album_artist: credit(
                "Niels-Henning Ørsted Pedersen & Kenny Drew",
                &["Niels-Henning Ørsted Pedersen", "Kenny Drew"],
            ),
            title: "Duo".into(),
            original_year: Some(1973),
            disc_count: 1,
            tracks: vec![track("In the Still of the Woods", 1, 1, "flac")],
        })
        .expect("layout should be valid");

    assert_eq!(layout.directory, "Niels-Henning Ørsted Pedersen & Kenny Drew/1973 - Duo");
}

#[test]
fn lays_out_compilation_under_various_artists() {
    let layout = LayoutPolicy
        .release(&ReleaseLayout {
            album_artist: ArtistCredit::single("Various Artists"),
            title: "A Sampler".into(),
            original_year: Some(1999),
            disc_count: 1,
            tracks: vec![track("Opening", 1, 1, "mp3")],
        })
        .expect("layout should be valid");

    assert_eq!(layout.directory, "Various Artists/1999 - A Sampler");
}

#[test]
fn lays_out_multi_disc_album_with_disc_prefix() {
    let layout = LayoutPolicy
        .release(&ReleaseLayout {
            album_artist: ArtistCredit::single("Artist"),
            title: "Long Album".into(),
            original_year: Some(2001),
            disc_count: 2,
            tracks: vec![track("First", 1, 1, "m4a"), track("Second", 2, 1, "m4a")],
        })
        .expect("layout should be valid");

    assert_eq!(layout.tracks[1], "Artist/2001 - Long Album/02-01 - Second.m4a");
}

#[test]
fn lays_out_matched_single_as_release() {
    let layout = LayoutPolicy
        .release(&ReleaseLayout {
            album_artist: ArtistCredit::single("Artist"),
            title: "A Great Single".into(),
            original_year: Some(1982),
            disc_count: 1,
            tracks: vec![track("A Great Song", 1, 1, "opus")],
        })
        .expect("layout should be valid");

    assert_eq!(layout.tracks[0], "Artist/1982 - A Great Single/01 - A Great Song.opus");
}

#[test]
fn lays_out_unmatched_standalone_without_invented_release_data() {
    let layout = LayoutPolicy
        .standalone(&StandaloneLayout {
            artist: ArtistCredit::single("Artist"),
            title: "Mystery Song".into(),
            extension: "ogg".into(),
        })
        .expect("layout should be valid");

    assert_eq!(layout.tracks[0], "Artist/Standalone Tracks/Mystery Song/Mystery Song.ogg");
}

#[test]
fn omits_an_unknown_year_instead_of_inventing_one() {
    let layout = LayoutPolicy
        .release(&ReleaseLayout {
            album_artist: ArtistCredit::single("Artist"),
            title: "Undated Album".into(),
            original_year: None,
            disc_count: 1,
            tracks: vec![track("Track", 1, 1, "flac")],
        })
        .expect("missing year should be supported");

    assert_eq!(layout.directory, "Artist/Undated Album");
}

#[test]
fn sanitizes_only_awkward_path_content_and_preserves_unicode() {
    let layout = LayoutPolicy
        .standalone(&StandaloneLayout {
            artist: ArtistCredit::single("Björk / Trio"),
            title: "One\nTwo\\Three".into(),
            extension: ".MP3".into(),
        })
        .expect("layout should be valid");

    assert_eq!(
        layout.tracks[0],
        "Björk - Trio/Standalone Tracks/One Two - Three/One Two - Three.mp3"
    );
}

#[test]
fn rejects_collisions_after_sanitization() {
    let error = LayoutPolicy
        .release(&ReleaseLayout {
            album_artist: ArtistCredit::single("Artist"),
            title: "Album".into(),
            original_year: Some(2000),
            disc_count: 1,
            tracks: vec![track("Same/Title", 1, 1, "flac"), track("Same\\Title", 1, 1, "flac")],
        })
        .expect_err("duplicate output must be rejected");

    assert!(matches!(error, LayoutError::Collision(_)));
}

#[test]
fn rejects_an_empty_title_component() {
    let error = LayoutPolicy
        .standalone(&StandaloneLayout {
            artist: ArtistCredit::single("Artist"),
            title: " . ".into(),
            extension: "flac".into(),
        })
        .expect_err("an empty title must be rejected");

    assert!(matches!(error, LayoutError::EmptyComponent(_)));
}

#[test]
fn rejects_an_extension_with_punctuation() {
    let error = LayoutPolicy
        .standalone(&StandaloneLayout {
            artist: ArtistCredit::single("Artist"),
            title: "Song".into(),
            extension: "fl/ac".into(),
        })
        .expect_err("an odd extension must be rejected");

    assert!(matches!(error, LayoutError::InvalidExtension(_)));
}

#[test]
fn rejects_a_zero_track_number() {
    let error = LayoutPolicy
        .release(&ReleaseLayout {
            album_artist: ArtistCredit::single("Artist"),
            title: "Album".into(),
            original_year: None,
            disc_count: 1,
            tracks: vec![track("Song", 1, 0, "flac")],
        })
        .expect_err("track zero must be rejected");

    assert!(matches!(error, LayoutError::InvalidPosition { disc: 1, track: 0 }));
}

#[test]
fn repeated_separators_after_the_root_count_as_one() {
    assert_eq!(music_groomer::layout::relative_to("/lib//Artist", "/lib"), Some("Artist".to_string()));
    assert_eq!(music_groomer::layout::relative_to("/lib/Artist", "/lib/"), Some("Artist".to_string()));
    assert_eq!(music_groomer::layout::relative_to("/library/Artist", "/lib"), None);
}

#[test]
fn unicode_controls_and_spaces_are_sanitized_like_ascii_ones() {
    let layout = LayoutPolicy
        .standalone(&StandaloneLayout {
            artist: ArtistCredit::single("Ann\u{3000}Lee"),
            title: "Night\u{85}Song\u{7f}".into(),
            extension: "flac".into(),
        })
        .expect("layout should be valid");

    assert_eq!(layout.tracks[0], "Ann Lee/Standalone Tracks/Night Song/Night Song.flac");
}

#[test]
fn paths_are_compared_by_components_as_std_path_does() {

    let cases = [
        ("/root/./x", "/root"),
        ("/root", "/root/"),
        ("/root//a/./b/", "/root"),
        ("/root/x", "/ro"),
        ("./a/b", "."),
        ("a/b", "./a"),
        ("/a", ""),
    ];
    for (path, base) in cases {
        let expected = Path::new(path).strip_prefix(base).ok().map(|rest| rest.to_str().unwrap().to_string());
        let found = relative_to(path, base);
        assert_eq!(found.is_some(), expected.is_some(), "{path} under {base}");
        if let (Some(found), Some(expected)) = (found, expected) {
            assert_eq!(Path::new(&found), Path::new(&expected), "{path} under {base}");
        }
    }
    assert_eq!(relative_to("/root/./x", "/root"), Some("x".to_string()));
    assert_eq!(relative_to("/root", "/root/"), Some(String::new()));

    for (base, rel) in [("/new", "/abs"), ("/new", "x"), ("/new/", "x"), ("", "x"), ("/new", "")] {
        assert_eq!(Path::new(&join_path(base, rel)), Path::new(base).join(rel), "{rel} onto {base}");
        assert_eq!(join_path(base, rel), Path::new(base).join(rel).to_str().unwrap(), "{rel} onto {base}");
    }

    for path in ["a/b/", "a/b/.", "/", "..", "a/..", "a/b", "", "."] {
        let expected = Path::new(path).file_name().map(|name| name.to_str().unwrap().to_string());
        assert_eq!(path_file_name(path), expected, "{path}");
    }
}
