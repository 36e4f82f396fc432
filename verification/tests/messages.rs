use music_groomer::apply::{merge_cleanup, ApplyFailure, ApplyStage, CleanupOutcome};
use music_groomer::artwork_viewer::ViewerError;
use music_groomer::cli::DemoScenarioArgument;
use music_groomer::demo::{DemoError, DemoScenario};
use music_groomer::diagnostics::DiagnosticsError;
use music_groomer::fingerprint::{fingerprint_identity, AudioFingerprint, FingerprintError, FpcalcFingerprinter};
use music_groomer::guided_apply::GuidedApplyError;
use music_groomer::guided_recovery::GuidedRecoveryError;

#[test]
fn cleanup_failures_accumulate_in_order() {
    assert_eq!(merge_cleanup(CleanupOutcome::NotNeeded, None), CleanupOutcome::Complete);
    assert_eq!(
        merge_cleanup(CleanupOutcome::Complete, Some("busy".into())),
        CleanupOutcome::Failed("temporary staging cleanup failed: busy".into())
    );
    assert_eq!(
        merge_cleanup(CleanupOutcome::Failed("partial left".into()), Some("busy".into())),
        CleanupOutcome::Failed("partial left; temporary staging cleanup also failed: busy".into())
    );
    assert_eq!(
        merge_cleanup(CleanupOutcome::Failed("partial left".into()), None),
        CleanupOutcome::Failed("partial left".into())
    );
}

#[test]
fn apply_failures_name_stage_place_cause_and_cleanup() {
    let failure = ApplyFailure::new(ApplyStage::Copying, Some("/src/a.flac".into()), "read error".into());
    assert_eq!(failure.describe(), "Copying source failed at /src/a.flac: read error; no temporary data was created");
    let changed = ApplyFailure::source_changed(None, "the selected source changed after inspection".into());
    assert!(changed.requires_reinspection);
    assert_eq!(
        changed.describe(),
        "Preflight failed: the selected source changed after inspection; no temporary data was created"
    );
    assert_eq!(
        GuidedApplyError::SourceChanged(changed).describe(),
        "the preview is no longer valid; inspect the source again (Preflight failed: the selected source changed after inspection; no temporary data was created)"
    );
    assert_eq!(GuidedApplyError::Planning("no tracks".into()).describe(), "cannot build the grooming plan: no tracks");
    assert_eq!(GuidedApplyError::Io("closed".into()).describe(), "terminal interaction failed: closed");
    assert_eq!(GuidedRecoveryError::Io("closed".into()).describe(), "terminal interaction failed: closed");
    assert_eq!(GuidedRecoveryError::Operation("restore failed".into()).describe(), "restore failed");
}

#[test]
fn demo_scenarios_round_trip_through_their_names() {
    for (argument, scenario) in [
        (DemoScenarioArgument::Confident, DemoScenario::ConfidentAlbum),
        (DemoScenarioArgument::Ambiguous, DemoScenario::AmbiguousCollaboration),
        (DemoScenarioArgument::MatchedSingle, DemoScenario::MatchedSingle),
        (DemoScenarioArgument::Standalone, DemoScenario::StandaloneTrack),
    ] {
        assert_eq!(DemoScenario::parse(argument.name()), Some(scenario));
    }
    assert_eq!(DemoScenario::parse("Confident"), None);
    assert_eq!(DemoError::InvalidDemoData("x".into()).describe(), "invalid demo data: x");
}

#[test]
fn fingerprinting_runs_fpcalc_over_the_first_two_minutes() {
    let fingerprinter = FpcalcFingerprinter::default();

    assert_eq!(fingerprinter.executable(), "fpcalc");
    assert_eq!(fingerprinter.timeout_seconds(), 60);
    assert_eq!(fingerprinter.arguments("/music/a b.flac"), vec!["-json", "-length", "120", "/music/a b.flac"]);
    assert_eq!(
        fingerprint_identity(&AudioFingerprint { duration_seconds: 181, value: "AQAA".into() }),
        "181\nAQAA"
    );
}

#[test]
fn fingerprint_failures_explain_themselves() {
    assert_eq!(FingerprintError::Unavailable.describe(), "fpcalc is not available in PATH");
    assert_eq!(
        FingerprintError::Failed { status: Some(-2), message: "bad file".into() }.describe(),
        "fpcalc failed with status -2: bad file"
    );
    assert_eq!(FingerprintError::Failed { status: None, message: String::new() }.describe(), "fpcalc failed");
    assert_eq!(
        FingerprintError::Failed { status: Some(i32::MIN), message: String::new() }.describe(),
        "fpcalc failed with status -2147483648"
    );
}

#[test]
fn diagnostics_and_viewer_failures_explain_themselves() {
    assert_eq!(
        DiagnosticsError::Lock { path: "/d/run.log".into(), message: "held".into() }.describe(),
        "another diagnostic run is using /d/run.log: held"
    );
    assert_eq!(
        ViewerError::Launch("/tmp/cover.png".into(), "no viewer".into()).describe(),
        "cannot open /tmp/cover.png in an image viewer: no viewer"
    );
}

use music_groomer::apply::preflight::{preflight_destination, strip_prefix};
use music_groomer::domain::SourceKind;

#[test]
fn preflight_refuses_a_result_inside_its_source_album() {
    let failure = preflight_destination(
        SourceKind::AlbumDirectory,
        "/music/incoming/Album",
        "/music/incoming/Album",
        "/music/incoming/Album/Artist/1970 - Album",
        true,
        Ok("/music/incoming/Album".into()),
        Ok("/music/incoming/Album".into()),
        Ok(false),
    )
    .unwrap_err();

    assert_eq!(failure.path.as_deref(), Some("/music/incoming/Album/Artist/1970 - Album"));
    assert_eq!(failure.cause, "the result cannot be published inside the selected source album");
    assert!(failure.source_untouched && !failure.destination_published);
}

#[test]
fn preflight_refuses_an_existing_release_directory_and_accepts_a_new_one() {
    let check = |exists: Result<bool, String>| {
        preflight_destination(
            SourceKind::AlbumDirectory,
            "/incoming/Album",
            "/library",
            "/library/Artist/1970 - Album",
            true,
            Ok("/incoming/Album".into()),
            Ok("/library".into()),
            exists,
        )
    };

    assert!(check(Ok(false)).is_ok());
    let existing = check(Ok(true)).unwrap_err();
    assert!(existing.cause.starts_with("the release directory already exists"));
    let unknown = check(Err("permission denied".into())).unwrap_err();
    assert_eq!(unknown.cause, "cannot check destination collision: permission denied");
    let missing_root = preflight_destination(
        SourceKind::LooseFile,
        "/incoming/a.flac",
        "/library",
        "/library/Artist/Track",
        false,
        Err("not asked".into()),
        Err("not asked".into()),
        Ok(false),
    )
    .unwrap_err();
    assert_eq!(missing_root.path.as_deref(), Some("/library"));
}

#[test]
fn path_prefixes_are_stripped_by_whole_components() {
    assert_eq!(strip_prefix("/a/b/c", "/a/b").as_deref(), Some("c"));
    assert_eq!(strip_prefix("/a/b", "/a/b").as_deref(), Some(""));
    assert_eq!(strip_prefix("/a/bc", "/a/b"), None);
    assert_eq!(strip_prefix("/a/b/c", "/").as_deref(), Some("a/b/c"));
}
