use music_groomer::apply::transaction::{replacement_context_check, replacement_report, swap_failure, SwapOutcome};
use music_groomer::apply::CleanupOutcome;
use music_groomer::apply::transaction::{apply_start, apply_step, ApplyAction, ApplyWork, WorkOutcome};
use music_groomer::apply::{ApplyFailure, ApplyStage};

fn works_until_success(replacement: bool) -> Vec<ApplyWork> {
    let (mut run, mut action) = apply_start(replacement);
    let mut works = Vec::new();
    loop {
        match action {
            ApplyAction::Perform(work) => {
                works.push(work);
                let (next_run, next_action) = apply_step(run, WorkOutcome::Done);
                run = next_run;
                action = next_action;
            }
            ApplyAction::Succeed => return works,
            ApplyAction::Fail { .. } => panic!("unexpected failure"),
        }
    }
}

#[test]
fn a_new_release_is_validated_before_it_is_published() {
    assert_eq!(
        works_until_success(false),
        vec![
            ApplyWork::RecheckSource,
            ApplyWork::CheckSpace,
            ApplyWork::CreateStaging,
            ApplyWork::CopyToStage,
            ApplyWork::Groom,
            ApplyWork::Validate,
            ApplyWork::Publish,
        ]
    );
}

#[test]
fn a_replacement_confirms_its_context_and_swaps_after_validation() {
    assert_eq!(
        works_until_success(true),
        vec![
            ApplyWork::RecheckSource,
            ApplyWork::ConfirmReplacementContext,
            ApplyWork::CheckSpace,
            ApplyWork::CreateStaging,
            ApplyWork::CopyToStage,
            ApplyWork::Groom,
            ApplyWork::Validate,
            ApplyWork::SwapReplacement,
        ]
    );
}

#[test]
fn failures_remove_staging_only_once_it_exists() {
    let (run, _) = apply_start(false);
    let failure = ApplyFailure::new(ApplyStage::Preflight, None, "changed".into());
    match apply_step(run, WorkOutcome::Failed(failure)).1 {
        ApplyAction::Fail { discard_staging, .. } => assert!(!discard_staging),
        other => panic!("unexpected {other:?}"),
    }
    let (mut run, _) = apply_start(false);
    for _ in 0..4 {
        run = apply_step(run, WorkOutcome::Done).0;
    }
    let failure = ApplyFailure::new(ApplyStage::Grooming, None, "tag write failed".into());
    match apply_step(run, WorkOutcome::Failed(failure)).1 {
        ApplyAction::Fail { failure, discard_staging } => {
            assert!(discard_staging);
            assert_eq!(failure.cause, "tag write failed");
        }
        other => panic!("unexpected {other:?}"),
    }
}

#[test]
fn a_changed_replacement_context_stops_before_anything_is_touched() {

    assert!(replacement_context_check(true, "/music/Old").is_none());
    let failure = replacement_context_check(false, "/music/Old").expect("a changed context fails");
    assert_eq!(failure.stage, ApplyStage::Preflight);
    assert_eq!(failure.path.as_deref(), Some("/music/Old"));
    assert_eq!(failure.cause, "replacement context changed after confirmation");
    assert!(failure.source_untouched && !failure.destination_published);
}

#[test]
fn swap_failures_say_what_they_left_behind() {

    assert!(swap_failure(SwapOutcome::Swapped, "/music/Old", "/music/.prepared").is_none());

    let rolled_back = swap_failure(
        SwapOutcome::RolledBack { cause: "rename failed".into(), discard_failure: None },
        "/music/Old",
        "/music/.prepared",
    )
    .unwrap();
    assert_eq!(rolled_back.stage, ApplyStage::Publishing);
    assert_eq!(rolled_back.cleanup, CleanupOutcome::Complete);
    assert!(rolled_back.source_untouched && !rolled_back.destination_published);

    let undiscarded = swap_failure(
        SwapOutcome::RolledBack { cause: "rename failed".into(), discard_failure: Some("busy".into()) },
        "/music/Old",
        "/music/.prepared",
    )
    .unwrap();
    assert_eq!(undiscarded.cleanup, CleanupOutcome::Failed("busy".into()));

    let stuck = swap_failure(
        SwapOutcome::RollbackIncomplete { cause: "restore failed".into() },
        "/music/Old",
        "/music/.prepared",
    )
    .unwrap();
    assert_eq!(stuck.cause, "restore failed");
    assert!(!stuck.source_untouched && stuck.destination_published);
    assert_eq!(
        stuck.cleanup,
        CleanupOutcome::Failed("prepared replacement remains at /music/.prepared for manual recovery".into())
    );
}

#[test]
fn a_finished_replacement_reports_its_cleanup_warnings_in_order() {

    let report = replacement_report(
        "/music/New".to_string(),
        2,
        1,
        vec!["low space".to_string()],
        Some("stage kept".to_string()),
        Some("busy".to_string()),
        "swapped",
    );
    assert_eq!(report.apply.destination, "/music/New");
    assert_eq!(report.apply.tracks_validated, 2);
    assert!(report.apply.artwork_validated);
    assert!(!report.apply.source_unchanged);
    assert!(report.apply.publication_copied);
    assert_eq!(
        report.apply.warnings,
        vec![
            "low space".to_string(),
            "The replacement succeeded, but publication cleanup was incomplete: stage kept".to_string(),
            "The replacement succeeded, but temporary cleanup failed: busy".to_string(),
        ]
    );
    assert_eq!(report.replacement, "swapped");
}
