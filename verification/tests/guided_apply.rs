use music_groomer::apply::{ApplyFailure, ApplyStage};
use music_groomer::guided_apply::{
    after_failure, destination_prompt_left, interpret_plan_answer, interpret_yes_no, FailedApply, PlanMenuAnswer, YesNoAnswer,
};

#[test]
fn plan_menu_answers_are_read_without_case() {
    assert_eq!(interpret_plan_answer("A"), PlanMenuAnswer::Apply);
    assert_eq!(interpret_plan_answer("review"), PlanMenuAnswer::Review);
    assert_eq!(interpret_plan_answer("W"), PlanMenuAnswer::Artwork);
    assert_eq!(interpret_plan_answer("Destination"), PlanMenuAnswer::Destination);
    assert_eq!(interpret_plan_answer("q"), PlanMenuAnswer::Cancel);
    assert_eq!(interpret_plan_answer(""), PlanMenuAnswer::Redisplay);
    assert_eq!(interpret_plan_answer("apply now"), PlanMenuAnswer::Unrecognized);
}

#[test]
fn yes_is_the_default_answer() {
    assert_eq!(interpret_yes_no(""), YesNoAnswer::Yes);
    assert_eq!(interpret_yes_no("YES"), YesNoAnswer::Yes);
    assert_eq!(interpret_yes_no("n"), YesNoAnswer::No);
    assert_eq!(interpret_yes_no("nope"), YesNoAnswer::Unrecognized);
}

#[test]
fn changed_source_ends_the_flow_and_other_failures_return_to_the_preview() {
    let changed = ApplyFailure::source_changed(Some("/music/Album/01.flac".into()), "changed".into());
    match after_failure(changed) {
        FailedApply::Reinspect(failure) => assert!(failure.requires_reinspection),
        other => panic!("unexpected {other:?}"),
    }
    let copying = ApplyFailure::new(ApplyStage::Copying, None, "disk full".into());
    assert!(matches!(after_failure(copying), FailedApply::Retry));
}

#[test]
fn destination_prompt_is_left_by_cancel_or_back() {
    assert!(destination_prompt_left("C"));
    assert!(destination_prompt_left("back"));
    assert!(!destination_prompt_left("/music/library"));
    assert!(!destination_prompt_left(""));
}
