use music_groomer::demo::session::{
    demo_start, demo_step, interpret_release_answer, interpret_scenario_answer, DemoAction, DemoEvent, DemoPhase,
    DemoSelection,
};
use music_groomer::demo::DemoScenario;

fn answered(text: &str) -> DemoEvent {
    DemoEvent::Answered(text.to_string())
}

#[test]
fn scenario_answers_pick_cancel_or_ask_again() {
    assert_eq!(interpret_scenario_answer("1"), Some(Some(DemoScenario::ConfidentAlbum)));
    assert_eq!(interpret_scenario_answer("2"), Some(Some(DemoScenario::AmbiguousCollaboration)));
    assert_eq!(interpret_scenario_answer("3"), Some(Some(DemoScenario::MatchedSingle)));
    assert_eq!(interpret_scenario_answer("4"), Some(Some(DemoScenario::StandaloneTrack)));
    assert_eq!(interpret_scenario_answer("c"), Some(None));
    assert_eq!(interpret_scenario_answer("Q"), Some(None));
    assert_eq!(interpret_scenario_answer("5"), None);
    assert_eq!(interpret_scenario_answer(""), None);
}

#[test]
fn release_answers_count_from_one_and_zero_picks_the_first() {
    assert_eq!(interpret_release_answer("0", 2), Some(Some(0)));
    assert_eq!(interpret_release_answer("1", 2), Some(Some(0)));
    assert_eq!(interpret_release_answer("2", 2), Some(Some(1)));
    assert_eq!(interpret_release_answer("2", 1), None);
    assert_eq!(interpret_release_answer("c", 1), Some(None));
    assert_eq!(interpret_release_answer("x", 3), None);
}

#[test]
fn demo_starts_with_a_given_scenario_or_asks() {
    assert_eq!(
        demo_start(Some(DemoScenario::MatchedSingle)),
        (DemoPhase::SelectingMetadata, DemoAction::ShowScenario(DemoScenario::MatchedSingle))
    );
    assert_eq!(demo_start(None), (DemoPhase::ChoosingScenario, DemoAction::AskScenario));
}

#[test]
fn confirmed_demo_runs_to_a_simulated_apply() {
    let (phase, action) = demo_start(None);
    assert_eq!(action, DemoAction::AskScenario);
    let (phase, action) = demo_step(phase, answered("9"));
    assert_eq!((phase, action), (DemoPhase::ChoosingScenario, DemoAction::ComplainThenAskScenario));
    let (phase, action) = demo_step(phase, answered("1"));
    assert_eq!(action, DemoAction::ShowScenario(DemoScenario::ConfidentAlbum));
    let (phase, action) = demo_step(phase, DemoEvent::MetadataSelected(DemoSelection::Matched));
    assert_eq!((phase, action), (DemoPhase::Previewing, DemoAction::ShowPlan));
    let (phase, action) = demo_step(phase, answered("r"));
    assert_eq!((phase, action), (DemoPhase::InSubflow, DemoAction::ShowDetails));
    let (phase, action) = demo_step(phase, DemoEvent::SubflowDone);
    assert_eq!(action, DemoAction::ShowPlan);
    let (phase, action) = demo_step(phase, answered("Apply"));
    assert_eq!((phase, action), (DemoPhase::ConfirmingApply, DemoAction::AskToApply));
    let (phase, action) = demo_step(phase, answered("n"));
    assert_eq!((phase, action), (DemoPhase::Previewing, DemoAction::DeclinedThenShowPlan));
    let (phase, _) = demo_step(phase, answered("a"));
    let (phase, action) = demo_step(phase, answered(""));
    assert_eq!((phase, action), (DemoPhase::Finished, DemoAction::Finish { applied: true }));
}

#[test]
fn cancelling_the_metadata_or_the_plan_ends_the_demo_unapplied() {
    let (phase, _) = demo_start(Some(DemoScenario::StandaloneTrack));
    let (phase, action) = demo_step(phase, DemoEvent::MetadataSelected(DemoSelection::Cancelled));
    assert_eq!((phase, action), (DemoPhase::Finished, DemoAction::Finish { applied: false }));

    let (phase, _) = demo_start(Some(DemoScenario::StandaloneTrack));
    let (phase, _) = demo_step(phase, DemoEvent::MetadataSelected(DemoSelection::ExistingTags));
    let (phase, action) = demo_step(phase, answered("zzz"));
    assert_eq!((phase, action), (DemoPhase::Previewing, DemoAction::ComplainThenShowPlan));
    let (phase, action) = demo_step(phase, answered("quit"));
    assert_eq!((phase, action), (DemoPhase::Finished, DemoAction::Finish { applied: false }));
}
