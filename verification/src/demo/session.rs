use vstd::prelude::*;

use crate::demo::DemoScenario;
use crate::guided_apply::{interpret_plan_answer, interpret_yes_no, plan_menu_answer, yes_no_answer, PlanMenuAnswer, YesNoAnswer};
use crate::matching_ui::{number_value, read_number};
use crate::plan::{ApplyReport, GroomingPlan};
use crate::text::{owned, text_eq};

verus! {

/// The scenario an answer picks: `1` to `4`; `c`, `C`, `q` or `Q` cancels
/// (`Some(None)`); anything else is asked again (`None`).
pub open spec fn scenario_answer(answer: Seq<char>) -> Option<Option<DemoScenario>> {
    if answer == "1"@ {
        Some(Some(DemoScenario::ConfidentAlbum))
    } else if answer == "2"@ {
        Some(Some(DemoScenario::AmbiguousCollaboration))
    } else if answer == "3"@ {
        Some(Some(DemoScenario::MatchedSingle))
    } else if answer == "4"@ {
        Some(Some(DemoScenario::StandaloneTrack))
    } else if answer == "c"@ || answer == "C"@ || answer == "q"@ || answer == "Q"@ {
        Some(None)
    } else {
        None
    }
}

/// How an answer to "Source [1-4, or c to cancel]" is read.
pub fn interpret_scenario_answer(answer: &str) -> (r: Option<Option<DemoScenario>>)
    ensures
        r == scenario_answer(answer@),
{
    if text_eq(answer, "1") {
        Some(Some(DemoScenario::ConfidentAlbum))
    } else if text_eq(answer, "2") {
        Some(Some(DemoScenario::AmbiguousCollaboration))
    } else if text_eq(answer, "3") {
        Some(Some(DemoScenario::MatchedSingle))
    } else if text_eq(answer, "4") {
        Some(Some(DemoScenario::StandaloneTrack))
    } else if text_eq(answer, "c") || text_eq(answer, "C") || text_eq(answer, "q") || text_eq(answer, "Q") {
        Some(None)
    } else {
        None
    }
}

/// The release an answer picks among `count` listed: `c`, `C`, `q` or `Q`
/// cancels (`Some(None)`); a number picks the release at that place, where `0`
/// counts as `1`; anything else is asked again (`None`).
pub open spec fn release_answer(answer: Seq<char>, count: nat) -> Option<Option<nat>> {
    if answer == "c"@ || answer == "C"@ || answer == "q"@ || answer == "Q"@ {
        Some(None)
    } else {
        match number_value(answer) {
            Some(n) => {
                let index: nat = if n == 0 { 0 } else { (n - 1) as nat };
                if index < count { Some(Some(index)) } else { None }
            },
            None => None,
        }
    }
}

/// How an answer to "Release number, or c to cancel" is read among `count` releases.
pub fn interpret_release_answer(answer: &str, count: usize) -> (r: Option<Option<usize>>)
    ensures
        match release_answer(answer@, count as nat) {
            Some(Some(i)) => r == Some(Some(i as usize)),
            Some(None) => r == Some(None::<usize>),
            None => r is None,
        },
{
    if text_eq(answer, "c") || text_eq(answer, "C") || text_eq(answer, "q") || text_eq(answer, "Q") {
        return Some(None);
    }
    match read_number(answer, count as u64) {
        Some((n, over)) => {
            if over {
                None
            } else {
                let index: u64 = if n == 0 { 0 } else { n - 1 };
                if index < count as u64 { Some(Some(index as usize)) } else { None }
            }
        },
        None => None,
    }
}

/// Where the demo stands.
#[derive(Clone, Copy, Debug, PartialEq, Eq, Structural)]
pub enum DemoPhase {
    ChoosingScenario,
    SelectingMetadata,
    Previewing,
    ConfirmingApply,
    InSubflow,
    Finished,
}

/// What the user settled the demo's metadata to.
#[derive(Clone, Copy, Debug, PartialEq, Eq, Structural)]
pub enum DemoSelection {
    Matched,
    ExistingTags,
    Cancelled,
}

/// What happened since the demo's last action.
#[derive(Debug)]
pub enum DemoEvent {
    /// The user answered the pending question.
    Answered(String),
    /// The scenario was shown and its metadata settled.
    MetadataSelected(DemoSelection),
    /// A review, artwork choice or destination choice finished.
    SubflowDone,
}

/// What the demo does next.
#[derive(Debug, PartialEq, Eq)]
pub enum DemoAction {
    AskScenario,
    ComplainThenAskScenario,
    /// Show the scenario's inspection and settle its metadata.
    ShowScenario(DemoScenario),
    /// Build the plan and show its summary and menu.
    ShowPlan,
    ComplainThenShowPlan,
    ShowDetails,
    ChooseArtwork,
    ChooseDestination,
    AskToApply,
    ComplainThenAskToApply,
    /// Apply was not confirmed: say so and show the plan again.
    DeclinedThenShowPlan,
    /// End the demo: cancelled, or with the simulated apply.
    Finish { applied: bool },
}

/// The demo starts with the given scenario, or asks for one.
pub fn demo_start(scenario: Option<DemoScenario>) -> (r: (DemoPhase, DemoAction))
    ensures
        match scenario {
            Some(s) => r == (DemoPhase::SelectingMetadata, DemoAction::ShowScenario(s)),
            None => r == (DemoPhase::ChoosingScenario, DemoAction::AskScenario),
        },
{
    match scenario {
        Some(s) => (DemoPhase::SelectingMetadata, DemoAction::ShowScenario(s)),
        None => (DemoPhase::ChoosingScenario, DemoAction::AskScenario),
    }
}

/// The events each phase waits for.
pub open spec fn demo_accepts(phase: DemoPhase, event: DemoEvent) -> bool {
    match phase {
        DemoPhase::ChoosingScenario | DemoPhase::Previewing | DemoPhase::ConfirmingApply => event is Answered,
        DemoPhase::SelectingMetadata => event is MetadataSelected,
        DemoPhase::InSubflow => event is SubflowDone,
        DemoPhase::Finished => false,
    }
}

/// How the demo goes on: a chosen scenario is shown and its metadata settled
/// (cancelling ends the demo); then the plan is shown with its menu: apply (after
/// a confirmation whose default is yes), review, artwork, destination, or
/// cancel; an empty answer shows the plan again; unrecognised answers are
/// complained about and asked again.
pub open spec fn demo_transition(phase: DemoPhase, event: DemoEvent) -> (DemoPhase, DemoAction) {
    match (phase, event) {
        (DemoPhase::ChoosingScenario, DemoEvent::Answered(a)) => match scenario_answer(a@) {
            Some(Some(s)) => (DemoPhase::SelectingMetadata, DemoAction::ShowScenario(s)),
            Some(None) => (DemoPhase::Finished, DemoAction::Finish { applied: false }),
            None => (DemoPhase::ChoosingScenario, DemoAction::ComplainThenAskScenario),
        },
        (DemoPhase::SelectingMetadata, DemoEvent::MetadataSelected(selection)) => match selection {
            DemoSelection::Cancelled => (DemoPhase::Finished, DemoAction::Finish { applied: false }),
            _ => (DemoPhase::Previewing, DemoAction::ShowPlan),
        },
        (DemoPhase::Previewing, DemoEvent::Answered(a)) => match plan_menu_answer(a@) {
            PlanMenuAnswer::Apply => (DemoPhase::ConfirmingApply, DemoAction::AskToApply),
            PlanMenuAnswer::Review => (DemoPhase::InSubflow, DemoAction::ShowDetails),
            PlanMenuAnswer::Artwork => (DemoPhase::InSubflow, DemoAction::ChooseArtwork),
            PlanMenuAnswer::Destination => (DemoPhase::InSubflow, DemoAction::ChooseDestination),
            PlanMenuAnswer::Cancel => (DemoPhase::Finished, DemoAction::Finish { applied: false }),
            PlanMenuAnswer::Redisplay => (DemoPhase::Previewing, DemoAction::ShowPlan),
            PlanMenuAnswer::Unrecognized => (DemoPhase::Previewing, DemoAction::ComplainThenShowPlan),
        },
        (DemoPhase::ConfirmingApply, DemoEvent::Answered(a)) => match yes_no_answer(a@) {
            YesNoAnswer::Yes => (DemoPhase::Finished, DemoAction::Finish { applied: true }),
            YesNoAnswer::No => (DemoPhase::Previewing, DemoAction::DeclinedThenShowPlan),
            YesNoAnswer::Unrecognized => (DemoPhase::ConfirmingApply, DemoAction::ComplainThenAskToApply),
        },
        (DemoPhase::InSubflow, DemoEvent::SubflowDone) => (DemoPhase::Previewing, DemoAction::ShowPlan),
        _ => (phase, DemoAction::Finish { applied: false }),
    }
}

/// Advances the demo by what happened.
pub fn demo_step(phase: DemoPhase, event: DemoEvent) -> (r: (DemoPhase, DemoAction))
    requires
        demo_accepts(phase, event),
    ensures
        r == demo_transition(phase, event),
{
    match (phase, event) {
        (DemoPhase::ChoosingScenario, DemoEvent::Answered(a)) => match interpret_scenario_answer(a.as_str()) {
            Some(Some(s)) => (DemoPhase::SelectingMetadata, DemoAction::ShowScenario(s)),
            Some(None) => (DemoPhase::Finished, DemoAction::Finish { applied: false }),
            None => (DemoPhase::ChoosingScenario, DemoAction::ComplainThenAskScenario),
        },
        (DemoPhase::SelectingMetadata, DemoEvent::MetadataSelected(selection)) => match selection {
            DemoSelection::Cancelled => (DemoPhase::Finished, DemoAction::Finish { applied: false }),
            _ => (DemoPhase::Previewing, DemoAction::ShowPlan),
        },
        (DemoPhase::Previewing, DemoEvent::Answered(a)) => match interpret_plan_answer(a.as_str()) {
            PlanMenuAnswer::Apply => (DemoPhase::ConfirmingApply, DemoAction::AskToApply),
            PlanMenuAnswer::Review => (DemoPhase::InSubflow, DemoAction::ShowDetails),
            PlanMenuAnswer::Artwork => (DemoPhase::InSubflow, DemoAction::ChooseArtwork),
            PlanMenuAnswer::Destination => (DemoPhase::InSubflow, DemoAction::ChooseDestination),
            PlanMenuAnswer::Cancel => (DemoPhase::Finished, DemoAction::Finish { applied: false }),
            PlanMenuAnswer::Redisplay => (DemoPhase::Previewing, DemoAction::ShowPlan),
            PlanMenuAnswer::Unrecognized => (DemoPhase::Previewing, DemoAction::ComplainThenShowPlan),
        },
        (DemoPhase::ConfirmingApply, DemoEvent::Answered(a)) => match interpret_yes_no(a.as_str()) {
            YesNoAnswer::Yes => (DemoPhase::Finished, DemoAction::Finish { applied: true }),
            YesNoAnswer::No => (DemoPhase::Previewing, DemoAction::DeclinedThenShowPlan),
            YesNoAnswer::Unrecognized => (DemoPhase::ConfirmingApply, DemoAction::ComplainThenAskToApply),
        },
        (DemoPhase::InSubflow, DemoEvent::SubflowDone) => (DemoPhase::Previewing, DemoAction::ShowPlan),
        (_, _) => (phase, DemoAction::Finish { applied: false }),
    }
}

/// A demo applies only after the user confirmed it at the plan: every step that
/// finishes with the simulated apply comes from the confirmation.
pub proof fn law_demo_applies_only_when_confirmed(phase: DemoPhase, event: DemoEvent)
    ensures
        demo_transition(phase, event).1 == (DemoAction::Finish { applied: true }) ==> phase == DemoPhase::ConfirmingApply,
{
}

/// What a simulated apply reports: the plan's destination, its tracks and
/// artwork as validated, the source unchanged, nothing copied.
pub fn demo_apply_report(plan: &GroomingPlan) -> (r: ApplyReport)
    ensures
        r.destination@ == plan.destination@,
        r.tracks_validated == plan.tracks@.len(),
        r.artwork_validated == plan.artwork.output_name is Some,
        r.source_unchanged,
        r.warnings@.len() == 0,
        !r.publication_copied,
{
    ApplyReport {
        destination: plan.destination.clone(),
        tracks_validated: plan.tracks.len(),
        artwork_validated: plan.artwork.output_name.is_some(),
        source_unchanged: true,
        warnings: Vec::new(),
        publication_copied: false,
    }
}

} // verus!
