use vstd::prelude::*;

use crate::apply::{failure_text, ApplyFailure};
use crate::matching_ui::ascii_lowered;
use crate::text::{append, owned, text_eq, to_ascii_lowercase};

verus! {

/// Why the guided Apply flow stopped.
#[derive(Debug)]
pub enum GuidedApplyError {
    Io(String),
    Planning(String),
    SourceChanged(ApplyFailure),
}

pub open spec fn guided_apply_error_text(e: GuidedApplyError) -> Seq<char> {
    match e {
        GuidedApplyError::Io(message) => "terminal interaction failed: "@ + message@,
        GuidedApplyError::Planning(message) => "cannot build the grooming plan: "@ + message@,
        GuidedApplyError::SourceChanged(failure) => "the preview is no longer valid; inspect the source again ("@
            + failure_text(failure) + ")"@,
    }
}

impl GuidedApplyError {
    /// The message shown for this error.
    pub fn describe(&self) -> (r: String)
        ensures
            r@ == guided_apply_error_text(*self),
    {
        match self {
            GuidedApplyError::Io(message) => {
                let mut out = owned("terminal interaction failed: ");
                append(&mut out, message.as_str());
                out
            },
            GuidedApplyError::Planning(message) => {
                let mut out = owned("cannot build the grooming plan: ");
                append(&mut out, message.as_str());
                out
            },
            GuidedApplyError::SourceChanged(failure) => {
                let mut out = owned("the preview is no longer valid; inspect the source again (");
                let text = failure.describe();
                append(&mut out, text.as_str());
                append(&mut out, ")");
                out
            },
        }
    }
}

/// What an answer at the plan's menu asks for.
#[derive(Clone, Copy, Debug, PartialEq, Eq, Structural)]
pub enum PlanMenuAnswer {
    Apply,
    Review,
    Artwork,
    Destination,
    Cancel,
    /// An empty answer: show the plan again.
    Redisplay,
    Unrecognized,
}

/// `a`/`apply`, `r`/`review`, `w`/`artwork`, `d`/`destination`,
/// `c`/`cancel`/`q`/`quit`, letters compared without ASCII case; an empty
/// answer shows the plan again.
pub open spec fn plan_menu_answer(answer: Seq<char>) -> PlanMenuAnswer {
    let word = ascii_lowered(answer);
    if word == "a"@ || word == "apply"@ {
        PlanMenuAnswer::Apply
    } else if word == "r"@ || word == "review"@ {
        PlanMenuAnswer::Review
    } else if word == "w"@ || word == "artwork"@ {
        PlanMenuAnswer::Artwork
    } else if word == "d"@ || word == "destination"@ {
        PlanMenuAnswer::Destination
    } else if word == "c"@ || word == "cancel"@ || word == "q"@ || word == "quit"@ {
        PlanMenuAnswer::Cancel
    } else if word.len() == 0 {
        PlanMenuAnswer::Redisplay
    } else {
        PlanMenuAnswer::Unrecognized
    }
}

/// How an answer at the plan's menu is read.
pub fn interpret_plan_answer(answer: &str) -> (r: PlanMenuAnswer)
    ensures
        r == plan_menu_answer(answer@),
{
    let word = to_ascii_lowercase(answer);
    proof {
        reveal_strlit("a");
        reveal_strlit("apply");
        reveal_strlit("r");
        reveal_strlit("review");
        reveal_strlit("w");
        reveal_strlit("artwork");
        reveal_strlit("d");
        reveal_strlit("destination");
        reveal_strlit("c");
        reveal_strlit("cancel");
        reveal_strlit("q");
        reveal_strlit("quit");
    }
    let w = word.as_str();
    if text_eq(w, "a") || text_eq(w, "apply") {
        PlanMenuAnswer::Apply
    } else if text_eq(w, "r") || text_eq(w, "review") {
        PlanMenuAnswer::Review
    } else if text_eq(w, "w") || text_eq(w, "artwork") {
        PlanMenuAnswer::Artwork
    } else if text_eq(w, "d") || text_eq(w, "destination") {
        PlanMenuAnswer::Destination
    } else if text_eq(w, "c") || text_eq(w, "cancel") || text_eq(w, "q") || text_eq(w, "quit") {
        PlanMenuAnswer::Cancel
    } else if w.unicode_len() == 0 {
        PlanMenuAnswer::Redisplay
    } else {
        PlanMenuAnswer::Unrecognized
    }
}

/// An answer to a question whose default is yes.
#[derive(Clone, Copy, Debug, PartialEq, Eq, Structural)]
pub enum YesNoAnswer {
    Yes,
    No,
    Unrecognized,
}

/// Empty, `y` or `yes` is yes; `n` or `no` is no; letters compared without
/// ASCII case; anything else is asked again.
pub open spec fn yes_no_answer(answer: Seq<char>) -> YesNoAnswer {
    let word = ascii_lowered(answer);
    if word.len() == 0 || word == "y"@ || word == "yes"@ {
        YesNoAnswer::Yes
    } else if word == "n"@ || word == "no"@ {
        YesNoAnswer::No
    } else {
        YesNoAnswer::Unrecognized
    }
}

/// How an answer to "Apply this exact plan?" or "Remove this abandoned
/// partial?" is read.
pub fn interpret_yes_no(answer: &str) -> (r: YesNoAnswer)
    ensures
        r == yes_no_answer(answer@),
{
    let word = to_ascii_lowercase(answer);
    proof {
        reveal_strlit("y");
        reveal_strlit("yes");
        reveal_strlit("n");
        reveal_strlit("no");
    }
    let w = word.as_str();
    if w.unicode_len() == 0 || text_eq(w, "y") || text_eq(w, "yes") {
        YesNoAnswer::Yes
    } else if text_eq(w, "n") || text_eq(w, "no") {
        YesNoAnswer::No
    } else {
        YesNoAnswer::Unrecognized
    }
}

/// Where the flow goes after a failed Apply.
#[derive(Debug)]
pub enum FailedApply {
    /// The unchanged preview stays available: change it, retry, or cancel.
    Retry,
    /// The source changed: the preview is no longer valid.
    Reinspect(ApplyFailure),
}

/// A failure that asks for reinspection ends the flow; any other returns to the preview.
pub fn after_failure(failure: ApplyFailure) -> (r: FailedApply)
    ensures
        failure.requires_reinspection ==> (r matches FailedApply::Reinspect(f) && f == failure),
        !failure.requires_reinspection ==> r is Retry,
{
    if failure.requires_reinspection {
        FailedApply::Reinspect(failure)
    } else {
        FailedApply::Retry
    }
}

/// `c`/`cancel`/`b`/`back`, letters compared without ASCII case, leaves the
/// destination prompt; anything else is read as a destination root.
pub open spec fn leaves_destination_prompt(answer: Seq<char>) -> bool {
    let word = ascii_lowered(answer);
    word == "c"@ || word == "cancel"@ || word == "b"@ || word == "back"@
}

/// Whether an answer at the destination prompt leaves it.
pub fn destination_prompt_left(answer: &str) -> (r: bool)
    ensures
        r == leaves_destination_prompt(answer@),
{
    let word = to_ascii_lowercase(answer);
    proof {
        reveal_strlit("c");
        reveal_strlit("cancel");
        reveal_strlit("b");
        reveal_strlit("back");
    }
    let w = word.as_str();
    text_eq(w, "c") || text_eq(w, "cancel") || text_eq(w, "b") || text_eq(w, "back")
}

} // verus!
