use vstd::prelude::*;

use crate::apply::{ApplyFailure, ApplyStage, CleanupOutcome};
use crate::plan::ApplyReport;
use crate::text::{append, owned};

verus! {

/// One piece of work that Apply has done outside the library: on the file
/// system, or through the replacement store.
#[derive(Clone, Copy, Debug, PartialEq, Eq, Structural)]
pub enum ApplyWork {
    /// Compare the source with the snapshot taken at inspection.
    RecheckSource,
    /// Check that the release to be replaced is still the one that was confirmed.
    ConfirmReplacementContext,
    /// Measure free space for staging and for the destination.
    CheckSpace,
    /// Create the temporary staging directory.
    CreateStaging,
    /// Copy the source into staging.
    CopyToStage,
    /// Write the planned tags and artwork in staging.
    Groom,
    /// Validate the staged result against the plan.
    Validate,
    /// Publish the validated result into the library.
    Publish,
    /// Swap the validated result in place of the release it replaces.
    SwapReplacement,
}

/// The work of an Apply, in order: a new release is published; a replacement
/// also confirms what it replaces, and swaps instead of publishing.
pub open spec fn work_sequence(replacement: bool) -> Seq<ApplyWork> {
    if replacement {
        seq![
            ApplyWork::RecheckSource,
            ApplyWork::ConfirmReplacementContext,
            ApplyWork::CheckSpace,
            ApplyWork::CreateStaging,
            ApplyWork::CopyToStage,
            ApplyWork::Groom,
            ApplyWork::Validate,
            ApplyWork::SwapReplacement,
        ]
    } else {
        seq![
            ApplyWork::RecheckSource,
            ApplyWork::CheckSpace,
            ApplyWork::CreateStaging,
            ApplyWork::CopyToStage,
            ApplyWork::Groom,
            ApplyWork::Validate,
            ApplyWork::Publish,
        ]
    }
}

/// Where the temporary staging directory is created in the sequence.
pub open spec fn staging_position(replacement: bool) -> int {
    if replacement { 3 } else { 2 }
}

/// The stage an Apply reports when it starts a piece of work.
pub open spec fn stage_of(work: ApplyWork) -> ApplyStage {
    match work {
        ApplyWork::CopyToStage => ApplyStage::Copying,
        ApplyWork::Groom => ApplyStage::Grooming,
        ApplyWork::Validate => ApplyStage::Validating,
        ApplyWork::Publish | ApplyWork::SwapReplacement => ApplyStage::Publishing,
        _ => ApplyStage::Preflight,
    }
}

/// An Apply under way: whether it replaces a release, and how many pieces of its
/// work have been done.
#[derive(Clone, Copy, Debug, PartialEq, Eq, Structural)]
pub struct ApplyRun {
    pub replacement: bool,
    pub done: usize,
}

/// How a piece of work went.
#[derive(Debug)]
pub enum WorkOutcome {
    Done,
    Failed(ApplyFailure),
}

/// What Apply does next.
#[derive(Debug)]
pub enum ApplyAction {
    /// Report the stage, then do this work and tell how it went.
    Perform(ApplyWork),
    /// Everything was done: the result is in the library. Remove the staging.
    Succeed,
    /// Stop with this failure, after removing the staging if it was created.
    Fail { failure: ApplyFailure, discard_staging: bool },
}

/// The first step of an Apply: recheck the source.
pub fn apply_start(replacement: bool) -> (r: (ApplyRun, ApplyAction))
    ensures
        r.0 == (ApplyRun { replacement, done: 0 }),
        r.1 == ApplyAction::Perform(work_sequence(replacement)[0]),
{
    (ApplyRun { replacement, done: 0 }, ApplyAction::Perform(ApplyWork::RecheckSource))
}

/// The work at position `i` of the sequence.
fn work_at(replacement: bool, i: usize) -> (r: ApplyWork)
    requires
        i < work_sequence(replacement).len(),
    ensures
        r == work_sequence(replacement)[i as int],
{
    if replacement {
        if i == 0 {
            ApplyWork::RecheckSource
        } else if i == 1 {
            ApplyWork::ConfirmReplacementContext
        } else if i == 2 {
            ApplyWork::CheckSpace
        } else if i == 3 {
            ApplyWork::CreateStaging
        } else if i == 4 {
            ApplyWork::CopyToStage
        } else if i == 5 {
            ApplyWork::Groom
        } else if i == 6 {
            ApplyWork::Validate
        } else {
            ApplyWork::SwapReplacement
        }
    } else {
        if i == 0 {
            ApplyWork::RecheckSource
        } else if i == 1 {
            ApplyWork::CheckSpace
        } else if i == 2 {
            ApplyWork::CreateStaging
        } else if i == 3 {
            ApplyWork::CopyToStage
        } else if i == 4 {
            ApplyWork::Groom
        } else if i == 5 {
            ApplyWork::Validate
        } else {
            ApplyWork::Publish
        }
    }
}

/// The next step once the pending piece of work, the `run.done`-th, has gone as
/// `outcome`: done, the next piece of work, or success after the last; failed,
/// stop with that failure, removing the staging if it was created before.
pub open spec fn apply_transition(run: ApplyRun, outcome: WorkOutcome) -> (ApplyRun, ApplyAction) {
    let works = work_sequence(run.replacement);
    match outcome {
        WorkOutcome::Done => if run.done + 1 < works.len() {
            (ApplyRun { done: (run.done + 1) as usize, ..run }, ApplyAction::Perform(works[run.done + 1]))
        } else {
            (ApplyRun { done: works.len() as usize, ..run }, ApplyAction::Succeed)
        },
        WorkOutcome::Failed(failure) => (
            run,
            ApplyAction::Fail { failure, discard_staging: run.done > staging_position(run.replacement) },
        ),
    }
}

/// Advances an Apply by how its pending piece of work went.
pub fn apply_step(run: ApplyRun, outcome: WorkOutcome) -> (r: (ApplyRun, ApplyAction))
    requires
        run.done < work_sequence(run.replacement).len(),
    ensures
        r == apply_transition(run, outcome),
{
    let total: usize = if run.replacement { 8 } else { 7 };
    match outcome {
        WorkOutcome::Done => if run.done + 1 < total {
            let next = work_at(run.replacement, run.done + 1);
            (ApplyRun { replacement: run.replacement, done: run.done + 1 }, ApplyAction::Perform(next))
        } else {
            (ApplyRun { replacement: run.replacement, done: total }, ApplyAction::Succeed)
        },
        WorkOutcome::Failed(failure) => {
            let staging: usize = if run.replacement { 3 } else { 2 };
            (run, ApplyAction::Fail { failure, discard_staging: run.done > staging })
        },
    }
}

/// Publication (or the swap of a replacement) is asked for only right after
/// validation of the staged result succeeded, and success only after it.
pub proof fn law_publish_only_after_validation(run: ApplyRun)
    requires
        run.done < work_sequence(run.replacement).len(),
    ensures
        ({
            let next = apply_transition(run, WorkOutcome::Done).1;
            &&& (next == ApplyAction::Perform(ApplyWork::Publish) || next == ApplyAction::Perform(ApplyWork::SwapReplacement))
                ==> work_sequence(run.replacement)[run.done as int] == ApplyWork::Validate
            &&& next is Succeed ==> (work_sequence(run.replacement)[run.done as int] == ApplyWork::Publish
                || work_sequence(run.replacement)[run.done as int] == ApplyWork::SwapReplacement)
        }),
{
}

/// Nothing reaches the library before the staged result was validated: in
/// either sequence, validation comes right before publication, and nothing
/// after it but publication.
pub proof fn law_validation_precedes_publication(replacement: bool)
    ensures
        ({
            let works = work_sequence(replacement);
            let last = works.len() - 1;
            &&& works[last - 1] == ApplyWork::Validate
            &&& works[last] == ApplyWork::Publish || works[last] == ApplyWork::SwapReplacement
            &&& forall|i: int| 0 <= i < last ==> works[i] != ApplyWork::Publish && works[i] != ApplyWork::SwapReplacement
        }),
{
}

/// A failure after the staging was created always removes it; one before
/// never touches it.
pub proof fn law_failures_discard_created_staging(run: ApplyRun, failure: ApplyFailure)
    ensures
        apply_transition(run, WorkOutcome::Failed(failure)).1 matches ApplyAction::Fail { discard_staging, .. }
            && discard_staging == (run.done > staging_position(run.replacement)),
        apply_transition(run, WorkOutcome::Failed(failure)).0 == run,
{
}

// ---------------------------------------------------------------------------
// Replacing a release
// ---------------------------------------------------------------------------

/// The cause given when the release to be replaced is no longer the one confirmed.
pub open spec fn context_changed_cause() -> Seq<char> {
    "replacement context changed after confirmation"@
}

/// The outcome of confirming the replacement context: nothing when the release
/// found now is the one that was confirmed; otherwise a preflight failure at the
/// active release that touched nothing.
pub fn replacement_context_check(context_unchanged: bool, active_path: &str) -> (r: Option<ApplyFailure>)
    ensures
        context_unchanged <==> r is None,
        r matches Some(f) ==> {
            &&& f.stage == ApplyStage::Preflight
            &&& f.path matches Some(p) && p@ == active_path@
            &&& f.cause@ == context_changed_cause()
            &&& f.source_untouched && !f.destination_published
            &&& f.cleanup == CleanupOutcome::NotNeeded
            &&& !f.requires_reinspection
        },
{
    if context_unchanged {
        None
    } else {
        Some(ApplyFailure::new(ApplyStage::Preflight, Some(owned(active_path)), owned("replacement context changed after confirmation")))
    }
}

/// How swapping the validated result in place of the active release went.
#[derive(Debug)]
pub enum SwapOutcome {
    /// The new release is active and the old one retained.
    Swapped,
    /// The swap failed and was rolled back; the prepared replacement was then
    /// discarded, with the discard's error if it failed.
    RolledBack { cause: String, discard_failure: Option<String> },
    /// The swap failed and could not be rolled back completely.
    RollbackIncomplete { cause: String },
}

/// What a failed swap leaves behind, as the cleanup of a failure.
pub open spec fn prepared_remains(payload: Seq<char>) -> Seq<char> {
    "prepared replacement remains at "@ + payload + " for manual recovery"@
}

/// The failure a swap ends in, if any: none when it swapped; a publishing failure
/// at the active release otherwise. A swap that could not be rolled back is
/// reported as having changed both the active release and the library, with the
/// prepared replacement left for manual recovery; one that was rolled back
/// touched neither, and its cleanup is the discard's.
pub fn swap_failure(outcome: SwapOutcome, active_path: &str, prepared_payload: &str) -> (r: Option<ApplyFailure>)
    ensures
        (outcome is Swapped) <==> r is None,
        r matches Some(f) ==> f.stage == ApplyStage::Publishing && (f.path matches Some(p) && p@ == active_path@)
            && !f.requires_reinspection,
        outcome matches SwapOutcome::RolledBack { cause, discard_failure } ==> r matches Some(f) && f.cause == cause
            && f.source_untouched && !f.destination_published && match discard_failure {
            Some(d) => f.cleanup == CleanupOutcome::Failed(d),
            None => f.cleanup == CleanupOutcome::Complete,
        },
        outcome matches SwapOutcome::RollbackIncomplete { cause } ==> r matches Some(f) && f.cause == cause
            && !f.source_untouched && f.destination_published && (f.cleanup matches CleanupOutcome::Failed(c)
            && c@ == prepared_remains(prepared_payload@)),
{
    match outcome {
        SwapOutcome::Swapped => None,
        SwapOutcome::RolledBack { cause, discard_failure } => {
            let mut failure = ApplyFailure::new(ApplyStage::Publishing, Some(owned(active_path)), cause);
            failure.cleanup = match discard_failure {
                Some(d) => CleanupOutcome::Failed(d),
                None => CleanupOutcome::Complete,
            };
            Some(failure)
        },
        SwapOutcome::RollbackIncomplete { cause } => {
            let mut failure = ApplyFailure::new(ApplyStage::Publishing, Some(owned(active_path)), cause);
            failure.source_untouched = false;
            failure.destination_published = true;
            let mut text = owned("prepared replacement remains at ");
            append(&mut text, prepared_payload);
            append(&mut text, " for manual recovery");
            failure.cleanup = CleanupOutcome::Failed(text);
            Some(failure)
        },
    }
}

/// A finished replacement: what Apply reports, and what the swap reported.
#[derive(Debug)]
pub struct ReplacementApplyReport<R> {
    pub apply: ApplyReport,
    pub replacement: R,
}

/// The warnings a successful replacement ends with: those gathered before, then
/// one for publication cleanup left incomplete, then one for temporary cleanup
/// that failed.
pub open spec fn replacement_warnings(
    warnings: Seq<Seq<char>>,
    publication_cleanup: Option<Seq<char>>,
    temporary_cleanup: Option<Seq<char>>,
) -> Seq<Seq<char>> {
    let w1 = match publication_cleanup {
        Some(p) => warnings.push("The replacement succeeded, but publication cleanup was incomplete: "@ + p),
        None => warnings,
    };
    match temporary_cleanup {
        Some(t) => w1.push("The replacement succeeded, but temporary cleanup failed: "@ + t),
        None => w1,
    }
}

/// The report of a replacement that swapped: the plan's destination, what was
/// validated, the source no longer as it was (the old release is retained
/// elsewhere), the result copied into place, and the warnings.
pub fn replacement_report<R>(
    destination: String,
    tracks_validated: usize,
    artwork_files: usize,
    warnings: Vec<String>,
    publication_cleanup: Option<String>,
    temporary_cleanup: Option<String>,
    replacement: R,
) -> (r: ReplacementApplyReport<R>)
    ensures
        r.apply.destination == destination,
        r.apply.tracks_validated == tracks_validated,
        r.apply.artwork_validated == (artwork_files > 0),
        !r.apply.source_unchanged,
        r.apply.publication_copied,
        r.apply.warnings.deep_view() == replacement_warnings(warnings.deep_view(), publication_cleanup.deep_view(), temporary_cleanup.deep_view()),
        r.replacement == replacement,
{
    let mut warnings = warnings;
    let ghost w0 = warnings.deep_view();
    match publication_cleanup {
        Some(p) => {
            let mut text = owned("The replacement succeeded, but publication cleanup was incomplete: ");
            append(&mut text, p.as_str());
            warnings.push(text);
        },
        None => {},
    }
    let ghost w1 = warnings.deep_view();
    assert(w1 == replacement_warnings(w0, publication_cleanup.deep_view(), None));
    match temporary_cleanup {
        Some(t) => {
            let mut text = owned("The replacement succeeded, but temporary cleanup failed: ");
            append(&mut text, t.as_str());
            warnings.push(text);
        },
        None => {},
    }
    ReplacementApplyReport {
        apply: ApplyReport {
            destination,
            tracks_validated,
            artwork_validated: artwork_files > 0,
            source_unchanged: false,
            warnings,
            publication_copied: true,
        },
        replacement,
    }
}

} // verus!
