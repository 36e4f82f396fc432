use vstd::prelude::*;

use crate::apply::publication::{publication_error_path, publication_error_text, PublicationError};
use crate::apply::space::{InsufficientSpace, SpaceWarning};
use crate::plan::GroomingPlan;
use crate::source::{SourceInspection, SourceObjectKind, SourceSnapshotEntry};
use crate::text::{append, decimal, owned, push_decimal};

pub mod cleanup;
pub mod preflight;
pub mod copy;
pub mod publication;
pub mod snapshot;
pub mod transaction;
pub mod space;
pub mod validation;

verus! {

/// The stage that Apply is in.
#[derive(Clone, Copy, Debug, PartialEq, Eq)]
pub enum ApplyStage {
    Preflight,
    Copying,
    Grooming,
    Validating,
    Publishing,
}

/// How a stage is named to the user.
pub open spec fn stage_label(stage: ApplyStage) -> Seq<char> {
    match stage {
        ApplyStage::Preflight => "Preflight"@,
        ApplyStage::Copying => "Copying source"@,
        ApplyStage::Grooming => "Grooming staged copy"@,
        ApplyStage::Validating => "Validating"@,
        ApplyStage::Publishing => "Publishing"@,
    }
}

impl ApplyStage {
    /// The name shown for this stage.
    pub fn label(self) -> (r: String)
        ensures
            r@ == stage_label(self),
    {
        match self {
            ApplyStage::Preflight => owned("Preflight"),
            ApplyStage::Copying => owned("Copying source"),
            ApplyStage::Grooming => owned("Grooming staged copy"),
            ApplyStage::Validating => owned("Validating"),
            ApplyStage::Publishing => owned("Publishing"),
        }
    }
}

/// Told of each stage as Apply enters it; an error stops Apply.
pub trait ApplyProgress {
    fn stage(&mut self, stage: ApplyStage) -> Result<(), String>;
}

impl ApplyProgress for () {
    fn stage(&mut self, stage: ApplyStage) -> (r: Result<(), String>)
        ensures
            r is Ok,
    {
        Ok(())
    }
}

/// Where Apply stages its work, and whether publication must copy into the destination.
#[derive(Clone, Debug)]
pub struct ApplyEngine {
    temporary_root: String,
    force_destination_copy: bool,
}

impl ApplyEngine {
    /// An engine that stages under `temporary_root` and publishes by renaming where it can.
    pub fn in_temporary_root(temporary_root: String) -> (r: Self)
        ensures
            r.temporary_root_view() == temporary_root@,
            !r.forces_destination_copy_view(),
    {
        ApplyEngine { temporary_root, force_destination_copy: false }
    }

    pub closed spec fn temporary_root_view(&self) -> Seq<char> {
        self.temporary_root@
    }

    pub closed spec fn forces_destination_copy_view(&self) -> bool {
        self.force_destination_copy
    }

    /// The directory under which staging is created.
    pub fn temporary_root(&self) -> (r: &str)
        ensures
            r@ == self.temporary_root_view(),
    {
        self.temporary_root.as_str()
    }

    /// Whether publication always copies into the destination file system.
    pub fn forces_destination_copy(&self) -> (r: bool)
        ensures
            r == self.forces_destination_copy_view(),
    {
        self.force_destination_copy
    }
}

/// How long a replaced release is kept, and under what label.
#[derive(Clone, Debug, PartialEq, Eq)]
pub struct ReplacementRetention {
    pub display_label: String,
    pub retained_at: u64,
    pub protected_until: u64,
}

/// What became of temporary data after a failure.
#[derive(Clone, Debug, PartialEq, Eq)]
pub enum CleanupOutcome {
    NotNeeded,
    Complete,
    Failed(String),
}

pub open spec fn cleanup_text(c: CleanupOutcome) -> Seq<char> {
    match c {
        CleanupOutcome::NotNeeded => "no temporary data was created"@,
        CleanupOutcome::Complete => "temporary data was cleaned"@,
        CleanupOutcome::Failed(cause) => "temporary cleanup failed: "@ + cause@,
    }
}

impl CleanupOutcome {
    /// The sentence shown for this outcome.
    pub fn describe(&self) -> (r: String)
        ensures
            r@ == cleanup_text(*self),
    {
        match self {
            CleanupOutcome::NotNeeded => owned("no temporary data was created"),
            CleanupOutcome::Complete => owned("temporary data was cleaned"),
            CleanupOutcome::Failed(cause) => {
                let mut out = owned("temporary cleanup failed: ");
                append(&mut out, cause.as_str());
                out
            },
        }
    }
}

/// The cleanup outcome once temporary staging is removed, given the earlier
/// outcome and the staging removal's error, if any.
pub open spec fn merged_cleanup(existing: CleanupOutcome, temporary_failure: Option<Seq<char>>) -> (bool, Seq<char>) {
    match (existing, temporary_failure) {
        (CleanupOutcome::Failed(e), Some(t)) => (true, e@ + "; temporary staging cleanup also failed: "@ + t),
        (CleanupOutcome::Failed(e), None) => (true, e@),
        (_, Some(t)) => (true, "temporary staging cleanup failed: "@ + t),
        (_, None) => (false, Seq::empty()),
    }
}

/// Combines an earlier cleanup outcome with the result of removing temporary staging.
pub fn merge_cleanup(existing: CleanupOutcome, temporary_failure: Option<String>) -> (r: CleanupOutcome)
    ensures
        merged_cleanup(existing, temporary_failure.deep_view()).0 ==> (r matches CleanupOutcome::Failed(c)
            && c@ == merged_cleanup(existing, temporary_failure.deep_view()).1),
        !merged_cleanup(existing, temporary_failure.deep_view()).0 ==> r == CleanupOutcome::Complete,
{
    match (existing, temporary_failure) {
        (CleanupOutcome::Failed(existing), Some(temporary)) => {
            let mut out = existing;
            append(&mut out, "; temporary staging cleanup also failed: ");
            append(&mut out, temporary.as_str());
            CleanupOutcome::Failed(out)
        },
        (CleanupOutcome::Failed(existing), None) => CleanupOutcome::Failed(existing),
        (_, Some(temporary)) => {
            let mut out = owned("temporary staging cleanup failed: ");
            append(&mut out, temporary.as_str());
            CleanupOutcome::Failed(out)
        },
        (_, None) => CleanupOutcome::Complete,
    }
}

/// Why Apply stopped, where, and what state it left behind.
#[derive(Debug)]
pub struct ApplyFailure {
    pub stage: ApplyStage,
    pub path: Option<String>,
    pub cause: String,
    pub source_untouched: bool,
    pub destination_published: bool,
    pub cleanup: CleanupOutcome,
    pub requires_reinspection: bool,
}

/// The message for a failure: stage, place, cause and cleanup.
pub open spec fn failure_text(f: ApplyFailure) -> Seq<char> {
    stage_label(f.stage) + " failed"@ + (match f.path {
        Some(p) => " at "@ + p@,
        None => Seq::empty(),
    }) + ": "@ + f.cause@ + "; "@ + cleanup_text(f.cleanup)
}

impl ApplyFailure {
    /// A failure at `stage` that touched neither source nor destination.
    pub fn new(stage: ApplyStage, path: Option<String>, cause: String) -> (r: Self)
        ensures
            r.stage == stage,
            r.path == path,
            r.cause == cause,
            r.source_untouched,
            !r.destination_published,
            r.cleanup == CleanupOutcome::NotNeeded,
            !r.requires_reinspection,
    {
        ApplyFailure {
            stage,
            path,
            cause,
            source_untouched: true,
            destination_published: false,
            cleanup: CleanupOutcome::NotNeeded,
            requires_reinspection: false,
        }
    }

    /// The source changed since inspection: a preflight failure that asks for reinspection.
    pub fn source_changed(path: Option<String>, cause: String) -> (r: Self)
        ensures
            r.stage == ApplyStage::Preflight,
            r.path == path,
            r.cause == cause,
            r.source_untouched,
            !r.destination_published,
            r.cleanup == CleanupOutcome::NotNeeded,
            r.requires_reinspection,
    {
        let mut failure = ApplyFailure::new(ApplyStage::Preflight, path, cause);
        failure.requires_reinspection = true;
        failure
    }

    /// The message shown for this failure.
    pub fn describe(&self) -> (r: String)
        ensures
            r@ == failure_text(*self),
    {
        let mut out = self.stage.label();
        append(&mut out, " failed");
        match &self.path {
            Some(p) => {
                append(&mut out, " at ");
                append(&mut out, p.as_str());
            },
            None => {},
        }
        append(&mut out, ": ");
        append(&mut out, self.cause.as_str());
        append(&mut out, "; ");
        let cleanup = self.cleanup.describe();
        append(&mut out, cleanup.as_str());
        out
    }
}

/// `a + b`, saturating at `u64::MAX`.
pub open spec fn saturating_sum(a: int, b: int) -> int {
    if a + b > u64::MAX { u64::MAX as int } else { a + b }
}

/// The bytes of the regular files among the first `n` snapshot entries, saturating.
pub open spec fn file_bytes(entries: Seq<SourceSnapshotEntry>, n: nat) -> int
    decreases n,
{
    if n == 0 {
        0
    } else {
        let before = file_bytes(entries, (n - 1) as nat);
        if entries[n - 1].kind == SourceObjectKind::File { saturating_sum(before, entries[n - 1].bytes as int) } else { before }
    }
}

/// The bytes Apply writes: the source's regular files and any archive artwork, saturating.
pub open spec fn apply_content_bytes(source: SourceInspection, plan: GroomingPlan) -> int {
    saturating_sum(
        file_bytes(source.snapshot@, source.snapshot@.len()),
        match plan.archive_artwork_bytes {
            Some(bytes) => bytes@.len() as int,
            None => 0,
        },
    )
}

proof fn lemma_file_bytes_range(entries: Seq<SourceSnapshotEntry>, n: nat)
    ensures
        0 <= file_bytes(entries, n) <= u64::MAX,
    decreases n,
{
    if n > 0 {
        lemma_file_bytes_range(entries, (n - 1) as nat);
    }
}

/// How many bytes Apply will write for `plan`.
pub fn content_bytes(source: &SourceInspection, plan: &GroomingPlan) -> (r: u64)
    ensures
        r == apply_content_bytes(*source, *plan),
{
    let mut total: u64 = 0;
    let mut i: usize = 0;
    while i < source.snapshot.len()
        invariant
            i <= source.snapshot@.len(),
            total == file_bytes(source.snapshot@, i as nat),
        decreases source.snapshot@.len() - i,
    {
        let entry = &source.snapshot[i];
        if entry.kind == SourceObjectKind::File {
            total = total.saturating_add(entry.bytes);
        }
        i = i + 1;
    }
    let archive: u64 = match &plan.archive_artwork_bytes {
        Some(bytes) => bytes.len() as u64,
        None => 0,
    };
    total.saturating_add(archive)
}

/// The failure reported when a file system lacks the space Apply needs.
pub fn space_failure(space: InsufficientSpace) -> (r: ApplyFailure)
    ensures
        r.stage == ApplyStage::Preflight,
        r.path matches Some(p) && p@ == space.path@,
        r.cause@ == "insufficient free space: "@ + decimal(space.required as nat) + " bytes required including margin, "@
            + decimal(space.available as nat) + " bytes available"@,
        r.source_untouched && !r.destination_published && !r.requires_reinspection,
        r.cleanup == CleanupOutcome::NotNeeded,
{
    let mut cause = owned("insufficient free space: ");
    push_decimal(&mut cause, space.required);
    append(&mut cause, " bytes required including margin, ");
    push_decimal(&mut cause, space.available);
    append(&mut cause, " bytes available");
    ApplyFailure::new(ApplyStage::Preflight, Some(space.path), cause)
}

/// The warning shown when free space could not be measured.
pub fn space_warning_text(warning: &SpaceWarning) -> (r: String)
    ensures
        r@ == "Could not measure free space at "@ + warning.path@ + " ("@ + warning.cause@
            + "); writes will still fail cleanly if capacity runs out"@,
{
    let mut out = owned("Could not measure free space at ");
    append(&mut out, warning.path.as_str());
    append(&mut out, " (");
    append(&mut out, warning.cause.as_str());
    append(&mut out, "); writes will still fail cleanly if capacity runs out");
    out
}

/// The failure reported for a publication error: a failed destination-side
/// validation stops Apply while validating, anything else while publishing; a
/// publication partial left behind is recorded as failed cleanup.
pub fn publication_failure(error: PublicationError) -> (r: ApplyFailure)
    ensures
        r.stage == (if error is Validation { ApplyStage::Validating } else { ApplyStage::Publishing }),
        r.path matches Some(p) && p@ == publication_error_path(error),
        r.cause@ == publication_error_text(error),
        r.source_untouched && !r.destination_published && !r.requires_reinspection,
        match error {
            PublicationError::Cleanup { path, message, .. } => r.cleanup matches CleanupOutcome::Failed(c)
                && c@ == "publication partial remains at "@ + path@ + ": "@ + message@,
            _ => r.cleanup == CleanupOutcome::NotNeeded,
        },
{
    let stage = match &error {
        PublicationError::Validation { .. } => ApplyStage::Validating,
        _ => ApplyStage::Publishing,
    };
    let cleanup_failure = error.cleanup_failure();
    let path = owned(error.path());
    let cause = error.describe();
    let mut failure = ApplyFailure::new(stage, Some(path), cause);
    match cleanup_failure {
        Some(cause) => {
            failure.cleanup = CleanupOutcome::Failed(cause);
        },
        None => {},
    }
    failure
}

} // verus!
