use vstd::prelude::*;

use crate::apply::ApplyFailure;
use crate::layout::{join_path, join_spec};
use crate::planning::{source_root, source_root_spec};
use crate::source::{SourceInspection, SourceSnapshotEntry};
use crate::text::owned;

verus! {

/// How `std::path::Path` orders two paths, component by component: -1 when `a`
/// sorts first, 0 when they are the same path, 1 when `b` sorts first.
pub uninterp spec fn path_rank_of(a: Seq<char>, b: Seq<char>) -> i8;

/// Compares two paths as `std::path::Path` does (`Ord::cmp`), component by
/// component; the contract claims only that the answer is one of three ranks and
/// depends on the two paths alone.
#[verifier::external_body]
fn path_rank(a: &str, b: &str) -> (r: i8)
    ensures
        r == path_rank_of(a@, b@),
        -1 <= r <= 1,
{
    match std::path::Path::new(a).cmp(std::path::Path::new(b)) {
        std::cmp::Ordering::Less => -1,
        std::cmp::Ordering::Equal => 0,
        std::cmp::Ordering::Greater => 1,
    }
}

/// Two snapshot entries record the same object in the same state.
pub open spec fn same_entry(a: SourceSnapshotEntry, b: SourceSnapshotEntry) -> bool {
    &&& path_rank_of(a.relative_path@, b.relative_path@) == 0
    &&& a.kind == b.kind
    &&& a.bytes == b.bytes
    &&& a.modified == b.modified
}

/// Two snapshots record the same objects, in the same order and state.
pub open spec fn same_snapshot(a: Seq<SourceSnapshotEntry>, b: Seq<SourceSnapshotEntry>) -> bool {
    &&& a.len() == b.len()
    &&& forall|i: int| 0 <= i < a.len() ==> #[trigger] same_entry(a[i], b[i])
}

/// The smaller of two paths in path order; the first when they rank equal.
pub open spec fn smaller_path(a: Seq<char>, b: Seq<char>) -> Seq<char> {
    if path_rank_of(a, b) == 1 { b } else { a }
}

/// Walking both snapshots from position `k` in step: the first path at which
/// they differ, if any.
pub open spec fn difference_from(before: Seq<SourceSnapshotEntry>, after: Seq<SourceSnapshotEntry>, k: int) -> Option<Seq<char>>
    decreases before.len() - k,
{
    if k < 0 {
        None
    } else if k >= before.len() {
        if k >= after.len() { None } else { Some(after[k].relative_path@) }
    } else if k >= after.len() {
        Some(before[k].relative_path@)
    } else if path_rank_of(before[k].relative_path@, after[k].relative_path@) == 0 {
        if same_entry(before[k], after[k]) {
            difference_from(before, after, k + 1)
        } else {
            Some(before[k].relative_path@)
        }
    } else {
        Some(smaller_path(before[k].relative_path@, after[k].relative_path@))
    }
}

/// The first path at which two snapshots differ, if any.
pub open spec fn first_difference(before: Seq<SourceSnapshotEntry>, after: Seq<SourceSnapshotEntry>) -> Option<Seq<char>> {
    difference_from(before, after, 0)
}

proof fn lemma_difference_from(before: Seq<SourceSnapshotEntry>, after: Seq<SourceSnapshotEntry>, k: int)
    requires
        0 <= k <= before.len(),
        k <= after.len(),
    ensures
        difference_from(before, after, k) is None <==> (before.len() == after.len()
            && forall|i: int| k <= i < before.len() ==> #[trigger] same_entry(before[i], after[i])),
    decreases before.len() - k,
{
    if k < before.len() && k < after.len() {
        lemma_difference_from(before, after, k + 1);
        // Position `k` together with the positions after it covers everything from `k`.
        assert(same_entry(before[k], after[k]) ==> (forall|i: int| k + 1 <= i < before.len() ==> #[trigger] same_entry(before[i], after[i]))
            ==> (forall|i: int| k <= i < before.len() ==> #[trigger] same_entry(before[i], after[i])));
    }
}

/// A snapshot comparison reports no changed path exactly when the two snapshots
/// record the same objects in the same state.
pub proof fn law_no_difference_means_unchanged(before: Seq<SourceSnapshotEntry>, after: Seq<SourceSnapshotEntry>)
    ensures
        first_difference(before, after) is None <==> same_snapshot(before, after),
{
    lemma_difference_from(before, after, 0);
}

/// Whether two snapshot entries record the same object in the same state.
fn entries_match(a: &SourceSnapshotEntry, b: &SourceSnapshotEntry) -> (r: bool)
    ensures
        r == same_entry(*a, *b),
{
    if path_rank(a.relative_path.as_str(), b.relative_path.as_str()) != 0 {
        return false;
    }
    if a.kind != b.kind || a.bytes != b.bytes {
        return false;
    }
    match (a.modified, b.modified) {
        (Some(x), Some(y)) => x == y,
        (None, None) => true,
        _ => false,
    }
}

/// The first relative path at which the snapshot taken after inspection differs
/// from the one taken before: where both list a path, the entry there; where
/// the paths part, the one that sorts first; where one snapshot runs out, the
/// next entry of the other.
pub fn first_snapshot_difference(before: &Vec<SourceSnapshotEntry>, after: &Vec<SourceSnapshotEntry>) -> (r: Option<String>)
    ensures
        r.deep_view() == first_difference(before@, after@),
{
    let mut k: usize = 0;
    loop
        invariant
            k <= before@.len(),
            k <= after@.len(),
            first_difference(before@, after@) == difference_from(before@, after@, k as int),
        decreases before@.len() - k,
    {
        if k >= before.len() {
            if k >= after.len() {
                return None;
            }
            return Some(after[k].relative_path.clone());
        }
        if k >= after.len() {
            return Some(before[k].relative_path.clone());
        }
        let left = &before[k];
        let right = &after[k];
        let rank = path_rank(left.relative_path.as_str(), right.relative_path.as_str());
        if rank == 0 {
            if !entries_match(left, right) {
                return Some(left.relative_path.clone());
            }
            k = k + 1;
        } else if rank == 1 {
            return Some(right.relative_path.clone());
        } else {
            return Some(left.relative_path.clone());
        }
    }
}

/// Whether two snapshots record the same objects in the same state.
pub fn snapshots_match(before: &Vec<SourceSnapshotEntry>, after: &Vec<SourceSnapshotEntry>) -> (r: bool)
    ensures
        r == same_snapshot(before@, after@),
{
    if before.len() != after.len() {
        return false;
    }
    let mut k: usize = 0;
    while k < before.len()
        invariant
            k <= before@.len(),
            before@.len() == after@.len(),
            forall|i: int| 0 <= i < k ==> #[trigger] same_entry(before@[i], after@[i]),
        decreases before@.len() - k,
    {
        if !entries_match(&before[k], &after[k]) {
            return false;
        }
        k = k + 1;
    }
    true
}

/// Where a source-relative path lies on disk.
pub fn source_path(source: &SourceInspection, relative: &str) -> (r: String)
    ensures
        r@ == join_spec(source_root_spec(*source), relative@),
{
    let root = source_root(source);
    join_path(root.as_str(), relative)
}

/// The cause reported when the source changed after inspection.
pub open spec fn source_changed_cause() -> Seq<char> {
    "the selected source changed after inspection"@
}

/// The source as it is now, `current`, checked against the snapshot taken at
/// inspection: unchanged, or a preflight failure that asks for reinspection and
/// names the first changed path, placed under the source.
pub fn source_recheck(source: &SourceInspection, current: &Vec<SourceSnapshotEntry>) -> (r: Result<(), ApplyFailure>)
    ensures
        r is Ok <==> same_snapshot(source.snapshot@, current@),
        r matches Err(f) ==> {
            &&& f.stage == crate::apply::ApplyStage::Preflight
            &&& f.cause@ == source_changed_cause()
            &&& f.requires_reinspection && f.source_untouched && !f.destination_published
            &&& f.cleanup == crate::apply::CleanupOutcome::NotNeeded
            &&& f.path.deep_view() == match first_difference(source.snapshot@, current@) {
                Some(p) => Some(join_spec(source_root_spec(*source), p)),
                None => None,
            }
        },
{
    if snapshots_match(&source.snapshot, current) {
        return Ok(());
    }
    let changed = match first_snapshot_difference(&source.snapshot, current) {
        Some(path) => Some(source_path(source, path.as_str())),
        None => None,
    };
    proof {
        reveal_strlit("the selected source changed after inspection");
    }
    Err(ApplyFailure::source_changed(changed, owned("the selected source changed after inspection")))
}

} // verus!
