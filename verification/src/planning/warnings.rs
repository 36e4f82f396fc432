use vstd::prelude::*;

use crate::layout::{relative_spec, relative_to};
use crate::plan::{file_name, path_file_name, AncillaryPlan, GroomingPlan, PlanWarning, TrackPlan};
use crate::source::{notice_summary, InspectionNotice, NoticeKind, SourceInspection};
use crate::text::{append, ascii_lower, chars_of, owned, text_eq, text_eq_ignore_ascii_case, eq_ignore_ascii_case};

verus! {

/// Every track of the plan carries planned tags.
pub open spec fn all_tracks_tagged(tracks: Seq<TrackPlan>) -> bool {
    forall|i: int| 0 <= i < tracks.len() ==> (#[trigger] tracks[i]).planned_tags is Some
}

/// The warning `w` repeats a missing-metadata notice that the plan's tags resolve.
pub open spec fn resolved_warning(notices: Seq<InspectionNotice>, tracks: Seq<TrackPlan>, w: Seq<char>) -> bool {
    all_tracks_tagged(tracks) && exists|k: int|
        0 <= k < notices.len() && (#[trigger] notices[k]).kind == NoticeKind::MissingMetadata && notice_summary(
            notices[k].path.deep_view(),
            notices[k].message@,
        ) == w
}

/// The first `n` match warnings without resolved ones and without repeats, in order.
pub open spec fn kept_warnings(ws: Seq<Seq<char>>, notices: Seq<InspectionNotice>, tracks: Seq<TrackPlan>, n: nat) -> Seq<Seq<char>>
    decreases n,
{
    if n == 0 {
        Seq::empty()
    } else {
        let before = kept_warnings(ws, notices, tracks, (n - 1) as nat);
        let w = ws[n - 1];
        if !resolved_warning(notices, tracks, w) && !before.contains(w) { before.push(w) } else { before }
    }
}

/// The index of the last `.` among the first `n` characters of `name`.
pub open spec fn last_dot(name: Seq<char>, n: nat) -> Option<nat>
    decreases n,
{
    if n == 0 { None } else if name[n - 1] == '.' { Some((n - 1) as nat) } else { last_dot(name, (n - 1) as nat) }
}

/// `Path::extension`: what follows the last `.` of the file name, unless the name
/// has no `.` other than a leading one.
pub open spec fn path_extension(p: Seq<char>) -> Option<Seq<char>> {
    match file_name(p) {
        None => None,
        Some(name) => match last_dot(name, name.len()) {
            None => None,
            Some(i) => if i == 0 { None } else { Some(name.skip(i as int + 1)) },
        },
    }
}

/// A cue sheet or playlist, by extension (ignoring ASCII case).
pub open spec fn reference_file(p: Seq<char>) -> bool {
    match path_extension(p) {
        Some(e) => eq_ignore_ascii_case(e, "cue"@) || eq_ignore_ascii_case(e, "m3u"@) || eq_ignore_ascii_case(e, "m3u8"@),
        None => false,
    }
}

/// Some planned audio file lands elsewhere than its source-relative path.
pub open spec fn audio_paths_change(plan: GroomingPlan) -> bool {
    exists|k: int| 0 <= k < plan.tracks@.len() && relative_spec(
        (#[trigger] plan.tracks@[k]).destination@,
        plan.destination@,
    ) != Some(plan.tracks@[k].source_relative@)
}

/// Inspection already warned that `path` may hold stale references.
pub open spec fn already_warned(notices: Seq<InspectionNotice>, path: Seq<char>) -> bool {
    exists|k: int| 0 <= k < notices.len() && (#[trigger] notices[k]).kind == NoticeKind::StaleReference
        && notices[k].path.deep_view() == Some(path)
}

/// The stale-reference warnings for the first `n` preserved files.
pub open spec fn stale_warnings(files: Seq<AncillaryPlan>, notices: Seq<InspectionNotice>, n: nat) -> Seq<Seq<char>>
    decreases n,
{
    if n == 0 {
        Seq::empty()
    } else {
        let before = stale_warnings(files, notices, (n - 1) as nat);
        let p = files[n - 1].source_relative@;
        if reference_file(p) && !already_warned(notices, p) {
            before.push(p + ": planned audio renames may leave preserved references stale"@)
        } else {
            before
        }
    }
}

/// The warnings shown with a plan: the match warnings that still apply, once each,
/// then, when audio files move, one per preserved cue sheet or playlist that
/// inspection did not already flag.
pub open spec fn plan_warnings(source: SourceInspection, ws: Seq<Seq<char>>, plan: GroomingPlan) -> Seq<Seq<char>> {
    kept_warnings(ws, source.notices@, plan.tracks@, ws.len()) + if audio_paths_change(plan) {
        stale_warnings(plan.ancillary@, source.notices@, plan.ancillary@.len())
    } else {
        Seq::empty()
    }
}

/// Each warning shows its summary as its detail too.
pub open spec fn warnings_with_summaries(r: Seq<PlanWarning>, summaries: Seq<Seq<char>>) -> bool {
    &&& r.len() == summaries.len()
    &&& forall|k: int| 0 <= k < r.len() ==> (#[trigger] r[k]).summary@ == summaries[k] && r[k].detail@ == summaries[k]
}

fn tracks_all_tagged(tracks: &Vec<TrackPlan>) -> (r: bool)
    ensures
        r == all_tracks_tagged(tracks@),
{
    let mut i: usize = 0;
    while i < tracks.len()
        invariant
            i <= tracks@.len(),
            forall|k: int| 0 <= k < i ==> (#[trigger] tracks@[k]).planned_tags is Some,
        decreases tracks@.len() - i,
    {
        if tracks[i].planned_tags.is_none() {
            return false;
        }
        i = i + 1;
    }
    true
}

fn is_resolved(notices: &Vec<InspectionNotice>, all_tagged: bool, w: &str) -> (r: bool)
    ensures
        r == (all_tagged && exists|k: int|
            0 <= k < notices@.len() && (#[trigger] notices@[k]).kind == NoticeKind::MissingMetadata && notice_summary(
                notices@[k].path.deep_view(),
                notices@[k].message@,
            ) == w@),
{
    if !all_tagged {
        return false;
    }
    let mut k: usize = 0;
    while k < notices.len()
        invariant
            k <= notices@.len(),
            all_tagged,
            forall|j: int| 0 <= j < k ==> !((#[trigger] notices@[j]).kind == NoticeKind::MissingMetadata && notice_summary(
                notices@[j].path.deep_view(),
                notices@[j].message@,
            ) == w@),
        decreases notices@.len() - k,
    {
        if notices[k].kind == NoticeKind::MissingMetadata {
            let summary = notices[k].summary();
            if text_eq(summary.as_str(), w) {
                assert(notices@[k as int].kind == NoticeKind::MissingMetadata && notice_summary(
                    notices@[k as int].path.deep_view(),
                    notices@[k as int].message@,
                ) == w@);
                return true;
            }
        }
        k = k + 1;
    }
    false
}

fn contains_text(list: &Vec<String>, w: &str) -> (r: bool)
    ensures
        r == list.deep_view().contains(w@),
{
    let mut k: usize = 0;
    while k < list.len()
        invariant
            k <= list@.len(),
            forall|j: int| 0 <= j < k ==> list@[j]@ != w@,
        decreases list@.len() - k,
    {
        if text_eq(list[k].as_str(), w) {
            assert(list.deep_view()[k as int] == w@);
            return true;
        }
        k = k + 1;
    }
    assert(!list.deep_view().contains(w@)) by {
        if list.deep_view().contains(w@) {
            let j = choose|j: int| 0 <= j < list.deep_view().len() && list.deep_view()[j] == w@;
            assert(list@[j]@ == w@);
        }
    }
    false
}

/// The extension of a path, as `Path::extension` reads it.
pub fn extension_of(path: &str) -> (r: Option<String>)
    ensures
        r.deep_view() == path_extension(path@),
{
    let name = match path_file_name(path) {
        Some(n) => n,
        None => return None,
    };
    let chars = chars_of(name.as_str());
    let n = chars.len();
    let mut i: usize = n;
    while i > 0 && chars[i - 1] != '.'
        invariant
            i <= n,
            n == chars@.len(),
            chars@ == name@,
            last_dot(name@, n as nat) == last_dot(name@, i as nat),
        decreases i,
    {
        i = i - 1;
    }
    if i <= 1 {
        return None;
    }
    let mut out: Vec<char> = Vec::new();
    let mut k: usize = i;
    while k < n
        invariant
            i <= k <= n,
            n == chars@.len(),
            chars@ == name@,
            out@ == name@.subrange(i as int, k as int),
        decreases n - k,
    {
        out.push(chars[k]);
        k = k + 1;
        assert(out@ =~= name@.subrange(i as int, k as int));
    }
    assert(out@ =~= name@.skip(i as int));
    Some(crate::text::from_chars(&out))
}

fn is_reference_file(path: &str) -> (r: bool)
    ensures
        r == reference_file(path@),
{
    match extension_of(path) {
        Some(e) => text_eq_ignore_ascii_case(e.as_str(), "cue") || text_eq_ignore_ascii_case(e.as_str(), "m3u")
            || text_eq_ignore_ascii_case(e.as_str(), "m3u8"),
        None => false,
    }
}

fn moves_audio(plan: &GroomingPlan) -> (r: bool)
    ensures
        r == audio_paths_change(*plan),
{
    let mut k: usize = 0;
    while k < plan.tracks.len()
        invariant
            k <= plan.tracks@.len(),
            forall|j: int| 0 <= j < k ==> relative_spec((#[trigger] plan.tracks@[j]).destination@, plan.destination@) == Some(
                plan.tracks@[j].source_relative@,
            ),
        decreases plan.tracks@.len() - k,
    {
        let rel = relative_to(plan.tracks[k].destination.as_str(), plan.destination.as_str());
        let same = match &rel {
            Some(r) => text_eq(r.as_str(), plan.tracks[k].source_relative.as_str()),
            None => false,
        };
        if !same {
            return true;
        }
        k = k + 1;
    }
    false
}

fn warned_before(notices: &Vec<InspectionNotice>, path: &str) -> (r: bool)
    ensures
        r == already_warned(notices@, path@),
{
    let mut k: usize = 0;
    while k < notices.len()
        invariant
            k <= notices@.len(),
            forall|j: int| 0 <= j < k ==> !((#[trigger] notices@[j]).kind == NoticeKind::StaleReference
                && notices@[j].path.deep_view() == Some(path@)),
        decreases notices@.len() - k,
    {
        if notices[k].kind == NoticeKind::StaleReference {
            match &notices[k].path {
                Some(p) => if text_eq(p.as_str(), path) {
                    return true;
                },
                None => {},
            }
        }
        k = k + 1;
    }
    false
}

/// The warnings shown with a plan.
pub fn for_plan(source: &SourceInspection, warnings: &Vec<String>, plan: &GroomingPlan) -> (r: Vec<PlanWarning>)
    ensures
        warnings_with_summaries(r@, plan_warnings(*source, warnings.deep_view(), *plan)),
{
    let ghost ws = warnings.deep_view();
    let all_tagged = tracks_all_tagged(&plan.tracks);
    let mut kept: Vec<String> = Vec::new();
    let mut i: usize = 0;
    while i < warnings.len()
        invariant
            i <= ws.len(),
            ws == warnings.deep_view(),
            all_tagged == all_tracks_tagged(plan.tracks@),
            kept.deep_view() == kept_warnings(ws, source.notices@, plan.tracks@, i as nat),
        decreases ws.len() - i,
    {
        let w = warnings[i].as_str();
        assert(ws[i as int] == w@);
        if !is_resolved(&source.notices, all_tagged, w) && !contains_text(&kept, w) {
            let ghost before = kept.deep_view();
            kept.push(owned(w));
            assert(kept.deep_view() =~= before.push(w@));
        }
        i = i + 1;
    }
    let mut summaries = kept;
    let ghost kept_view = summaries.deep_view();
    if moves_audio(plan) {
        let mut k: usize = 0;
        while k < plan.ancillary.len()
            invariant
                k <= plan.ancillary@.len(),
                summaries.deep_view() == kept_view + stale_warnings(plan.ancillary@, source.notices@, k as nat),
            decreases plan.ancillary@.len() - k,
        {
            let path = plan.ancillary[k].source_relative.as_str();
            if is_reference_file(path) && !warned_before(&source.notices, path) {
                let mut summary = owned(path);
                append(&mut summary, ": planned audio renames may leave preserved references stale");
                let ghost before = summaries.deep_view();
                let ghost s = summary@;
                summaries.push(summary);
                assert(summaries.deep_view() =~= before.push(s));
            }
            k = k + 1;
        }
    } else {
        assert(summaries.deep_view() =~= kept_view + Seq::<Seq<char>>::empty());
    }
    let ghost all = summaries.deep_view();
    let mut out: Vec<PlanWarning> = Vec::new();
    let mut j: usize = 0;
    while j < summaries.len()
        invariant
            j <= summaries@.len(),
            all == summaries.deep_view(),
            out@.len() == j,
            forall|m: int| 0 <= m < j ==> (#[trigger] out@[m]).summary@ == all[m] && out@[m].detail@ == all[m],
        decreases summaries@.len() - j,
    {
        out.push(PlanWarning { summary: summaries[j].clone(), detail: summaries[j].clone() });
        j = j + 1;
    }
    out
}

} // verus!
