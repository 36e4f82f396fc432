use vstd::prelude::*;

use crate::domain::{credits_equal, kinds_equal, same_position, CandidateRelease, CandidateReleaseV};
use crate::matching::opt_text_eq;
use crate::text::text_eq;

pub mod cache;
pub mod cache_status;
pub mod ownership;
pub mod cover_art_archive;
pub mod http;
pub mod lookup;
pub mod musicbrainz;
pub mod musicbrainz_http;
pub mod pruning;
pub mod artwork_lookup;
pub mod acoustid;
pub mod acoustid_lookup;
pub mod search;

verus! {

/// How many days cached metadata stays fresh.
pub const METADATA_FRESH_DAYS: u64 = 30;

/// The cache size limit used when the configuration sets none.
pub const DEFAULT_CACHE_MAX_BYTES: u64 = 256 * 1024 * 1024;

/// Whether two candidates would groom the source into the same files and tags:
/// same title, album credit, year, kind, release group, and track by track the same
/// title, credit, position and recording.
pub open spec fn groomed_equivalent(a: CandidateReleaseV, b: CandidateReleaseV) -> bool {
    &&& a.title == b.title
    &&& a.album_artist == b.album_artist
    &&& a.original_year == b.original_year
    &&& a.kind == b.kind
    &&& a.tracks.len() == b.tracks.len()
    &&& forall|i: int| 0 <= i < a.tracks.len() ==> {
        let x = #[trigger] a.tracks[i];
        let y = b.tracks[i];
        &&& x.title == y.title
        &&& x.artist_credit == y.artist_credit
        &&& x.position == y.position
        &&& x.recording_id == y.recording_id
    }
    &&& a.release_group_id == b.release_group_id
}

/// Whether some member of `kept` is equivalent to `c`.
pub open spec fn has_equivalent(kept: Seq<CandidateReleaseV>, c: CandidateReleaseV) -> bool {
    exists|k: int| 0 <= k < kept.len() && groomed_equivalent(#[trigger] kept[k], c)
}

/// The candidates in order, each dropped when an earlier kept one is equivalent to it.
pub open spec fn distinct_results(cs: Seq<CandidateReleaseV>) -> Seq<CandidateReleaseV>
    decreases cs.len(),
{
    if cs.len() == 0 {
        Seq::empty()
    } else {
        let kept = distinct_results(cs.drop_last());
        if has_equivalent(kept, cs.last()) {
            kept
        } else {
            kept.push(cs.last())
        }
    }
}

/// Whether two candidates would groom the source identically.
pub fn equivalent_groomed_result(left: &CandidateRelease, right: &CandidateRelease) -> (r: bool)
    ensures
        r == groomed_equivalent(left.deep_view(), right.deep_view()),
{
    if !(text_eq(left.title.as_str(), right.title.as_str())
        && credits_equal(&left.album_artist, &right.album_artist)
        && left.original_year == right.original_year
        && kinds_equal(&left.kind, &right.kind)
        && left.tracks.len() == right.tracks.len()) {
        return false;
    }
    let ghost a = left.deep_view();
    let ghost b = right.deep_view();
    let mut i: usize = 0;
    while i < left.tracks.len()
        invariant
            i <= left.tracks@.len(),
            left.tracks@.len() == right.tracks@.len(),
            a == left.deep_view(),
            b == right.deep_view(),
            forall|k: int| 0 <= k < i ==> {
                let x = #[trigger] a.tracks[k];
                let y = b.tracks[k];
                &&& x.title == y.title
                &&& x.artist_credit == y.artist_credit
                &&& x.position == y.position
                &&& x.recording_id == y.recording_id
            },
        decreases left.tracks@.len() - i,
    {
        let x = &left.tracks[i];
        let y = &right.tracks[i];
        if !(text_eq(x.title.as_str(), y.title.as_str())
            && credits_equal(&x.artist_credit, &y.artist_credit)
            && same_position(x.position, y.position)
            && opt_text_eq(&x.recording_id, &y.recording_id)) {
            assert(!groomed_equivalent(a, b)) by {
                assert(a.tracks[i as int] == x.deep_view());
            }
            return false;
        }
        i = i + 1;
    }
    opt_text_eq(&left.release_group_id, &right.release_group_id)
}

/// Whether some candidate in `kept` is equivalent to `candidate`.
fn any_equivalent(kept: &Vec<CandidateRelease>, candidate: &CandidateRelease) -> (r: bool)
    ensures
        r == has_equivalent(kept.deep_view(), candidate.deep_view()),
{
    let mut i: usize = 0;
    while i < kept.len()
        invariant
            i <= kept@.len(),
            forall|k: int| 0 <= k < i ==> !groomed_equivalent(#[trigger] kept.deep_view()[k], candidate.deep_view()),
        decreases kept@.len() - i,
    {
        if equivalent_groomed_result(&kept[i], candidate) {
            assert(groomed_equivalent(kept.deep_view()[i as int], candidate.deep_view()));
            return true;
        }
        i = i + 1;
    }
    false
}

/// The candidates with every later edition that would groom identically to an
/// earlier one removed; the first of each group stays, in order.
pub fn collapse_equivalent(candidates: Vec<CandidateRelease>) -> (r: Vec<CandidateRelease>)
    ensures
        r.deep_view() == distinct_results(candidates.deep_view()),
{
    let ghost all = candidates.deep_view();
    let mut distinct: Vec<CandidateRelease> = Vec::new();
    let mut rest = candidates;
    let mut taken: usize = 0;
    let total: usize = rest.len();
    while rest.len() > 0
        invariant
            taken + rest@.len() == all.len(),
            total == all.len(),
            forall|k: int| 0 <= k < rest@.len() ==> (#[trigger] rest@[k]).deep_view() == all[taken + k],
            distinct.deep_view() == distinct_results(all.take(taken as int)),
        decreases rest@.len(),
    {
        let ghost before = rest@;
        let candidate = rest.remove(0);
        assert forall|k: int| 0 <= k < rest@.len() implies (#[trigger] rest@[k]).deep_view() == all[taken + 1 + k] by {
            assert(rest@[k] == before[k + 1]);
        }
        assert(all.take(taken + 1).drop_last() =~= all.take(taken as int));
        assert(all.take(taken + 1).last() == candidate.deep_view());
        if !any_equivalent(&distinct, &candidate) {
            let ghost kept = distinct.deep_view();
            distinct.push(candidate);
            assert(distinct.deep_view() =~= kept.push(all[taken as int]));
        }
        taken = taken + 1;
    }
    assert(all.take(all.len() as int) =~= all);
    distinct
}

proof fn lemma_equivalent_reflexive(a: CandidateReleaseV)
    ensures
        groomed_equivalent(a, a),
{
}

/// Whether no two of `s` would groom identically.
pub open spec fn pairwise_distinct(s: Seq<CandidateReleaseV>) -> bool {
    forall|i: int, j: int| 0 <= i < j < s.len() ==> !groomed_equivalent(#[trigger] s[i], #[trigger] s[j])
}

/// Law: after collapsing, no two remaining candidates would groom identically.
pub proof fn law_collapse_leaves_no_equivalent_pair(cs: Seq<CandidateReleaseV>)
    ensures
        pairwise_distinct(distinct_results(cs)),
    decreases cs.len(),
{
    if cs.len() > 0 {
        law_collapse_leaves_no_equivalent_pair(cs.drop_last());
        let d = distinct_results(cs.drop_last());
        if !has_equivalent(d, cs.last()) {
            let e = d.push(cs.last());
            assert forall|i: int, j: int| 0 <= i < j < e.len() implies !groomed_equivalent(#[trigger] e[i], #[trigger] e[j]) by {
                if j == e.len() - 1 {
                    assert(e[i] == d[i]);
                    assert(!groomed_equivalent(d[i], cs.last()));
                } else {
                    assert(e[i] == d[i] && e[j] == d[j]);
                }
            }
        }
    }
}

/// Law: every candidate is represented after collapsing by one that would groom
/// identically to it.
pub proof fn law_collapse_keeps_a_representative(cs: Seq<CandidateReleaseV>, i: int)
    requires
        0 <= i < cs.len(),
    ensures
        has_equivalent(distinct_results(cs), cs[i]),
    decreases cs.len(),
{
    let d = distinct_results(cs.drop_last());
    if i < cs.len() - 1 {
        law_collapse_keeps_a_representative(cs.drop_last(), i);
        assert(cs.drop_last()[i] == cs[i]);
        let k = choose|k: int| 0 <= k < d.len() && groomed_equivalent(#[trigger] d[k], cs[i]);
        if !has_equivalent(d, cs.last()) {
            assert(d.push(cs.last())[k] == d[k]);
        }
    } else {
        if !has_equivalent(d, cs.last()) {
            lemma_equivalent_reflexive(cs.last());
            assert(d.push(cs.last())[d.len() as int] == cs.last());
        }
    }
}

/// Law: collapsing an already collapsed list changes nothing.
pub proof fn law_collapse_is_idempotent(cs: Seq<CandidateReleaseV>)
    ensures
        distinct_results(distinct_results(cs)) == distinct_results(cs),
{
    law_collapse_leaves_no_equivalent_pair(cs);
    lemma_distinct_fixed(distinct_results(cs));
}

proof fn lemma_distinct_fixed(s: Seq<CandidateReleaseV>)
    requires
        pairwise_distinct(s),
    ensures
        distinct_results(s) == s,
    decreases s.len(),
{
    if s.len() > 0 {
        let t = s.drop_last();
        assert forall|i: int, j: int| 0 <= i < j < t.len() implies !groomed_equivalent(#[trigger] t[i], #[trigger] t[j]) by {
            assert(t[i] == s[i] && t[j] == s[j]);
        }
        lemma_distinct_fixed(t);
        assert(!has_equivalent(t, s.last())) by {
            if has_equivalent(t, s.last()) {
                let k = choose|k: int| 0 <= k < t.len() && groomed_equivalent(#[trigger] t[k], s.last());
                assert(t[k] == s[k]);
                assert(!groomed_equivalent(s[k], s[s.len() - 1]));
            }
        }
        assert(t.push(s.last()) =~= s);
    }
}

} // verus!
