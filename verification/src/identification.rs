use vstd::prelude::*;

use crate::domain::{InspectedTrack, InspectedTrackV, Inspection};
use crate::matching::{MatchDecision, RankedCandidate};
use crate::source::SourceInspection;
use crate::text::{all_whitespace, is_blank, text_eq};

verus! {

/// At most this many recordings are offered from one fingerprint.
pub const MAX_RECORDING_CANDIDATES: usize = 5;

/// A present value whose trimmed text is not empty.
pub open spec fn has_text(value: Option<Seq<char>>) -> bool {
    value matches Some(v) && !all_whitespace(v)
}

/// The track's own tags already name a release: album, album artist and position.
pub open spec fn credible_release_tags(track: InspectedTrackV) -> bool {
    has_text(track.album) && has_text(track.album_artist) && track.position is Some
}

/// The recordings of the candidate's tracks reached by its first `m` mappings, in order.
pub open spec fn candidate_recordings(c: RankedCandidate, m: nat) -> Seq<Seq<char>>
    decreases m,
{
    if m == 0 {
        Seq::empty()
    } else {
        let before = candidate_recordings(c, (m - 1) as nat);
        let index = c.mappings@[m - 1].candidate_index;
        if index < c.candidate.tracks@.len() && c.candidate.tracks@[index as int].recording_id is Some {
            before.push(c.candidate.tracks@[index as int].recording_id.deep_view()->0)
        } else {
            before
        }
    }
}

/// The recordings reached by the mappings of the first `n` candidates, in order.
pub open spec fn mapped_recordings(cs: Seq<RankedCandidate>, n: nat) -> Seq<Seq<char>>
    decreases n,
{
    if n == 0 {
        Seq::empty()
    } else {
        mapped_recordings(cs, (n - 1) as nat) + candidate_recordings(cs[n - 1], cs[n - 1].mappings@.len())
    }
}

/// Whether the candidates' mapped tracks name exactly one distinct recording.
pub open spec fn one_mapped_recording(cs: Seq<RankedCandidate>) -> bool {
    let ids = mapped_recordings(cs, cs.len());
    ids.len() > 0 && forall|i: int| 0 <= i < ids.len() ==> #[trigger] ids[i] == ids[0]
}

/// Whether a selected source should be fingerprinted before matching settles: a lone
/// audio file with no identifiers and no credible release tags, for which matching
/// found no unambiguous recording.
pub open spec fn fingerprint_needed(source_len: nat, tracks: Seq<InspectedTrackV>, decision: MatchDecision) -> bool {
    &&& source_len == 1
    &&& tracks.len() > 0
    &&& tracks[0].recording_id is None
    &&& tracks[0].release_group_id is None
    &&& !credible_release_tags(tracks[0])
    &&& match decision {
        MatchDecision::Selected { .. } => false,
        MatchDecision::NeedsChoice(candidates) => !one_mapped_recording(candidates@),
        MatchDecision::NoUsableMatch(_) => true,
    }
}

fn has_text_of(value: &Option<String>) -> (r: bool)
    ensures
        r == has_text(value.deep_view()),
{
    match value {
        Some(v) => !is_blank(v.as_str()),
        None => false,
    }
}

fn credible_release_tags_of(track: &InspectedTrack) -> (r: bool)
    ensures
        r == credible_release_tags(track.deep_view()),
{
    has_text_of(&track.album) && has_text_of(&track.album_artist) && track.position.is_some()
}

/// The recordings reached by the mappings of all candidates, in order.
fn mapped_recording_list(candidates: &Vec<RankedCandidate>) -> (r: Vec<String>)
    ensures
        r.deep_view() == mapped_recordings(candidates@, candidates@.len()),
{
    let mut out: Vec<String> = Vec::new();
    let mut c: usize = 0;
    while c < candidates.len()
        invariant
            c <= candidates@.len(),
            out.deep_view() == mapped_recordings(candidates@, c as nat),
        decreases candidates@.len() - c,
    {
        let candidate = &candidates[c];
        let ghost base = out.deep_view();
        let mut m: usize = 0;
        while m < candidate.mappings.len()
            invariant
                c < candidates@.len(),
                *candidate == candidates@[c as int],
                m <= candidate.mappings@.len(),
                out.deep_view() == base + candidate_recordings(*candidate, m as nat),
            decreases candidate.mappings@.len() - m,
        {
            let index = candidate.mappings[m].candidate_index;
            if index < candidate.candidate.tracks.len() {
                match &candidate.candidate.tracks[index].recording_id {
                    Some(id) => {
                        let ghost before = out.deep_view();
                        out.push(id.clone());
                        assert(out.deep_view() =~= before.push(id@));
                        assert(base + candidate_recordings(*candidate, (m + 1) as nat) =~= (base + candidate_recordings(*candidate, m as nat)).push(id@));
                    },
                    None => {},
                }
            }
            m = m + 1;
        }
        c = c + 1;
    }
    out
}

/// Whether the mapped tracks of the candidates name exactly one distinct recording.
fn single_mapped_recording(candidates: &Vec<RankedCandidate>) -> (r: bool)
    ensures
        r == one_mapped_recording(candidates@),
{
    let ids = mapped_recording_list(candidates);
    let ghost v = ids.deep_view();
    if ids.len() == 0 {
        return false;
    }
    let mut i: usize = 0;
    while i < ids.len()
        invariant
            i <= ids@.len(),
            v == ids.deep_view(),
            v == mapped_recordings(candidates@, candidates@.len()),
            ids@.len() > 0,
            forall|k: int| 0 <= k < i ==> #[trigger] v[k] == v[0],
        decreases ids@.len() - i,
    {
        if !text_eq(ids[i].as_str(), ids[0].as_str()) {
            assert(v[i as int] != v[0]);
            return false;
        }
        i = i + 1;
    }
    true
}

/// Whether the selected source should be fingerprinted.
pub fn needs_fingerprint(source: &SourceInspection, inspection: &Inspection, decision: &MatchDecision) -> (r: bool)
    ensures
        r == fingerprint_needed(source.audio@.len(), inspection.tracks.deep_view(), *decision),
{
    if source.audio.len() != 1 {
        return false;
    }
    if inspection.tracks.len() == 0 {
        return false;
    }
    let track = &inspection.tracks[0];
    assert(inspection.tracks.deep_view()[0] == track.deep_view());
    if track.recording_id.is_some() || track.release_group_id.is_some() {
        return false;
    }
    if credible_release_tags_of(track) {
        return false;
    }
    match decision {
        MatchDecision::Selected { .. } => false,
        MatchDecision::NeedsChoice(candidates) => !single_mapped_recording(candidates),
        MatchDecision::NoUsableMatch(_) => true,
    }
}

/// Law: only a lone audio file is ever fingerprinted; an album selection never is.
pub proof fn law_only_lone_files_are_fingerprinted(source_len: nat, tracks: Seq<InspectedTrackV>, decision: MatchDecision)
    requires
        source_len != 1,
    ensures
        !fingerprint_needed(source_len, tracks, decision),
{
}

/// Law: a lone file that names its release in its own tags (album, album artist and
/// position) is never fingerprinted, whatever matching decided.
pub proof fn law_credible_tags_are_not_fingerprinted(source_len: nat, tracks: Seq<InspectedTrackV>, decision: MatchDecision)
    requires
        tracks.len() > 0,
        credible_release_tags(tracks[0]),
    ensures
        !fingerprint_needed(source_len, tracks, decision),
{
}

} // verus!
