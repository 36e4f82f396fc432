use vstd::prelude::*;

use crate::domain::{
    clone_opt_string, ArtistCredit, ArtistCreditV, ArtistV, CandidateRelease, CandidateReleaseV, ReleaseKind,
    ReleaseKindV, ReleaseTrack, ReleaseTrackV,
};
use crate::domain::{InspectedTrack, InspectedTrackV};
use crate::layout::{
    release_layout_spec, standalone_layout_spec, StandaloneLayout, join_path, join_spec, layout_matches, LayoutError, LayoutErrorV, LayoutPolicy, LayoutTrack,
    LayoutTrackV, PlannedLayout, ReleaseLayout,
};
use crate::matching::{RankedCandidate, TrackMapping};
use crate::plan::{MetadataBasis, TrackPlan};
use crate::planning::changes::{changes_for, planned_changes};
use crate::source::{audio_extension, InspectedAudio, PlannedTags, SourceInspection};
use crate::planning::PlanningError;

verus! {

/// The names a credit lists: its artists' names, or its display text when it lists none.
pub open spec fn artist_names_of(credit: ArtistCreditV) -> Seq<Seq<char>> {
    if credit.artists.len() == 0 {
        seq![credit.display]
    } else {
        credit.artists.map_values(|a: ArtistV| a.name)
    }
}

/// The credit's MusicBrainz artist identifiers, when it lists artists and knows every one.
pub open spec fn confident_ids_of(credit: ArtistCreditV) -> Option<Seq<Seq<char>>> {
    if credit.artists.len() > 0 && forall|i: int| 0 <= i < credit.artists.len() ==> (#[trigger] credit.artists[i]).musicbrainz_id is Some {
        Some(credit.artists.map_values(|a: ArtistV| a.musicbrainz_id->0))
    } else {
        None
    }
}

/// How many of the first `n` tracks lie on `disc`.
pub open spec fn tracks_on_disc(tracks: Seq<ReleaseTrackV>, disc: u16, n: nat) -> nat
    decreases n,
{
    if n == 0 {
        0
    } else {
        tracks_on_disc(tracks, disc, (n - 1) as nat) + if tracks[n - 1].position.disc == disc { 1nat } else { 0nat }
    }
}

/// Whether a release track lies on `disc`.
pub open spec fn on_disc(disc: u16) -> spec_fn(ReleaseTrackV) -> bool {
    |t: ReleaseTrackV| t.position.disc == disc
}

proof fn lemma_tracks_on_disc_filter(tracks: Seq<ReleaseTrackV>, disc: u16, n: nat)
    requires
        n <= tracks.len(),
    ensures
        tracks_on_disc(tracks, disc, n) == tracks.take(n as int).filter(on_disc(disc)).len(),
    decreases n,
{
    reveal(Seq::filter);
    if n == 0 {
        assert(tracks.take(0) =~= Seq::<ReleaseTrackV>::empty());
    } else {
        lemma_tracks_on_disc_filter(tracks, disc, (n - 1) as nat);
        let s = tracks.take(n as int);
        assert(s.drop_last() =~= tracks.take(n - 1));
        assert(s.last() == tracks[n - 1]);
    }
}

/// Law: the track total planned for a track counts exactly the release's tracks
/// on that track's disc: the tracks of the release on that disc, no others. A
/// track on another disc never changes it, one on the same disc adds one, and the
/// totals of a disc and of all other discs together make the release's track count.
pub proof fn law_track_total_counts_the_tracks_disc(
    p: PlannedTags,
    release: CandidateReleaseV,
    track: ReleaseTrackV,
    extra: ReleaseTrackV,
)
    requires
        planned_tags_match(p, release, track),
    ensures
        p.track_total as int == (release.tracks.filter(on_disc(track.position.disc)).len() as u32) as int,
        release.tracks.filter(on_disc(track.position.disc)).len() <= release.tracks.len(),
        extra.position.disc != track.position.disc ==> tracks_on_disc(
            release.tracks.push(extra),
            track.position.disc,
            release.tracks.len() + 1,
        ) == tracks_on_disc(release.tracks, track.position.disc, release.tracks.len()),
        extra.position.disc == track.position.disc ==> tracks_on_disc(
            release.tracks.push(extra),
            track.position.disc,
            release.tracks.len() + 1,
        ) == tracks_on_disc(release.tracks, track.position.disc, release.tracks.len()) + 1,
        release.tracks.filter(on_disc(track.position.disc)).len() + release.tracks.filter(
            |t: ReleaseTrackV| t.position.disc != track.position.disc,
        ).len() == release.tracks.len(),
{
    let ts = release.tracks;
    let d = track.position.disc;
    lemma_tracks_on_disc_filter(ts, d, ts.len());
    assert(ts.take(ts.len() as int) =~= ts);
    let more = ts.push(extra);
    lemma_tracks_on_disc_filter(more, d, more.len());
    assert(more.take(more.len() as int) =~= more);
    lemma_tracks_on_disc_filter(more, d, ts.len());
    assert(more.take(ts.len() as int) =~= ts);
    lemma_filter_split(ts, d);
}

proof fn lemma_filter_split(ts: Seq<ReleaseTrackV>, d: u16)
    ensures
        ts.filter(on_disc(d)).len() + ts.filter(|t: ReleaseTrackV| t.position.disc != d).len() == ts.len(),
    decreases ts.len(),
{
    reveal(Seq::filter);
    if ts.len() > 0 {
        lemma_filter_split(ts.drop_last(), d);
    }
}

/// The highest disc number among the first `n` tracks, if there are any.
pub open spec fn highest_disc(tracks: Seq<ReleaseTrackV>, n: nat) -> Option<u16>
    decreases n,
{
    if n == 0 {
        None
    } else {
        let d = tracks[n - 1].position.disc;
        match highest_disc(tracks, (n - 1) as nat) {
            Some(m) => Some(if m >= d { m } else { d }),
            None => Some(d),
        }
    }
}

/// The release's disc count: its highest disc number, or 1 when it has no tracks.
pub open spec fn disc_count(tracks: Seq<ReleaseTrackV>) -> u16 {
    match highest_disc(tracks, tracks.len()) {
        Some(m) => m,
        None => 1,
    }
}

proof fn lemma_highest_disc(tracks: Seq<ReleaseTrackV>, n: nat)
    requires
        n <= tracks.len(),
    ensures
        n == 0 <==> highest_disc(tracks, n) is None,
        highest_disc(tracks, n) matches Some(m) ==> (forall|i: int| 0 <= i < n ==> (#[trigger] tracks[i]).position.disc <= m)
            && exists|i: int| 0 <= i < n && (#[trigger] tracks[i]).position.disc == m,
    decreases n,
{
    if n > 0 {
        lemma_highest_disc(tracks, (n - 1) as nat);
        let d = tracks[n - 1].position.disc;
        match highest_disc(tracks, (n - 1) as nat) {
            Some(m) => {
                if m >= d {
                    let w = choose|i: int| 0 <= i < n - 1 && (#[trigger] tracks[i]).position.disc == m;
                    assert(0 <= w < n && tracks[w].position.disc == m);
                } else {
                    assert(tracks[n - 1].position.disc == d);
                }
            },
            None => {
                assert(tracks[n - 1].position.disc == d);
            },
        }
    }
}

/// Law: the planned disc total is the highest disc number among the release's
/// tracks: no track lies on a later disc and some track lies on that one; a
/// release without tracks counts as one disc.
pub proof fn law_disc_total_is_the_highest_disc(p: PlannedTags, release: CandidateReleaseV, track: ReleaseTrackV)
    requires
        planned_tags_match(p, release, track),
    ensures
        release.tracks.len() == 0 ==> p.disc_total == 1,
        forall|i: int| 0 <= i < release.tracks.len() ==> (#[trigger] release.tracks[i]).position.disc as u32 <= p.disc_total,
        release.tracks.len() > 0 ==> exists|i: int| 0 <= i < release.tracks.len() && (#[trigger] release.tracks[i]).position.disc as u32 == p.disc_total,
{
    lemma_highest_disc(release.tracks, release.tracks.len());
    if release.tracks.len() > 0 {
        let m = highest_disc(release.tracks, release.tracks.len())->0;
        let w = choose|i: int| 0 <= i < release.tracks.len() && (#[trigger] release.tracks[i]).position.disc == m;
        assert(release.tracks[w].position.disc as u32 == p.disc_total);
    }
}

/// The tags planned for `track` of `release`: the track's title and credit, the
/// release's title, credit, year and group, the credits' names and (when all are
/// known) identifiers, the position with the disc's track count and the disc count.
pub open spec fn planned_tags_match(p: PlannedTags, release: CandidateReleaseV, track: ReleaseTrackV) -> bool {
    &&& p.title@ == track.title
    &&& p.artist@ == track.artist_credit.display
    &&& p.artists.deep_view() == artist_names_of(track.artist_credit)
    &&& p.album@ == release.title
    &&& p.album_artist@ == release.album_artist.display
    &&& p.album_artists.deep_view() == artist_names_of(release.album_artist)
    &&& p.artist_ids.deep_view() == confident_ids_of(track.artist_credit)
    &&& p.album_artist_ids.deep_view() == confident_ids_of(release.album_artist)
    &&& p.compilation == (release.kind == ReleaseKindV::Compilation)
    &&& p.original_year == release.original_year
    &&& p.track == track.position.track as u32
    &&& p.track_total == tracks_on_disc(release.tracks, track.position.disc, release.tracks.len()) as u32
    &&& p.disc == track.position.disc as u32
    &&& p.disc_total == disc_count(release.tracks) as u32
    &&& p.recording_id.deep_view() == track.recording_id
    &&& p.release_group_id.deep_view() == release.release_group_id
}

/// The names of a credit.
pub fn artist_names(credit: &ArtistCredit) -> (r: Vec<String>)
    ensures
        r.deep_view() == artist_names_of(credit.deep_view()),
{
    let ghost c = credit.deep_view();
    let mut names: Vec<String> = Vec::new();
    if credit.artists.len() == 0 {
        names.push(credit.display.clone());
        assert(names.deep_view() =~= seq![credit.display@]);
        return names;
    }
    let mut i: usize = 0;
    while i < credit.artists.len()
        invariant
            i <= credit.artists@.len(),
            c == credit.deep_view(),
            names.deep_view() =~= c.artists.take(i as int).map_values(|a: ArtistV| a.name),
        decreases credit.artists@.len() - i,
    {
        let ghost before = names.deep_view();
        names.push(credit.artists[i].name.clone());
        assert(c.artists[i as int] == credit.artists@[i as int].deep_view());
        assert(names.deep_view() =~= before.push(c.artists[i as int].name));
        assert(c.artists.take(i + 1).map_values(|a: ArtistV| a.name) =~= c.artists.take(i as int).map_values(|a: ArtistV| a.name).push(c.artists[i as int].name));
        i = i + 1;
    }
    assert(c.artists.take(c.artists.len() as int) =~= c.artists);
    names
}

/// The credit's artist identifiers, when every listed artist has one.
pub fn confident_ids(credit: &ArtistCredit) -> (r: Option<Vec<String>>)
    ensures
        r.deep_view() == confident_ids_of(credit.deep_view()),
{
    let ghost c = credit.deep_view();
    if credit.artists.len() == 0 {
        return None;
    }
    let mut ids: Vec<String> = Vec::new();
    let mut i: usize = 0;
    while i < credit.artists.len()
        invariant
            i <= credit.artists@.len(),
            c == credit.deep_view(),
            forall|k: int| 0 <= k < i ==> (#[trigger] c.artists[k]).musicbrainz_id is Some,
            ids.deep_view() =~= c.artists.take(i as int).map_values(|a: ArtistV| a.musicbrainz_id->0),
        decreases credit.artists@.len() - i,
    {
        assert(c.artists[i as int] == credit.artists@[i as int].deep_view());
        match &credit.artists[i].musicbrainz_id {
            Some(id) => {
                let ghost before = ids.deep_view();
                ids.push(id.clone());
                assert(ids.deep_view() =~= before.push(id@));
                assert(c.artists.take(i + 1).map_values(|a: ArtistV| a.musicbrainz_id->0) =~= c.artists.take(i as int).map_values(
                    |a: ArtistV| a.musicbrainz_id->0,
                ).push(id@));
            },
            None => {
                return None;
            },
        }
        i = i + 1;
    }
    assert(c.artists.take(c.artists.len() as int) =~= c.artists);
    Some(ids)
}

/// The release's disc count.
pub fn release_disc_count(tracks: &Vec<ReleaseTrack>) -> (r: u16)
    ensures
        r == disc_count(tracks.deep_view()),
{
    let ghost t = tracks.deep_view();
    let mut highest: Option<u16> = None;
    let mut i: usize = 0;
    while i < tracks.len()
        invariant
            i <= tracks@.len(),
            t == tracks.deep_view(),
            highest == highest_disc(t, i as nat),
        decreases tracks@.len() - i,
    {
        assert(t[i as int] == tracks@[i as int].deep_view());
        let d = tracks[i].position.disc;
        highest = match highest {
            Some(m) => Some(if m >= d { m } else { d }),
            None => Some(d),
        };
        i = i + 1;
    }
    match highest {
        Some(m) => m,
        None => 1,
    }
}

/// How many tracks of the release lie on `disc`.
fn count_on_disc(tracks: &Vec<ReleaseTrack>, disc: u16) -> (r: usize)
    ensures
        r == tracks_on_disc(tracks.deep_view(), disc, tracks@.len()),
{
    let ghost t = tracks.deep_view();
    let mut count: usize = 0;
    let mut i: usize = 0;
    while i < tracks.len()
        invariant
            i <= tracks@.len(),
            t == tracks.deep_view(),
            count == tracks_on_disc(t, disc, i as nat),
            count <= i,
        decreases tracks@.len() - i,
    {
        assert(t[i as int] == tracks@[i as int].deep_view());
        if tracks[i].position.disc == disc {
            count = count + 1;
        }
        i = i + 1;
    }
    count
}

/// The tags planned for `track` of `release`.
pub fn planned_tags(release: &CandidateRelease, track: &ReleaseTrack) -> (r: PlannedTags)
    ensures
        planned_tags_match(r, release.deep_view(), track.deep_view()),
{
    let compilation = match release.kind {
        ReleaseKind::Compilation => true,
        _ => false,
    };
    let on_disc = count_on_disc(&release.tracks, track.position.disc);
    PlannedTags {
        title: track.title.clone(),
        artist: track.artist_credit.display.clone(),
        artists: artist_names(&track.artist_credit),
        album: release.title.clone(),
        album_artist: release.album_artist.display.clone(),
        album_artists: artist_names(&release.album_artist),
        artist_ids: confident_ids(&track.artist_credit),
        album_artist_ids: confident_ids(&release.album_artist),
        compilation,
        original_year: release.original_year,
        track: track.position.track as u32,
        track_total: on_disc as u32,
        disc: track.position.disc as u32,
        disc_total: release_disc_count(&release.tracks) as u32,
        recording_id: clone_opt_string(&track.recording_id),
        release_group_id: clone_opt_string(&release.release_group_id),
    }
}

/// `m` placed into `sorted` after every mapping whose source index is not greater.
pub open spec fn insert_by_source(sorted: Seq<TrackMapping>, m: TrackMapping) -> Seq<TrackMapping>
    decreases sorted.len(),
{
    if sorted.len() == 0 {
        seq![m]
    } else if sorted.last().source_index <= m.source_index {
        sorted.push(m)
    } else {
        insert_by_source(sorted.drop_last(), m).push(sorted.last())
    }
}

/// The mappings ordered by source index, mappings with equal indices keeping their order.
pub open spec fn sorted_by_source(ms: Seq<TrackMapping>) -> Seq<TrackMapping>
    decreases ms.len(),
{
    if ms.len() == 0 {
        Seq::empty()
    } else {
        insert_by_source(sorted_by_source(ms.drop_last()), ms.last())
    }
}

proof fn lemma_insert_at(s: Seq<TrackMapping>, m: TrackMapping, p: int)
    requires
        0 <= p <= s.len(),
        forall|k: int| p <= k < s.len() ==> (#[trigger] s[k]).source_index > m.source_index,
        p == 0 || s[p - 1].source_index <= m.source_index,
    ensures
        insert_by_source(s, m) == s.insert(p, m),
    decreases s.len(),
{
    if s.len() == p {
        assert(s.insert(p, m) =~= s.push(m));
    } else {
        let t = s.drop_last();
        assert forall|k: int| p <= k < t.len() implies (#[trigger] t[k]).source_index > m.source_index by {
            assert(t[k] == s[k]);
        }
        if p > 0 {
            assert(t[p - 1] == s[p - 1]);
        }
        lemma_insert_at(t, m, p);
        assert(s.insert(p, m) =~= t.insert(p, m).push(s.last()));
    }
}

/// The mappings in source order (a stable sort by source index).
pub fn sort_by_source(mappings: &Vec<TrackMapping>) -> (r: Vec<TrackMapping>)
    ensures
        r@ == sorted_by_source(mappings@),
{
    let mut sorted: Vec<TrackMapping> = Vec::new();
    let mut i: usize = 0;
    while i < mappings.len()
        invariant
            i <= mappings@.len(),
            sorted@ == sorted_by_source(mappings@.take(i as int)),
            sorted@.len() == i,
        decreases mappings@.len() - i,
    {
        let m = mappings[i];
        let mut p: usize = sorted.len();
        while p > 0 && sorted[p - 1].source_index > m.source_index
            invariant
                p <= sorted@.len(),
                forall|k: int| p <= k < sorted@.len() ==> (#[trigger] sorted@[k]).source_index > m.source_index,
            decreases p,
        {
            p = p - 1;
        }
        proof {
            lemma_insert_at(sorted@, m, p as int);
            assert(mappings@.take(i + 1).drop_last() =~= mappings@.take(i as int));
            assert(mappings@.take(i + 1).last() == m);
        }
        sorted.insert(p, m);
        i = i + 1;
    }
    assert(mappings@.take(mappings@.len() as int) =~= mappings@);
    sorted
}

/// What the release or existing-tags half of planning yields: the metadata basis,
/// the reasons shown for it, the layout, and one plan per audio file.
pub struct BuiltPlan {
    pub metadata: MetadataBasis,
    pub reasons: Vec<String>,
    pub layout: PlannedLayout,
    pub tracks: Vec<TrackPlan>,
}

/// The layout track for a mapping: the candidate track's title and position with
/// the source file's extension, or the index that is out of range.
pub open spec fn layout_track_for(audio: Seq<InspectedAudio>, tracks: Seq<ReleaseTrackV>, m: TrackMapping) -> Result<LayoutTrackV, usize> {
    if m.source_index >= audio.len() {
        Err(m.source_index)
    } else if m.candidate_index >= tracks.len() {
        Err(m.candidate_index)
    } else {
        let t = tracks[m.candidate_index as int];
        Ok(LayoutTrackV {
            title: t.title,
            disc: t.position.disc,
            track: t.position.track,
            extension: audio_extension(audio[m.source_index as int].format),
        })
    }
}

/// The layout tracks of the first `n` mappings, or the first out-of-range index.
pub open spec fn layout_tracks_for(audio: Seq<InspectedAudio>, tracks: Seq<ReleaseTrackV>, ms: Seq<TrackMapping>, n: nat) -> Result<Seq<LayoutTrackV>, usize>
    decreases n,
{
    if n == 0 {
        Ok(Seq::empty())
    } else {
        match layout_tracks_for(audio, tracks, ms, (n - 1) as nat) {
            Err(i) => Err(i),
            Ok(ts) => match layout_track_for(audio, tracks, ms[n - 1]) {
                Err(i) => Err(i),
                Ok(t) => Ok(ts.push(t)),
            },
        }
    }
}

/// `tp` plans `audio` (matched as `inspected`) onto `target` of `release` at `destination`.
pub open spec fn provider_track_plan(
    tp: TrackPlan,
    audio: InspectedAudio,
    inspected: InspectedTrackV,
    release: CandidateReleaseV,
    target: ReleaseTrackV,
    destination: Seq<char>,
) -> bool {
    &&& tp.source_relative@ == audio.relative_path@
    &&& tp.destination@ == destination
    &&& tp.planned_tags matches Some(p) && planned_tags_match(p, release, target)
        && tp.tag_changes.deep_view() == planned_changes(inspected, audio.tags, release.title, target.title, p)
}

/// The plan half for a provider candidate: tracks in source order, laid out as the
/// candidate's release, each retagged from its candidate track.
pub open spec fn provider_plan_matches(
    r: Result<BuiltPlan, PlanningError>,
    source: SourceInspection,
    inspected: Seq<InspectedTrackV>,
    selected: RankedCandidate,
    root: Seq<char>,
) -> bool {
    let c = selected.candidate.deep_view();
    let ms = sorted_by_source(selected.mappings@);
    match layout_tracks_for(source.audio@, c.tracks, ms, ms.len()) {
        Err(i) => r matches Err(PlanningError::InvalidMapping(j)) && j == i,
        Ok(lts) => match release_layout_spec(c.album_artist.display, c.title, c.original_year, disc_count(c.tracks), lts) {
            Err(e) => r matches Err(PlanningError::Layout(le)) && le.deep_view() == e,
            Ok((directory, paths)) => r matches Ok(b) && {
                &&& b.metadata matches MetadataBasis::MusicBrainz(m) && m.deep_view() == c
                &&& b.reasons.deep_view() == selected.reasons.deep_view()
                &&& b.layout.directory@ == directory
                &&& b.layout.tracks.deep_view() == paths
                &&& b.tracks@.len() == ms.len()
                &&& forall|k: int| 0 <= k < ms.len() ==> provider_track_plan(
                    #[trigger] b.tracks@[k],
                    source.audio@[ms[k].source_index as int],
                    inspected[ms[k].source_index as int],
                    c,
                    c.tracks[ms[k].candidate_index as int],
                    join_spec(root, paths[k]),
                )
            },
        },
    }
}

proof fn lemma_layout_tracks_err(audio: Seq<InspectedAudio>, tracks: Seq<ReleaseTrackV>, ms: Seq<TrackMapping>, n: nat, m: nat)
    requires
        n <= m,
        layout_tracks_for(audio, tracks, ms, n) is Err,
    ensures
        layout_tracks_for(audio, tracks, ms, m) == layout_tracks_for(audio, tracks, ms, n),
    decreases m - n,
{
    if n < m {
        lemma_layout_tracks_err(audio, tracks, ms, n, (m - 1) as nat);
    }
}

proof fn lemma_layout_tracks_ok(audio: Seq<InspectedAudio>, tracks: Seq<ReleaseTrackV>, ms: Seq<TrackMapping>, n: nat)
    requires
        layout_tracks_for(audio, tracks, ms, n) is Ok,
    ensures
        layout_tracks_for(audio, tracks, ms, n)->Ok_0.len() == n,
        forall|k: int| 0 <= k < n ==> (#[trigger] ms[k]).source_index < audio.len() && ms[k].candidate_index < tracks.len(),
    decreases n,
{
    if n > 0 {
        lemma_layout_tracks_ok(audio, tracks, ms, (n - 1) as nat);
    }
}

proof fn lemma_track_paths_len(directory: Seq<char>, multi_disc: bool, ts: Seq<LayoutTrackV>, n: nat)
    requires
        crate::layout::track_paths(directory, multi_disc, ts, n) is Ok,
    ensures
        crate::layout::track_paths(directory, multi_disc, ts, n)->Ok_0.len() == n,
    decreases n,
{
    if n > 0 {
        lemma_track_paths_len(directory, multi_disc, ts, (n - 1) as nat);
    }
}

/// The summaries of the candidate's match reasons.
fn reason_summaries(selected: &RankedCandidate) -> (r: Vec<String>)
    ensures
        r.deep_view() == selected.reasons.deep_view(),
{
    let mut out: Vec<String> = Vec::new();
    let mut i: usize = 0;
    while i < selected.reasons.len()
        invariant
            i <= selected.reasons@.len(),
            out.deep_view() =~= selected.reasons.deep_view().take(i as int),
        decreases selected.reasons@.len() - i,
    {
        let ghost before = out.deep_view();
        out.push(selected.reasons[i].summary.clone());
        assert(out.deep_view() =~= before.push(selected.reasons.deep_view()[i as int]));
        assert(selected.reasons.deep_view().take(i + 1) =~= selected.reasons.deep_view().take(i as int).push(selected.reasons.deep_view()[i as int]));
        i = i + 1;
    }
    assert(selected.reasons.deep_view().take(selected.reasons@.len() as int) =~= selected.reasons.deep_view());
    out
}

/// Plans the source as the selected provider candidate.
#[verifier::rlimit(60)]
pub fn provider_plan(
    source: &SourceInspection,
    inspected: &Vec<InspectedTrack>,
    selected: &RankedCandidate,
    destination_root: &str,
) -> (r: Result<BuiltPlan, PlanningError>)
    requires
        inspected@.len() == source.audio@.len(),
    ensures
        provider_plan_matches(r, *source, inspected.deep_view(), *selected, destination_root@),
{
    let candidate = &selected.candidate;
    let ghost c = candidate.deep_view();
    let disc_total = release_disc_count(&candidate.tracks);
    let mappings = sort_by_source(&selected.mappings);
    let ghost ms = mappings@;
    let mut layout_tracks: Vec<LayoutTrack> = Vec::new();
    assert(layout_tracks.deep_view() =~= Seq::<LayoutTrackV>::empty());
    let mut i: usize = 0;
    while i < mappings.len()
        invariant
            i <= ms.len(),
            ms == mappings@,
            ms == sorted_by_source(selected.mappings@),
            c == candidate.deep_view(),
            c == selected.candidate.deep_view(),
            layout_tracks_for(source.audio@, c.tracks, ms, i as nat) == Ok::<Seq<LayoutTrackV>, usize>(layout_tracks.deep_view()),
        decreases ms.len() - i,
    {
        let m = mappings[i];
        assert(ms[i as int] == m);
        if m.source_index >= source.audio.len() {
            proof {
                lemma_layout_tracks_err(source.audio@, c.tracks, ms, (i + 1) as nat, ms.len());
            }
            return Err(PlanningError::InvalidMapping(m.source_index));
        }
        if m.candidate_index >= candidate.tracks.len() {
            proof {
                lemma_layout_tracks_err(source.audio@, c.tracks, ms, (i + 1) as nat, ms.len());
            }
            return Err(PlanningError::InvalidMapping(m.candidate_index));
        }
        let target = &candidate.tracks[m.candidate_index];
        let audio = &source.audio[m.source_index];
        assert(c.tracks[m.candidate_index as int] == target.deep_view());
        let ghost before = layout_tracks.deep_view();
        layout_tracks.push(LayoutTrack {
            title: target.title.clone(),
            disc: target.position.disc,
            track: target.position.track,
            extension: audio.format.canonical_extension(),
        });
        assert(layout_tracks.deep_view() =~= before.push(layout_track_for(source.audio@, c.tracks, m)->Ok_0));
        i = i + 1;
    }
    let ghost lts = layout_tracks.deep_view();
    let release_layout = ReleaseLayout {
        album_artist: candidate.album_artist.clone(),
        title: candidate.title.clone(),
        original_year: candidate.original_year,
        disc_count: disc_total,
        tracks: layout_tracks,
    };
    let layout = match LayoutPolicy.release(&release_layout) {
        Ok(layout) => layout,
        Err(e) => return Err(PlanningError::Layout(e)),
    };
    proof {
        lemma_layout_tracks_ok(source.audio@, c.tracks, ms, ms.len());
        lemma_track_paths_len(
            layout.directory@,
            disc_total > 1,
            lts,
            lts.len(),
        );
    }
    let ghost paths = layout.tracks.deep_view();
    assert(paths.len() == ms.len());
    let mut tracks: Vec<TrackPlan> = Vec::new();
    let mut k: usize = 0;
    while k < mappings.len()
        invariant
            k <= ms.len(),
            ms == mappings@,
            c == candidate.deep_view(),
            c == selected.candidate.deep_view(),
            paths == layout.tracks.deep_view(),
            paths.len() == ms.len(),
            inspected@.len() == source.audio@.len(),
            forall|j: int| 0 <= j < ms.len() ==> (#[trigger] ms[j]).source_index < source.audio@.len() && ms[j].candidate_index
                < c.tracks.len(),
            tracks@.len() == k,
            forall|j: int| 0 <= j < k ==> provider_track_plan(
                #[trigger] tracks@[j],
                source.audio@[ms[j].source_index as int],
                inspected.deep_view()[ms[j].source_index as int],
                c,
                c.tracks[ms[j].candidate_index as int],
                join_spec(destination_root@, paths[j]),
            ),
            ms == sorted_by_source(selected.mappings@),
        decreases ms.len() - k,
    {
        let m = mappings[k];
        assert(ms[k as int] == m);
        let audio = &source.audio[m.source_index];
        let inspected_track = &inspected[m.source_index];
        let target = &candidate.tracks[m.candidate_index];
        assert(c.tracks[m.candidate_index as int] == target.deep_view());
        assert(inspected.deep_view()[m.source_index as int] == inspected_track.deep_view());
        let tags = planned_tags(candidate, target);
        let changes = changes_for(inspected_track, &audio.tags, candidate.title.as_str(), target.title.as_str(), &tags);
        let destination = join_path(destination_root, layout.tracks[k].as_str());
        tracks.push(TrackPlan {
            source_relative: audio.relative_path.clone(),
            destination,
            tag_changes: changes,
            planned_tags: Some(tags),
        });
        k = k + 1;
    }
    Ok(BuiltPlan {
        metadata: MetadataBasis::MusicBrainz(candidate.clone()),
        reasons: reason_summaries(selected),
        layout,
        tracks,
    })
}

/// A value that is present and not only whitespace.
pub open spec fn required_value(value: Option<Seq<char>>) -> Option<Seq<char>> {
    match value {
        Some(v) => if !crate::text::all_whitespace(v) { Some(v) } else { None },
        None => None,
    }
}

/// The highest disc number among the positioned tracks of the first `n`.
pub open spec fn highest_tagged_disc(ts: Seq<InspectedTrackV>, n: nat) -> Option<u16>
    decreases n,
{
    if n == 0 {
        None
    } else {
        let before = highest_tagged_disc(ts, (n - 1) as nat);
        match ts[n - 1].position {
            None => before,
            Some(p) => match before {
                Some(m) => Some(if m >= p.disc { m } else { p.disc }),
                None => Some(p.disc),
            },
        }
    }
}

/// The layout tracks from the existing tags of the first `n` tracks, or the name of
/// the first missing value (a position, then a title, track by track).
pub open spec fn existing_layout_tracks(ts: Seq<InspectedTrackV>, audio: Seq<InspectedAudio>, n: nat) -> Result<Seq<LayoutTrackV>, Seq<char>>
    decreases n,
{
    if n == 0 {
        Ok(Seq::empty())
    } else {
        match existing_layout_tracks(ts, audio, (n - 1) as nat) {
            Err(f) => Err(f),
            Ok(lts) => match ts[n - 1].position {
                None => Err("track position"@),
                Some(p) => match required_value(ts[n - 1].title) {
                    None => Err("track title"@),
                    Some(title) => Ok(lts.push(LayoutTrackV {
                        title,
                        disc: p.disc,
                        track: p.track,
                        extension: audio_extension(audio[n - 1].format),
                    })),
                },
            },
        }
    }
}

/// `tp` keeps `audio` with its existing tags, at `destination`.
pub open spec fn existing_track_plan(tp: TrackPlan, audio: InspectedAudio, destination: Seq<char>) -> bool {
    &&& tp.source_relative@ == audio.relative_path@
    &&& tp.destination@ == destination
    &&& tp.tag_changes@.len() == 0
    &&& tp.planned_tags is None
}

/// The result carries out a layout with the existing tags and the given reason.
pub open spec fn existing_result(
    r: Result<BuiltPlan, PlanningError>,
    layout: Result<(Seq<char>, Seq<Seq<char>>), LayoutErrorV>,
    audio: Seq<InspectedAudio>,
    root: Seq<char>,
    reason: Seq<char>,
) -> bool {
    match layout {
        Err(e) => r matches Err(PlanningError::Layout(le)) && le.deep_view() == e,
        Ok((directory, paths)) => r matches Ok(b) && {
            &&& b.metadata matches MetadataBasis::ExistingTags
            &&& b.reasons.deep_view() == seq![reason]
            &&& b.layout.directory@ == directory
            &&& b.layout.tracks.deep_view() == paths
            &&& b.tracks@.len() == paths.len()
            &&& forall|k: int| 0 <= k < paths.len() ==> existing_track_plan(#[trigger] b.tracks@[k], audio[k], join_spec(root, paths[k]))
        },
    }
}

/// The plan half for the existing tags: a lone untitled-album track is laid out as a
/// standalone track by its artist and title; otherwise the tracks form the first
/// track's album by its album artist.
pub open spec fn existing_plan_matches(r: Result<BuiltPlan, PlanningError>, audio: Seq<InspectedAudio>, ts: Seq<InspectedTrackV>, root: Seq<char>) -> bool {
    if ts.len() == 1 && ts[0].album is None {
        match required_value(ts[0].artist) {
            None => r matches Err(PlanningError::Missing(f)) && f@ == "track artist"@,
            Some(artist) => match required_value(ts[0].title) {
                None => r matches Err(PlanningError::Missing(f)) && f@ == "track title"@,
                Some(title) => existing_result(
                    r,
                    standalone_layout_spec(artist, title, audio_extension(audio[0].format)),
                    audio,
                    root,
                    "existing artist and title are internally coherent"@,
                ),
            },
        }
    } else if ts.len() == 0 {
        r matches Err(PlanningError::Missing(f)) && f@ == "tracks"@
    } else {
        match required_value(ts[0].album_artist) {
            None => r matches Err(PlanningError::Missing(f)) && f@ == "album artist"@,
            Some(album_artist) => match required_value(ts[0].album) {
                None => r matches Err(PlanningError::Missing(f)) && f@ == "album title"@,
                Some(title) => match existing_layout_tracks(ts, audio, ts.len()) {
                    Err(f) => r matches Err(PlanningError::Missing(g)) && g@ == f,
                    Ok(lts) => existing_result(
                        r,
                        release_layout_spec(
                            album_artist,
                            title,
                            ts[0].original_year,
                            match highest_tagged_disc(ts, ts.len()) {
                                Some(m) => m,
                                None => 1,
                            },
                            lts,
                        ),
                        audio,
                        root,
                        "existing album metadata is internally coherent"@,
                    ),
                },
            },
        }
    }
}

/// The value, when present and not blank.
fn required(value: &Option<String>, field: &'static str) -> (r: Result<String, PlanningError>)
    ensures
        match required_value(value.deep_view()) {
            Some(v) => r matches Ok(s) && s@ == v,
            None => r matches Err(PlanningError::Missing(f)) && f@ == field@,
        },
{
    match value {
        Some(v) => if !crate::text::is_blank(v.as_str()) {
            Ok(v.clone())
        } else {
            Err(PlanningError::Missing(field))
        },
        None => Err(PlanningError::Missing(field)),
    }
}

proof fn lemma_existing_tracks_err(ts: Seq<InspectedTrackV>, audio: Seq<InspectedAudio>, n: nat, m: nat)
    requires
        n <= m,
        existing_layout_tracks(ts, audio, n) is Err,
    ensures
        existing_layout_tracks(ts, audio, m) == existing_layout_tracks(ts, audio, n),
    decreases m - n,
{
    if n < m {
        lemma_existing_tracks_err(ts, audio, n, (m - 1) as nat);
    }
}

/// Builds the plan half from a layout: each audio file keeps its tags and moves to
/// its laid-out path under `destination_root`.
fn keep_tags_plan(
    source: &SourceInspection,
    layout: Result<PlannedLayout, LayoutError>,
    destination_root: &str,
    reason: &str,
) -> (r: Result<BuiltPlan, PlanningError>)
    requires
        layout is Ok ==> layout->Ok_0.tracks@.len() <= source.audio@.len(),
    ensures
        match layout {
            Err(e) => r matches Err(PlanningError::Layout(le)) && le.deep_view() == e.deep_view(),
            Ok(l) => r matches Ok(b) && {
                &&& b.metadata matches MetadataBasis::ExistingTags
                &&& b.reasons.deep_view() == seq![reason@]
                &&& b.layout.directory@ == l.directory@
                &&& b.layout.tracks.deep_view() == l.tracks.deep_view()
                &&& b.tracks@.len() == l.tracks@.len()
                &&& forall|k: int| 0 <= k < l.tracks@.len() ==> existing_track_plan(
                    #[trigger] b.tracks@[k],
                    source.audio@[k],
                    join_spec(destination_root@, l.tracks@[k]@),
                )
            },
        },
{
    let layout = match layout {
        Ok(l) => l,
        Err(e) => return Err(PlanningError::Layout(e)),
    };
    let mut tracks: Vec<TrackPlan> = Vec::new();
    let mut k: usize = 0;
    while k < layout.tracks.len()
        invariant
            k <= layout.tracks@.len(),
            layout.tracks@.len() <= source.audio@.len(),
            tracks@.len() == k,
            forall|j: int| 0 <= j < k ==> existing_track_plan(
                #[trigger] tracks@[j],
                source.audio@[j],
                join_spec(destination_root@, layout.tracks@[j]@),
            ),
        decreases layout.tracks@.len() - k,
    {
        tracks.push(TrackPlan {
            source_relative: source.audio[k].relative_path.clone(),
            destination: join_path(destination_root, layout.tracks[k].as_str()),
            tag_changes: Vec::new(),
            planned_tags: None,
        });
        k = k + 1;
    }
    let mut reasons: Vec<String> = Vec::new();
    reasons.push(crate::text::owned(reason));
    assert(reasons.deep_view() =~= seq![reason@]);
    Ok(BuiltPlan { metadata: MetadataBasis::ExistingTags, reasons, layout, tracks })
}

/// Plans the source with its existing tags.
#[verifier::rlimit(60)]
pub fn existing_plan(source: &SourceInspection, inspected: &Vec<InspectedTrack>, destination_root: &str) -> (r: Result<BuiltPlan, PlanningError>)
    requires
        inspected@.len() == source.audio@.len(),
    ensures
        existing_plan_matches(r, source.audio@, inspected.deep_view(), destination_root@),
{
    let ghost ts = inspected.deep_view();
    if inspected.len() == 1 && inspected[0].album.is_none() {
        assert(ts[0] == inspected@[0].deep_view());
        let track = &inspected[0];
        let artist = match required(&track.artist, "track artist") {
            Ok(a) => a,
            Err(e) => return Err(e),
        };
        let title = match required(&track.title, "track title") {
            Ok(t) => t,
            Err(e) => return Err(e),
        };
        let layout = LayoutPolicy.standalone(&StandaloneLayout {
            artist: ArtistCredit::single(artist.as_str()),
            title,
            extension: source.audio[0].format.canonical_extension(),
        });
        proof {
            reveal_strlit("existing artist and title are internally coherent");
            if layout is Ok {
                assert(layout->Ok_0.tracks@.len() == layout->Ok_0.tracks.deep_view().len());
            }
        }
        return keep_tags_plan(source, layout, destination_root, "existing artist and title are internally coherent");
    }
    if inspected.len() == 0 {
        return Err(PlanningError::Missing("tracks"));
    }
    assert(ts[0] == inspected@[0].deep_view());
    let first = &inspected[0];
    let album_artist = match required(&first.album_artist, "album artist") {
        Ok(a) => a,
        Err(e) => return Err(e),
    };
    let title = match required(&first.album, "album title") {
        Ok(t) => t,
        Err(e) => return Err(e),
    };
    let mut highest: Option<u16> = None;
    let mut layout_tracks: Vec<LayoutTrack> = Vec::new();
    assert(layout_tracks.deep_view() =~= Seq::<LayoutTrackV>::empty());
    let mut i: usize = 0;
    while i < inspected.len()
        invariant
            i <= ts.len(),
            ts == inspected.deep_view(),
            ts.len() == source.audio@.len(),
            highest == highest_tagged_disc(ts, i as nat),
            !(ts.len() == 1 && ts[0].album is None),
            ts.len() > 0,
            required_value(ts[0].album_artist) is Some,
            required_value(ts[0].album) is Some,
            layout_tracks@.len() == i,
            existing_layout_tracks(ts, source.audio@, i as nat) == Ok::<Seq<LayoutTrackV>, Seq<char>>(layout_tracks.deep_view()),
        decreases ts.len() - i,
    {
        assert(ts[i as int] == inspected@[i as int].deep_view());
        let track = &inspected[i];
        let position = match track.position {
            Some(p) => p,
            None => {
                proof {
                    reveal_strlit("track position");
                    lemma_existing_tracks_err(ts, source.audio@, (i + 1) as nat, ts.len());
                }
                return Err(PlanningError::Missing("track position"));
            },
        };
        let track_title = match required(&track.title, "track title") {
            Ok(t) => t,
            Err(e) => {
                proof {
                    reveal_strlit("track title");
                    lemma_existing_tracks_err(ts, source.audio@, (i + 1) as nat, ts.len());
                }
                return Err(e);
            },
        };
        highest = match highest {
            Some(m) => Some(if m >= position.disc { m } else { position.disc }),
            None => Some(position.disc),
        };
        let ghost before = layout_tracks.deep_view();
        layout_tracks.push(LayoutTrack {
            title: track_title,
            disc: position.disc,
            track: position.track,
            extension: source.audio[i].format.canonical_extension(),
        });
        assert(layout_tracks.deep_view() =~= before.push(existing_layout_tracks(ts, source.audio@, (i + 1) as nat)->Ok_0.last()));
        i = i + 1;
    }
    assert(existing_layout_tracks(ts, source.audio@, ts.len()) == Ok::<Seq<LayoutTrackV>, Seq<char>>(layout_tracks.deep_view()));
    let disc_count = match highest {
        Some(m) => m,
        None => 1,
    };
    let ghost lts = layout_tracks.deep_view();
    let layout = LayoutPolicy.release(&ReleaseLayout {
        album_artist: ArtistCredit::single(album_artist.as_str()),
        title,
        original_year: first.original_year,
        disc_count,
        tracks: layout_tracks,
    });
    proof {
        reveal_strlit("existing album metadata is internally coherent");
        if layout is Ok {
            assert(layout->Ok_0.tracks@.len() == layout->Ok_0.tracks.deep_view().len());
            lemma_track_paths_len(layout->Ok_0.directory@, disc_count > 1, lts, lts.len());
        }
    }
    keep_tags_plan(source, layout, destination_root, "existing album metadata is internally coherent")
}

/// Whether the mappings are in source order.
pub open spec fn in_source_order(ms: Seq<TrackMapping>) -> bool {
    forall|i: int, j: int| 0 <= i <= j < ms.len() ==> (#[trigger] ms[i]).source_index <= (#[trigger] ms[j]).source_index
}

proof fn lemma_insert_by_source(s: Seq<TrackMapping>, m: TrackMapping)
    requires
        in_source_order(s),
    ensures
        in_source_order(insert_by_source(s, m)),
        insert_by_source(s, m).to_multiset() == s.to_multiset().insert(m),
    decreases s.len(),
{
    broadcast use vstd::seq_lib::group_seq_properties;
    if s.len() == 0 {
        assert(seq![m] =~= Seq::<TrackMapping>::empty().push(m));
    } else if s.last().source_index <= m.source_index {
        let r = s.push(m);
        assert forall|i: int, j: int| 0 <= i <= j < r.len() implies (#[trigger] r[i]).source_index <= (#[trigger] r[j]).source_index by {
            if j == r.len() - 1 && i < j {
                assert(s[i].source_index <= s[s.len() - 1].source_index);
            }
        }
    } else {
        let t = s.drop_last();
        assert forall|i: int, j: int| 0 <= i <= j < t.len() implies (#[trigger] t[i]).source_index <= (#[trigger] t[j]).source_index by {
            assert(t[i] == s[i] && t[j] == s[j]);
        }
        lemma_insert_by_source(t, m);
        let u = insert_by_source(t, m);
        let r = u.push(s.last());
        assert(u.to_multiset().contains(m));
        assert forall|k: int| 0 <= k < u.len() implies (#[trigger] u[k]).source_index <= s.last().source_index by {
            assert(u.to_multiset().count(u[k]) > 0);
            assert(t.to_multiset().insert(m).count(u[k]) > 0);
            if u[k] != m {
                assert(t.to_multiset().count(u[k]) > 0);
                assert(t.contains(u[k]));
                let q = choose|q: int| 0 <= q < t.len() && t[q] == u[k];
                assert(s[q] == t[q]);
                assert(s[q].source_index <= s[s.len() - 1].source_index);
            }
        }
        assert forall|i: int, j: int| 0 <= i <= j < r.len() implies (#[trigger] r[i]).source_index <= (#[trigger] r[j]).source_index by {
            if j == r.len() - 1 {
                if i < j {
                    assert(r[i] == u[i]);
                }
            } else {
                assert(r[i] == u[i] && r[j] == u[j]);
            }
        }
        assert(s =~= t.push(s.last()));
    }
}

/// Law: ordering the mappings by source index yields them in source order, each
/// mapping exactly as often as before.
pub proof fn law_source_order_is_a_sorted_permutation(ms: Seq<TrackMapping>)
    ensures
        in_source_order(sorted_by_source(ms)),
        sorted_by_source(ms).to_multiset() == ms.to_multiset(),
    decreases ms.len(),
{
    broadcast use vstd::seq_lib::group_seq_properties;
    if ms.len() > 0 {
        law_source_order_is_a_sorted_permutation(ms.drop_last());
        lemma_insert_by_source(sorted_by_source(ms.drop_last()), ms.last());
        assert(ms =~= ms.drop_last().push(ms.last()));
    }
}

} // verus!
