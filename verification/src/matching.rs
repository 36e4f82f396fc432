use vstd::prelude::*;

use crate::domain::{
    ArtistCredit, ArtistCreditV, CandidateRelease, CandidateReleaseV, InspectedTrack,
    InspectedTrackV, Inspection, Position, ReleaseKind, ReleaseKindV, ReleaseTrack,
    ReleaseTrackV, SourceKind, same_position,
};
use crate::text::{
    append, decimal, normalize, normalized_key, owned, push_decimal, text_eq,
};

verus! {

/// The most source tracks for which no candidate's score can leave `i32`: each
/// mapped track adds at most 670 points, and the count and release evidence at
/// most 970 more.
pub const MAX_SCORED_TRACKS: usize = 3_205_198;

// ---------------------------------------------------------------------------
// Result types
// ---------------------------------------------------------------------------

/// One line of evidence for or against a candidate.
#[derive(Debug, PartialEq, Eq)]
pub struct MatchReason {
    pub summary: String,
}

impl DeepView for MatchReason {
    type V = Seq<char>;

    open spec fn deep_view(&self) -> Seq<char> {
        self.summary@
    }
}

impl Clone for MatchReason {
    fn clone(&self) -> (r: Self)
        ensures
            r.deep_view() == self.deep_view(),
    {
        MatchReason { summary: self.summary.clone() }
    }
}

/// Which source track maps onto which candidate track, and on what evidence.
#[derive(Clone, Copy, Debug, PartialEq, Eq)]
pub struct TrackMapping {
    pub source_index: usize,
    pub candidate_index: usize,
    pub basis: TrackMatchBasis,
}

/// The evidence that decided a track mapping.
#[derive(Clone, Copy, Debug, PartialEq, Eq)]
pub enum TrackMatchBasis {
    RecordingId,
    TitleAndDuration,
    PositionFallback,
}

// ---------------------------------------------------------------------------
// Track-level specification
// ---------------------------------------------------------------------------

/// `a.abs_diff(b)`.
pub open spec fn abs_diff(a: u64, b: u64) -> int {
    if a >= b { a - b } else { b - a }
}

/// Durations agree within seven seconds, or one of them is unknown (zero).
pub open spec fn durations_compatible(source_ms: u64, candidate_ms: u64) -> bool {
    candidate_ms == 0 || source_ms == 0 || abs_diff(source_ms, candidate_ms) <= 7000
}

/// Both texts are present and have the same normalized key.
pub open spec fn same_key(a: Option<Seq<char>>, b: Seq<char>) -> bool {
    a is Some && normalized_key(a->0) == normalized_key(b)
}

/// The source track carries a recording identifier and the candidate track has the same one.
pub open spec fn recording_hit(s: InspectedTrackV, t: ReleaseTrackV) -> bool {
    s.recording_id is Some && t.recording_id == s.recording_id
}

/// Titles agree after normalization and durations are compatible.
pub open spec fn title_duration_hit(s: InspectedTrackV, t: ReleaseTrackV) -> bool {
    same_key(s.title, t.title) && durations_compatible(s.duration_ms, t.duration_ms)
}

/// The source track has exactly the candidate track's position.
pub open spec fn position_hit(s: InspectedTrackV, t: ReleaseTrackV) -> bool {
    s.position == Some(t.position)
}

/// The kinds of evidence by which a source track can find its candidate track.
pub enum HitKind {
    Recording,
    TitleDuration,
    Position,
}

pub open spec fn hit(kind: HitKind, s: InspectedTrackV, t: ReleaseTrackV) -> bool {
    match kind {
        HitKind::Recording => recording_hit(s, t),
        HitKind::TitleDuration => title_duration_hit(s, t),
        HitKind::Position => position_hit(s, t),
    }
}

/// Indices below `n` of candidate tracks that are still free and satisfy the evidence `kind`.
pub open spec fn hits(
    kind: HitKind,
    s: InspectedTrackV,
    targets: Seq<ReleaseTrackV>,
    used: Seq<bool>,
    n: nat,
) -> Seq<int>
    decreases n,
{
    if n == 0 {
        Seq::<int>::empty()
    } else {
        let r = hits(kind, s, targets, used, (n - 1) as nat);
        let i = n - 1;
        if !used[i] && hit(kind, s, targets[i]) {
            r.push(i)
        } else {
            r
        }
    }
}

/// The candidate track found for `s` among the free ones: a unique recording
/// identifier match, else a unique title-and-duration match, else a unique
/// position match, else none.
pub open spec fn best_track_spec(
    s: InspectedTrackV,
    targets: Seq<ReleaseTrackV>,
    used: Seq<bool>,
) -> Option<(int, TrackMatchBasis)> {
    let n = targets.len();
    let ids = hits(HitKind::Recording, s, targets, used, n);
    let texts = hits(HitKind::TitleDuration, s, targets, used, n);
    let positions = hits(HitKind::Position, s, targets, used, n);
    if ids.len() == 1 {
        Some((ids[0], TrackMatchBasis::RecordingId))
    } else if texts.len() == 1 {
        Some((texts[0], TrackMatchBasis::TitleAndDuration))
    } else if positions.len() == 1 {
        Some((positions[0], TrackMatchBasis::PositionFallback))
    } else {
        None
    }
}

/// Every identifier in `ids` belongs to one of the credited artists (and there is at least one).
pub open spec fn credit_has_ids(credit: ArtistCreditV, ids: Seq<Seq<char>>) -> bool {
    &&& ids.len() > 0
    &&& forall|i: int| 0 <= i < ids.len() ==> #[trigger] credited_id(credit, ids[i])
}

/// One of the credited artists has identifier `id`.
pub open spec fn credited_id(credit: ArtistCreditV, id: Seq<char>) -> bool {
    exists|j: int| 0 <= j < credit.artists.len() && #[trigger] credit.artists[j].musicbrainz_id == Some(id)
}

/// Points that duration agreement contributes to a track.
pub open spec fn duration_points(source_ms: u64, candidate_ms: u64) -> int {
    if candidate_ms > 0 && source_ms > 0 {
        let d = abs_diff(source_ms, candidate_ms);
        if d <= 2000 { 30 } else if d <= 5000 { 15 } else { -20 }
    } else {
        0
    }
}

/// Points for mapping source track `s` onto candidate track `t`.
pub open spec fn evidence_score(s: InspectedTrackV, t: ReleaseTrackV) -> int {
    (if recording_hit(s, t) { 400int } else { 0int })
    + (if position_hit(s, t) { 40int } else { 0int })
    + (if same_key(s.title, t.title) { 30int } else { 0int })
    + (if same_key(s.artist, t.artist_credit.display) { 20int } else { 0int })
    + (if credit_has_ids(t.artist_credit, s.artist_ids) { 150int } else { 0int })
    + duration_points(s.duration_ms, t.duration_ms)
}

/// Reasons recorded for mapping source track `s` onto candidate track `t`.
pub open spec fn evidence_reasons(s: InspectedTrackV, t: ReleaseTrackV) -> Seq<Seq<char>> {
    (if recording_hit(s, t) {
        seq![s.source_name + " has the same recording identifier"@]
    } else {
        Seq::<Seq<char>>::empty()
    }) + (if credit_has_ids(t.artist_credit, s.artist_ids) {
        seq![s.source_name + " has matching track-artist identifiers"@]
    } else {
        Seq::<Seq<char>>::empty()
    })
}

// ---------------------------------------------------------------------------
// Track-level implementation
// ---------------------------------------------------------------------------

/// Whether two optional texts are both absent or both present and equal.
pub fn opt_text_eq(a: &Option<String>, b: &Option<String>) -> (r: bool)
    ensures
        r == (a.deep_view() == b.deep_view()),
{
    match (a, b) {
        (Some(x), Some(y)) => text_eq(x.as_str(), y.as_str()),
        (None, None) => true,
        _ => false,
    }
}

/// Whether two texts have the same normalized key.
pub fn same_normalized(a: &str, b: &str) -> (r: bool)
    ensures
        r == (normalized_key(a@) == normalized_key(b@)),
{
    let x = normalize(a);
    let y = normalize(b);
    text_eq(x.as_str(), y.as_str())
}

/// Whether `a` is present and has the same normalized key as `b`.
pub fn opt_same_normalized(a: &Option<String>, b: &str) -> (r: bool)
    ensures
        r == same_key(a.deep_view(), b@),
{
    match a {
        Some(x) => same_normalized(x.as_str(), b),
        None => false,
    }
}

/// Whether the durations are compatible.
pub fn duration_compatible(source_ms: u64, candidate_ms: u64) -> (r: bool)
    ensures
        r == durations_compatible(source_ms, candidate_ms),
{
    let d = if source_ms >= candidate_ms { source_ms - candidate_ms } else { candidate_ms - source_ms };
    candidate_ms == 0 || source_ms == 0 || d <= 7000
}

fn hit_exec(kind: &HitKind, s: &InspectedTrack, t: &ReleaseTrack) -> (r: bool)
    ensures
        r == hit(*kind, s.deep_view(), t.deep_view()),
{
    match kind {
        HitKind::Recording => s.recording_id.is_some() && opt_text_eq(&t.recording_id, &s.recording_id),
        HitKind::TitleDuration => opt_same_normalized(&s.title, t.title.as_str())
            && duration_compatible(s.duration_ms, t.duration_ms),
        HitKind::Position => match s.position {
            Some(p) => same_position(p, t.position),
            None => false,
        },
    }
}

/// The single free candidate track satisfying `kind`, if there is exactly one.
fn unique_hit(kind: HitKind, s: &InspectedTrack, targets: &Vec<ReleaseTrack>, used: &Vec<bool>) -> (r: Option<usize>)
    requires
        used@.len() == targets@.len(),
    ensures
        ({
            let h = hits(kind, s.deep_view(), targets.deep_view(), used@, targets@.len());
            &&& r is Some <==> h.len() == 1
            &&& r is Some ==> r->0 == h[0]
        }),
{
    let ghost sv = s.deep_view();
    let ghost tv = targets.deep_view();
    let mut found: Vec<usize> = Vec::new();
    let mut i: usize = 0;
    while i < targets.len()
        invariant
            i <= targets@.len(),
            used@.len() == targets@.len(),
            sv == s.deep_view(),
            tv == targets.deep_view(),
            found@.len() == hits(kind, sv, tv, used@, i as nat).len(),
            forall|k: int| 0 <= k < found@.len() ==> found@[k] as int == #[trigger] hits(kind, sv, tv, used@, i as nat)[k],
        decreases targets@.len() - i,
    {
        assert(tv[i as int] == targets@[i as int].deep_view());
        if !used[i] && hit_exec(&kind, s, &targets[i]) {
            found.push(i);
        }
        i = i + 1;
    }
    if found.len() == 1 {
        Some(found[0])
    } else {
        None
    }
}

/// Finds the candidate track for source track `s` among those not yet used.
pub fn best_track(s: &InspectedTrack, targets: &Vec<ReleaseTrack>, used: &Vec<bool>) -> (r: Option<(usize, TrackMatchBasis)>)
    requires
        used@.len() == targets@.len(),
    ensures
        match best_track_spec(s.deep_view(), targets.deep_view(), used@) {
            Some((i, basis)) => r == Some((i as usize, basis)),
            None => r is None,
        },
        r matches Some((i, _)) ==> i < targets@.len() && !used@[i as int],
        best_track_spec(s.deep_view(), targets.deep_view(), used@) matches Some((i, _)) ==> 0 <= i < targets@.len(),
{
    let ghost n = targets@.len();
    proof {
        lemma_hits_free(HitKind::Recording, s.deep_view(), targets.deep_view(), used@, n);
        lemma_hits_free(HitKind::TitleDuration, s.deep_view(), targets.deep_view(), used@, n);
        lemma_hits_free(HitKind::Position, s.deep_view(), targets.deep_view(), used@, n);
    }
    match unique_hit(HitKind::Recording, s, targets, used) {
        Some(i) => return Some((i, TrackMatchBasis::RecordingId)),
        None => {},
    }
    match unique_hit(HitKind::TitleDuration, s, targets, used) {
        Some(i) => return Some((i, TrackMatchBasis::TitleAndDuration)),
        None => {},
    }
    match unique_hit(HitKind::Position, s, targets, used) {
        Some(i) => Some((i, TrackMatchBasis::PositionFallback)),
        None => None,
    }
}

/// Every index in `hits` is below `n` and free.
pub proof fn lemma_hits_free(kind: HitKind, s: InspectedTrackV, targets: Seq<ReleaseTrackV>, used: Seq<bool>, n: nat)
    ensures
        forall|k: int| 0 <= k < hits(kind, s, targets, used, n).len() ==>
            0 <= #[trigger] hits(kind, s, targets, used, n)[k] < n
            && !used[hits(kind, s, targets, used, n)[k]],
    decreases n,
{
    if n > 0 {
        lemma_hits_free(kind, s, targets, used, (n - 1) as nat);
        let r = hits(kind, s, targets, used, (n - 1) as nat);
        let h = hits(kind, s, targets, used, n);
        assert forall|k: int| 0 <= k < h.len() implies 0 <= #[trigger] h[k] < n && !used[h[k]] by {
            if k < r.len() {
                assert(h[k] == r[k]);
            }
        }
    }
}

/// Whether every identifier in `ids` belongs to a credited artist (and there is one).
pub fn credit_contains_ids(credit: &ArtistCredit, ids: &Vec<String>) -> (r: bool)
    ensures
        r == credit_has_ids(credit.deep_view(), ids.deep_view()),
{
    let ghost cv = credit.deep_view();
    let ghost iv = ids.deep_view();
    if ids.len() == 0 {
        return false;
    }
    let mut i: usize = 0;
    while i < ids.len()
        invariant
            i <= ids@.len(),
            cv == credit.deep_view(),
            iv == ids.deep_view(),
            forall|a: int| 0 <= a < i ==> #[trigger] credited_id(cv, iv[a]),
        decreases ids@.len() - i,
    {
        assert(cv.artists.len() == credit.artists@.len());
        let mut found = false;
        let mut j: usize = 0;
        while j < credit.artists.len()
            invariant
                i < ids@.len(),
                j <= credit.artists@.len(),
                cv == credit.deep_view(),
                iv == ids.deep_view(),
                found ==> exists|k: int| 0 <= k < cv.artists.len() && #[trigger] cv.artists[k].musicbrainz_id == Some(iv[i as int]),
                !found ==> forall|k: int| 0 <= k < j ==> #[trigger] cv.artists[k].musicbrainz_id != Some(iv[i as int]),
            decreases credit.artists@.len() - j,
        {
            let same = match &credit.artists[j].musicbrainz_id {
                Some(id) => text_eq(id.as_str(), ids[i].as_str()),
                None => false,
            };
            assert(cv.artists[j as int] == credit.artists@[j as int].deep_view());
            assert(iv[i as int] == ids@[i as int]@);
            assert(same == (cv.artists[j as int].musicbrainz_id == Some(iv[i as int])));
            if same {
                found = true;
            }
            j = j + 1;
        }
        assert(found ==> credited_id(cv, iv[i as int]));
        if !found {
            proof {
                if credit_has_ids(cv, iv) {
                    let ii = i as int;
                    assert(credited_id(cv, iv[ii]));
                    let k = choose|k: int| 0 <= k < cv.artists.len() && #[trigger] cv.artists[k].musicbrainz_id == Some(iv[ii]);
                    assert(cv.artists[k].musicbrainz_id != Some(iv[ii]));
                }
            }
            return false;
        }
        i = i + 1;
    }
    assert(iv.len() == ids@.len());
    true
}

/// The score and reasons contributed by mapping `s` onto `t`.
pub fn track_evidence(s: &InspectedTrack, t: &ReleaseTrack) -> (r: (i32, Vec<MatchReason>))
    ensures
        r.0 as int == evidence_score(s.deep_view(), t.deep_view()),
        r.1.deep_view() == evidence_reasons(s.deep_view(), t.deep_view()),
{
    let ghost sv = s.deep_view();
    let ghost tv = t.deep_view();
    let mut score: i32 = 0;
    let mut reasons: Vec<MatchReason> = Vec::new();
    let recording = s.recording_id.is_some() && opt_text_eq(&s.recording_id, &t.recording_id);
    if recording {
        score = score + 400;
        let mut summary = s.source_name.clone();
        append(&mut summary, " has the same recording identifier");
        reasons.push(MatchReason { summary });
    }
    let ghost first_reasons = reasons.deep_view();
    match s.position {
        Some(p) => {
            if same_position(p, t.position) {
                score = score + 40;
            }
        },
        None => {},
    }
    if opt_same_normalized(&s.title, t.title.as_str()) {
        score = score + 30;
    }
    if opt_same_normalized(&s.artist, t.artist_credit.display.as_str()) {
        score = score + 20;
    }
    let ids = credit_contains_ids(&t.artist_credit, &s.artist_ids);
    if ids {
        score = score + 150;
        let mut summary = s.source_name.clone();
        append(&mut summary, " has matching track-artist identifiers");
        reasons.push(MatchReason { summary });
    }
    if t.duration_ms > 0 && s.duration_ms > 0 {
        let d = if s.duration_ms >= t.duration_ms { s.duration_ms - t.duration_ms } else { t.duration_ms - s.duration_ms };
        if d <= 2000 {
            score = score + 30;
        } else if d <= 5000 {
            score = score + 15;
        } else {
            score = score - 20;
        }
    }
    assert(reasons.deep_view() =~= evidence_reasons(sv, tv));
    (score, reasons)
}


// ---------------------------------------------------------------------------
// Values common to all source tracks
// ---------------------------------------------------------------------------

/// The optional text fields of an inspected track.
pub enum TextField {
    Title,
    Artist,
    Album,
    AlbumArtist,
    ReleaseGroupId,
}

pub open spec fn field_of(t: InspectedTrackV, f: TextField) -> Option<Seq<char>> {
    match f {
        TextField::Title => t.title,
        TextField::Artist => t.artist,
        TextField::Album => t.album,
        TextField::AlbumArtist => t.album_artist,
        TextField::ReleaseGroupId => t.release_group_id,
    }
}

/// The first track's value of `f`, when every track has a value with the same normalized key.
pub open spec fn common_text(ts: Seq<InspectedTrackV>, f: TextField) -> Option<Seq<char>> {
    if ts.len() > 0 && field_of(ts[0], f) is Some && (forall|i: int|
        0 <= i < ts.len() ==> #[trigger] same_key(field_of(ts[i], f), field_of(ts[0], f)->0)) {
        field_of(ts[0], f)
    } else {
        None
    }
}

/// The album-artist identifiers shared by every track, when there are any.
pub open spec fn common_album_artist_ids(ts: Seq<InspectedTrackV>) -> Option<Seq<Seq<char>>> {
    if ts.len() > 0 && ts[0].album_artist_ids.len() > 0 && (forall|i: int|
        0 <= i < ts.len() ==> (#[trigger] ts[i]).album_artist_ids == ts[0].album_artist_ids) {
        Some(ts[0].album_artist_ids)
    } else {
        None
    }
}

/// The original year shared by every track, when all have one.
pub open spec fn common_year(ts: Seq<InspectedTrackV>) -> Option<u16> {
    if ts.len() > 0 && ts[0].original_year is Some && (forall|i: int|
        0 <= i < ts.len() ==> (#[trigger] ts[i]).original_year == ts[0].original_year) {
        ts[0].original_year
    } else {
        None
    }
}

fn field_ref<'a>(t: &'a InspectedTrack, f: &TextField) -> (r: &'a Option<String>)
    ensures
        r.deep_view() == field_of(t.deep_view(), *f),
{
    match f {
        TextField::Title => &t.title,
        TextField::Artist => &t.artist,
        TextField::Album => &t.album,
        TextField::AlbumArtist => &t.album_artist,
        TextField::ReleaseGroupId => &t.release_group_id,
    }
}

/// The value of `f` common to all tracks, compared by normalized key.
pub fn common_string(tracks: &Vec<InspectedTrack>, f: TextField) -> (r: Option<String>)
    ensures
        r.deep_view() == common_text(tracks.deep_view(), f),
{
    let ghost ts = tracks.deep_view();
    if tracks.len() == 0 {
        return None;
    }
    let first = match field_ref(&tracks[0], &f) {
        Some(value) => value,
        None => return None,
    };
    let mut i: usize = 0;
    while i < tracks.len()
        invariant
            i <= tracks@.len(),
            ts == tracks.deep_view(),
            ts.len() > 0,
            field_of(ts[0], f) == Some(first@),
            forall|k: int| 0 <= k < i ==> #[trigger] same_key(field_of(ts[k], f), first@),
        decreases tracks@.len() - i,
    {
        if !opt_same_normalized(field_ref(&tracks[i], &f), first.as_str()) {
            assert(!same_key(field_of(ts[i as int], f), field_of(ts[0], f)->0));
            return None;
        }
        i = i + 1;
    }
    Some(first.clone())
}

/// Whether two lists of texts are equal.
pub fn strings_eq(a: &Vec<String>, b: &Vec<String>) -> (r: bool)
    ensures
        r == (a.deep_view() == b.deep_view()),
{
    if a.len() != b.len() {
        assert(a.deep_view().len() != b.deep_view().len());
        return false;
    }
    let mut i: usize = 0;
    while i < a.len()
        invariant
            i <= a@.len(),
            a@.len() == b@.len(),
            forall|k: int| 0 <= k < i ==> a@[k]@ == b@[k]@,
        decreases a@.len() - i,
    {
        if !text_eq(a[i].as_str(), b[i].as_str()) {
            assert(a.deep_view()[i as int] != b.deep_view()[i as int]);
            return false;
        }
        i = i + 1;
    }
    assert(a.deep_view() =~= b.deep_view());
    true
}

/// The album-artist identifiers common to all tracks.
pub fn common_album_artist_id_list(tracks: &Vec<InspectedTrack>) -> (r: Option<Vec<String>>)
    ensures
        r.deep_view() == common_album_artist_ids(tracks.deep_view()),
{
    let ghost ts = tracks.deep_view();
    if tracks.len() == 0 {
        return None;
    }
    let first = &tracks[0].album_artist_ids;
    if first.len() == 0 {
        return None;
    }
    let mut i: usize = 0;
    while i < tracks.len()
        invariant
            i <= tracks@.len(),
            ts == tracks.deep_view(),
            ts.len() > 0,
            ts[0].album_artist_ids == first.deep_view(),
            forall|k: int| 0 <= k < i ==> (#[trigger] ts[k]).album_artist_ids == first.deep_view(),
        decreases tracks@.len() - i,
    {
        if !strings_eq(&tracks[i].album_artist_ids, first) {
            assert(ts[i as int].album_artist_ids != ts[0].album_artist_ids);
            return None;
        }
        i = i + 1;
    }
    Some(crate::domain::clone_strings(first))
}

/// The original year common to all tracks.
pub fn common_original_year(tracks: &Vec<InspectedTrack>) -> (r: Option<u16>)
    ensures
        r == common_year(tracks.deep_view()),
{
    let ghost ts = tracks.deep_view();
    if tracks.len() == 0 {
        return None;
    }
    let first = match tracks[0].original_year {
        Some(year) => year,
        None => return None,
    };
    let mut i: usize = 0;
    while i < tracks.len()
        invariant
            i <= tracks@.len(),
            ts == tracks.deep_view(),
            ts.len() > 0,
            ts[0].original_year == Some(first),
            forall|k: int| 0 <= k < i ==> (#[trigger] ts[k]).original_year == Some(first),
        decreases tracks@.len() - i,
    {
        let same = match tracks[i].original_year {
            Some(year) => year == first,
            None => false,
        };
        if !same {
            assert(ts[i as int].original_year != ts[0].original_year);
            return None;
        }
        i = i + 1;
    }
    Some(first)
}

// ---------------------------------------------------------------------------
// Mapping all source tracks
// ---------------------------------------------------------------------------

/// The state after mapping a prefix of the source tracks.
pub struct MapState {
    pub used: Seq<bool>,
    pub mappings: Seq<TrackMapping>,
    pub score: int,
    pub reasons: Seq<Seq<char>>,
}

/// Maps the first `n` source tracks, in order, each onto its best still-free candidate track.
pub open spec fn map_tracks(srcs: Seq<InspectedTrackV>, tgts: Seq<ReleaseTrackV>, n: nat) -> MapState
    decreases n,
{
    if n == 0 {
        MapState {
            used: Seq::new(tgts.len(), |i: int| false),
            mappings: Seq::<TrackMapping>::empty(),
            score: 0,
            reasons: Seq::<Seq<char>>::empty(),
        }
    } else {
        let st = map_tracks(srcs, tgts, (n - 1) as nat);
        let s = srcs[n - 1];
        match best_track_spec(s, tgts, st.used) {
            None => MapState {
                reasons: st.reasons.push(s.source_name + " has no unique candidate track"@),
                ..st
            },
            Some((ci, basis)) => MapState {
                used: st.used.update(ci, true),
                mappings: st.mappings.push(
                    TrackMapping { source_index: (n - 1) as usize, candidate_index: ci as usize, basis },
                ),
                score: st.score + evidence_score(s, tgts[ci]),
                reasons: st.reasons + evidence_reasons(s, tgts[ci]),
            },
        }
    }
}

pub proof fn lemma_evidence_bounds(s: InspectedTrackV, t: ReleaseTrackV)
    ensures
        -20 <= evidence_score(s, t) <= 670,
{
}

/// Facts about the mapping of the first `n` source tracks.
pub proof fn lemma_map_tracks(srcs: Seq<InspectedTrackV>, tgts: Seq<ReleaseTrackV>, n: nat)
    requires
        n <= srcs.len(),
    ensures
        map_tracks(srcs, tgts, n).used.len() == tgts.len(),
        map_tracks(srcs, tgts, n).mappings.len() <= n,
        -20 * n <= map_tracks(srcs, tgts, n).score <= 670 * n,
        forall|k: int| 0 <= k < map_tracks(srcs, tgts, n).mappings.len() ==> {
            let m = #[trigger] map_tracks(srcs, tgts, n).mappings[k];
            &&& m.source_index < n
            &&& m.candidate_index < tgts.len()
        },
    decreases n,
{
    if n > 0 {
        lemma_map_tracks(srcs, tgts, (n - 1) as nat);
        let st = map_tracks(srcs, tgts, (n - 1) as nat);
        let s = srcs[n - 1];
        lemma_hits_free(HitKind::Recording, s, tgts, st.used, tgts.len());
        lemma_hits_free(HitKind::TitleDuration, s, tgts, st.used, tgts.len());
        lemma_hits_free(HitKind::Position, s, tgts, st.used, tgts.len());
        match best_track_spec(s, tgts, st.used) {
            None => {},
            Some((ci, basis)) => {
                lemma_evidence_bounds(s, tgts[ci]);
                let now = map_tracks(srcs, tgts, n);
                assert forall|k: int| 0 <= k < now.mappings.len() implies {
                    let m = #[trigger] now.mappings[k];
                    &&& m.source_index < n
                    &&& m.candidate_index < tgts.len()
                } by {
                    if k < st.mappings.len() {
                        assert(now.mappings[k] == st.mappings[k]);
                    }
                }
            },
        }
    }
}


// ---------------------------------------------------------------------------
// Ranking one candidate
// ---------------------------------------------------------------------------

/// A list holding `text` when `b` holds, and nothing otherwise.
pub open spec fn reason_if(b: bool, text: Seq<char>) -> Seq<Seq<char>> {
    if b { seq![text] } else { Seq::<Seq<char>>::empty() }
}

pub open spec fn count_compatible(kind: SourceKind, ts: Seq<InspectedTrackV>, c: CandidateReleaseV) -> bool {
    kind != SourceKind::AlbumDirectory || ts.len() == c.tracks.len()
}

pub open spec fn count_points(kind: SourceKind, ts: Seq<InspectedTrackV>, c: CandidateReleaseV) -> int {
    if kind == SourceKind::AlbumDirectory {
        if ts.len() == c.tracks.len() { 120 } else { -300 }
    } else {
        0
    }
}

pub open spec fn count_reasons(kind: SourceKind, ts: Seq<InspectedTrackV>, c: CandidateReleaseV) -> Seq<Seq<char>> {
    if kind == SourceKind::AlbumDirectory {
        if ts.len() == c.tracks.len() {
            seq!["track count agrees at "@ + decimal(ts.len())]
        } else {
            seq!["track count differs: source "@ + decimal(ts.len()) + ", candidate "@ + decimal(c.tracks.len())]
        }
    } else {
        Seq::<Seq<char>>::empty()
    }
}

/// The mapping of every source track onto the candidate.
pub open spec fn mapped(ts: Seq<InspectedTrackV>, c: CandidateReleaseV) -> MapState {
    map_tracks(ts, c.tracks, ts.len())
}

pub open spec fn album_agrees(ts: Seq<InspectedTrackV>, c: CandidateReleaseV) -> bool {
    same_key(common_text(ts, TextField::Album), c.title)
}

pub open spec fn album_artist_agrees(ts: Seq<InspectedTrackV>, c: CandidateReleaseV) -> bool {
    same_key(common_text(ts, TextField::AlbumArtist), c.album_artist.display)
}

pub open spec fn release_group_agrees(ts: Seq<InspectedTrackV>, c: CandidateReleaseV) -> bool {
    common_text(ts, TextField::ReleaseGroupId) is Some && c.release_group_id == common_text(ts, TextField::ReleaseGroupId)
}

pub open spec fn release_group_conflicts(ts: Seq<InspectedTrackV>, c: CandidateReleaseV) -> bool {
    common_text(ts, TextField::ReleaseGroupId) is Some && c.release_group_id is Some
        && c.release_group_id != common_text(ts, TextField::ReleaseGroupId)
}

pub open spec fn album_artist_ids_agree(ts: Seq<InspectedTrackV>, c: CandidateReleaseV) -> bool {
    common_album_artist_ids(ts) is Some && credit_has_ids(c.album_artist, common_album_artist_ids(ts)->0)
}

pub open spec fn year_agrees(ts: Seq<InspectedTrackV>, c: CandidateReleaseV) -> bool {
    common_year(ts) is Some && common_year(ts) == c.original_year
}

pub open spec fn single_title_agrees(kind: SourceKind, ts: Seq<InspectedTrackV>, c: CandidateReleaseV) -> bool {
    kind == SourceKind::LooseFile && ts.len() > 0 && same_key(ts[0].title, c.title)
}

/// Every source track maps uniquely and, for an album, the track counts agree.
pub open spec fn rank_complete(kind: SourceKind, ts: Seq<InspectedTrackV>, c: CandidateReleaseV) -> bool {
    count_compatible(kind, ts, c) && mapped(ts, c).mappings.len() == ts.len()
}

/// The total score of a candidate.
pub open spec fn rank_score(kind: SourceKind, ts: Seq<InspectedTrackV>, c: CandidateReleaseV) -> int {
    count_points(kind, ts, c) + mapped(ts, c).score
    + (if album_agrees(ts, c) { 60int } else { 0int })
    + (if album_artist_agrees(ts, c) { 40int } else { 0int })
    + (if release_group_agrees(ts, c) { 500int } else if release_group_conflicts(ts, c) { -500int } else { 0int })
    + (if album_artist_ids_agree(ts, c) { 180int } else { 0int })
    + (if year_agrees(ts, c) { 10int } else { 0int })
    + (if single_title_agrees(kind, ts, c) { 60int } else { 0int })
}

/// The reason recorded when every source track maps.
pub open spec fn complete_reason(n: nat) -> Seq<char> {
    "all "@ + decimal(n) + " source "@ + (if n == 1 { "track"@ } else { "tracks"@ }) + " "@
        + (if n == 1 { "maps"@ } else { "map"@ })
        + " uniquely using identifiers, positions, or title-and-duration evidence"@
}

/// The reasons recorded for a candidate, in order.
pub open spec fn rank_reasons(kind: SourceKind, ts: Seq<InspectedTrackV>, c: CandidateReleaseV) -> Seq<Seq<char>> {
    count_reasons(kind, ts, c) + mapped(ts, c).reasons
    + reason_if(album_agrees(ts, c), "album title agrees"@)
    + reason_if(album_artist_agrees(ts, c), "album artist agrees"@)
    + (if release_group_agrees(ts, c) {
        seq!["release-group identifier agrees"@]
    } else if release_group_conflicts(ts, c) {
        seq!["release-group identifier conflicts"@]
    } else {
        Seq::<Seq<char>>::empty()
    })
    + reason_if(album_artist_ids_agree(ts, c), "album-artist identifiers agree"@)
    + reason_if(year_agrees(ts, c), "original year agrees"@)
    + reason_if(single_title_agrees(kind, ts, c), "single title agrees with the selected track"@)
    + reason_if(rank_complete(kind, ts, c), complete_reason(ts.len()))
}

/// Some mapping rests on a recording identifier or on title and duration.
pub open spec fn meaningful_evidence(ts: Seq<InspectedTrackV>, c: CandidateReleaseV) -> bool {
    exists|k: int| 0 <= k < mapped(ts, c).mappings.len()
        && (#[trigger] mapped(ts, c).mappings[k]).basis != TrackMatchBasis::PositionFallback
}

/// Both sides of mapping `m` carry recording identifiers, and they differ.
pub open spec fn mapping_conflicts(ts: Seq<InspectedTrackV>, c: CandidateReleaseV, m: TrackMapping) -> bool {
    let s = ts[m.source_index as int];
    let t = c.tracks[m.candidate_index as int];
    s.recording_id is Some && t.recording_id is Some && s.recording_id != t.recording_id
}

pub open spec fn identifier_conflict(ts: Seq<InspectedTrackV>, c: CandidateReleaseV) -> bool {
    release_group_conflicts(ts, c) || exists|k: int| 0 <= k < mapped(ts, c).mappings.len()
        && #[trigger] mapping_conflicts(ts, c, mapped(ts, c).mappings[k])
}

pub open spec fn album_title_and_track_artist(ts: Seq<InspectedTrackV>, c: CandidateReleaseV) -> bool {
    album_agrees(ts, c) && same_key(common_text(ts, TextField::Artist), c.album_artist.display)
}

pub open spec fn loose_text_identity(kind: SourceKind, ts: Seq<InspectedTrackV>, c: CandidateReleaseV) -> bool {
    kind == SourceKind::LooseFile && mapped(ts, c).mappings.len() > 0 && {
        let m = mapped(ts, c).mappings[0];
        let s = ts[m.source_index as int];
        let t = c.tracks[m.candidate_index as int];
        same_key(s.title, t.title) && same_key(s.artist, t.artist_credit.display)
    }
}

pub open spec fn all_recording_ids(ts: Seq<InspectedTrackV>, c: CandidateReleaseV) -> bool {
    mapped(ts, c).mappings.len() > 0 && forall|k: int| 0 <= k < mapped(ts, c).mappings.len()
        ==> (#[trigger] mapped(ts, c).mappings[k]).basis == TrackMatchBasis::RecordingId
}

/// Some identifier or textual evidence says this is the source's release.
pub open spec fn credible_identity(kind: SourceKind, ts: Seq<InspectedTrackV>, c: CandidateReleaseV) -> bool {
    release_group_agrees(ts, c) || album_artist_ids_agree(ts, c) || all_recording_ids(ts, c)
        || (album_agrees(ts, c) && album_artist_agrees(ts, c)) || album_title_and_track_artist(ts, c)
        || loose_text_identity(kind, ts, c)
}

/// A candidate with the evidence gathered for it.
#[derive(Debug, PartialEq, Eq)]
pub struct RankedCandidate {
    pub candidate: CandidateRelease,
    pub mappings: Vec<TrackMapping>,
    pub reasons: Vec<MatchReason>,
    pub score: i32,
    pub complete: bool,
    pub credible_identity: bool,
    pub meaningful_track_evidence: bool,
    pub identifier_conflict: bool,
}

impl RankedCandidate {
    pub open spec fn score_value(self) -> int {
        self.score as int
    }

    pub open spec fn complete_flag(self) -> bool {
        self.complete
    }

    pub open spec fn credible_flag(self) -> bool {
        self.credible_identity
    }

    pub open spec fn meaningful_flag(self) -> bool {
        self.meaningful_track_evidence
    }

    pub open spec fn conflict_flag(self) -> bool {
        self.identifier_conflict
    }

    /// Complete, credible, backed by meaningful track evidence, and free of identifier conflicts.
    pub open spec fn credible(self) -> bool {
        self.complete_flag() && self.credible_flag() && self.meaningful_flag() && !self.conflict_flag()
    }

    pub fn score(&self) -> (r: i32)
        ensures
            r as int == self.score_value(),
    {
        self.score
    }

    pub fn is_complete(&self) -> (r: bool)
        ensures
            r == self.complete_flag(),
    {
        self.complete
    }

    pub fn is_credible(&self) -> (r: bool)
        ensures
            r == self.credible(),
    {
        self.complete && self.credible_identity && self.meaningful_track_evidence && !self.identifier_conflict
    }
}

impl Clone for RankedCandidate {
    fn clone(&self) -> (r: Self)
        ensures
            r.candidate.deep_view() == self.candidate.deep_view(),
            r.mappings@ == self.mappings@,
            r.reasons.deep_view() == self.reasons.deep_view(),
            r.score_value() == self.score_value(),
            r.complete_flag() == self.complete_flag(),
            r.credible_flag() == self.credible_flag(),
            r.meaningful_flag() == self.meaningful_flag(),
            r.conflict_flag() == self.conflict_flag(),
    {
        let mut mappings: Vec<TrackMapping> = Vec::new();
        let mut i: usize = 0;
        while i < self.mappings.len()
            invariant
                i <= self.mappings@.len(),
                mappings@ == self.mappings@.take(i as int),
            decreases self.mappings@.len() - i,
        {
            mappings.push(self.mappings[i]);
            i = i + 1;
            assert(mappings@ =~= self.mappings@.take(i as int));
        }
        assert(self.mappings@.take(self.mappings@.len() as int) =~= self.mappings@);
        let mut reasons: Vec<MatchReason> = Vec::new();
        let mut j: usize = 0;
        while j < self.reasons.len()
            invariant
                j <= self.reasons@.len(),
                reasons@.len() == j,
                forall|k: int| 0 <= k < j ==> (#[trigger] reasons@[k]).deep_view() == self.reasons@[k].deep_view(),
            decreases self.reasons@.len() - j,
        {
            reasons.push(self.reasons[j].clone());
            j = j + 1;
        }
        assert(reasons.deep_view() =~= self.reasons.deep_view());
        RankedCandidate {
            candidate: self.candidate.clone(),
            mappings,
            reasons,
            score: self.score,
            complete: self.complete,
            credible_identity: self.credible_identity,
            meaningful_track_evidence: self.meaningful_track_evidence,
            identifier_conflict: self.identifier_conflict,
        }
    }
}

/// `r` is exactly what ranking `c` against the source tracks `ts` gives.
pub open spec fn ranked_as(kind: SourceKind, ts: Seq<InspectedTrackV>, c: CandidateReleaseV, r: RankedCandidate) -> bool {
    &&& r.candidate.deep_view() == c
    &&& r.mappings@ == mapped(ts, c).mappings
    &&& r.reasons.deep_view() == rank_reasons(kind, ts, c)
    &&& r.score_value() == rank_score(kind, ts, c)
    &&& r.complete_flag() == rank_complete(kind, ts, c)
    &&& r.credible_flag() == credible_identity(kind, ts, c)
    &&& r.meaningful_flag() == meaningful_evidence(ts, c)
    &&& r.conflict_flag() == identifier_conflict(ts, c)
}

/// Appends a reason with summary `text`.
fn push_reason(reasons: &mut Vec<MatchReason>, text: String)
    ensures
        final(reasons).deep_view() == old(reasons).deep_view().push(text@),
{
    let ghost before = reasons.deep_view();
    reasons.push(MatchReason { summary: text });
    assert(reasons.deep_view() =~= before.push(text@));
}

/// Appends the reasons of `more` to `reasons`.
fn extend_reasons(reasons: &mut Vec<MatchReason>, more: Vec<MatchReason>)
    ensures
        final(reasons).deep_view() == old(reasons).deep_view() + more.deep_view(),
{
    let ghost before = reasons.deep_view();
    let ghost all = more.deep_view();
    let mut k: usize = 0;
    while k < more.len()
        invariant
            k <= more@.len(),
            all == more.deep_view(),
            reasons.deep_view() == before + all.take(k as int),
        decreases more@.len() - k,
    {
        let text = more[k].summary.clone();
        assert(text@ == all[k as int]);
        push_reason(reasons, text);
        k = k + 1;
        assert(all.take(k as int) =~= all.take(k - 1).push(all[k - 1]));
    }
    assert(all.take(k as int) =~= all);
}

/// The points and reasons from comparing track counts.
fn count_evidence(inspection: &Inspection, candidate: &CandidateRelease) -> (r: (i32, Vec<MatchReason>))
    ensures
        r.0 as int == count_points(inspection.kind, inspection.tracks.deep_view(), candidate.deep_view()),
        r.1.deep_view() == count_reasons(inspection.kind, inspection.tracks.deep_view(), candidate.deep_view()),
{
    let n = inspection.tracks.len();
    let mut reasons: Vec<MatchReason> = Vec::new();
    let mut score: i32 = 0;
    if inspection.kind.requires_complete_release() {
        if n == candidate.tracks.len() {
            score = 120;
            let mut text = owned("track count agrees at ");
            push_decimal(&mut text, n as u64);
            push_reason(&mut reasons, text);
        } else {
            score = -300;
            let mut text = owned("track count differs: source ");
            push_decimal(&mut text, n as u64);
            append(&mut text, ", candidate ");
            push_decimal(&mut text, candidate.tracks.len() as u64);
            push_reason(&mut reasons, text);
        }
    }
    assert(reasons.deep_view() =~= count_reasons(inspection.kind, inspection.tracks.deep_view(), candidate.deep_view()));
    (score, reasons)
}

/// Maps every source track onto the candidate, gathering points and reasons.
fn map_all(inspection: &Inspection, candidate: &CandidateRelease) -> (r: (Vec<TrackMapping>, i32, Vec<MatchReason>))
    requires
        inspection.tracks@.len() <= MAX_SCORED_TRACKS,
    ensures
        r.0@ == mapped(inspection.tracks.deep_view(), candidate.deep_view()).mappings,
        r.1 as int == mapped(inspection.tracks.deep_view(), candidate.deep_view()).score,
        r.2.deep_view() == mapped(inspection.tracks.deep_view(), candidate.deep_view()).reasons,
{
    let ghost ts = inspection.tracks.deep_view();
    let ghost c = candidate.deep_view();
    let n = inspection.tracks.len();
    let mut used: Vec<bool> = Vec::new();
    let mut u: usize = 0;
    while u < candidate.tracks.len()
        invariant
            u <= candidate.tracks@.len(),
            used@ == Seq::new(u as nat, |i: int| false),
        decreases candidate.tracks@.len() - u,
    {
        used.push(false);
        u = u + 1;
        assert(used@ =~= Seq::new(u as nat, |i: int| false));
    }
    let mut mappings: Vec<TrackMapping> = Vec::new();
    let mut score: i32 = 0;
    let mut reasons: Vec<MatchReason> = Vec::new();
    let mut i: usize = 0;
    assert(reasons.deep_view() =~= map_tracks(ts, c.tracks, 0).reasons);
    while i < n
        invariant
            n == inspection.tracks@.len(),
            n <= MAX_SCORED_TRACKS,
            i <= n,
            ts == inspection.tracks.deep_view(),
            c == candidate.deep_view(),
            used@ == map_tracks(ts, c.tracks, i as nat).used,
            mappings@ == map_tracks(ts, c.tracks, i as nat).mappings,
            score as int == map_tracks(ts, c.tracks, i as nat).score,
            reasons.deep_view() == map_tracks(ts, c.tracks, i as nat).reasons,
        decreases n - i,
    {
        proof {
            lemma_map_tracks(ts, c.tracks, i as nat);
        }
        let ghost st = map_tracks(ts, c.tracks, i as nat);
        let source = &inspection.tracks[i];
        assert(source.deep_view() == ts[i as int]);
        let found = best_track(source, &candidate.tracks, &used);
        let track_count = candidate.tracks.len();
        proof {
            let sp = best_track_spec(ts[i as int], c.tracks, st.used);
            assert(c.tracks == candidate.tracks.deep_view());
            if sp is Some {
                assert(found == Some(((sp->0).0 as usize, (sp->0).1)));
                assert(0 <= (sp->0).0 < c.tracks.len());
                assert(c.tracks.len() == track_count);
                assert(((sp->0).0 as usize) as int == (sp->0).0);
            }
        }
        match found {
            None => {
                let mut text = source.source_name.clone();
                append(&mut text, " has no unique candidate track");
                push_reason(&mut reasons, text);
            },
            Some((candidate_index, basis)) => {
                proof {
                    let sp = best_track_spec(ts[i as int], c.tracks, st.used);
                    assert(c.tracks == candidate.tracks.deep_view());
                    assert(used@ == st.used);
                    assert(sp == best_track_spec(source.deep_view(), candidate.tracks.deep_view(), used@));
                    assert(sp is Some);
                    assert(0 <= (sp->0).0 < c.tracks.len());
                    assert((sp->0).0 == candidate_index as int);
                }
                let target = &candidate.tracks[candidate_index];
                assert(target.deep_view() == c.tracks[candidate_index as int]);
                let (points, more) = track_evidence(source, target);
                proof {
                    lemma_evidence_bounds(ts[i as int], c.tracks[candidate_index as int]);
                }
                score = score + points;
                extend_reasons(&mut reasons, more);
                used.set(candidate_index, true);
                mappings.push(TrackMapping { source_index: i, candidate_index, basis });
            },
        }
        i = i + 1;
    }
    (mappings, score, reasons)
}

/// Points and reasons from release-level agreement, appended to `reasons`.
#[verifier::rlimit(60)]
fn release_evidence(inspection: &Inspection, candidate: &CandidateRelease, reasons: &mut Vec<MatchReason>) -> (r: (i32, bool, bool, bool, bool, bool))
    ensures
        ({
            let ts = inspection.tracks.deep_view();
            let c = candidate.deep_view();
            let kind = inspection.kind;
            &&& r.0 as int == (if album_agrees(ts, c) { 60int } else { 0int })
                + (if album_artist_agrees(ts, c) { 40int } else { 0int })
                + (if release_group_agrees(ts, c) { 500int } else if release_group_conflicts(ts, c) { -500int } else { 0int })
                + (if album_artist_ids_agree(ts, c) { 180int } else { 0int })
                + (if year_agrees(ts, c) { 10int } else { 0int })
                + (if single_title_agrees(kind, ts, c) { 60int } else { 0int })
            &&& r.1 == album_agrees(ts, c)
            &&& r.2 == album_artist_agrees(ts, c)
            &&& r.3 == release_group_agrees(ts, c)
            &&& r.4 == release_group_conflicts(ts, c)
            &&& r.5 == album_artist_ids_agree(ts, c)
            &&& final(reasons).deep_view() == old(reasons).deep_view()
                + reason_if(album_agrees(ts, c), "album title agrees"@)
                + reason_if(album_artist_agrees(ts, c), "album artist agrees"@)
                + (if release_group_agrees(ts, c) {
                    seq!["release-group identifier agrees"@]
                } else if release_group_conflicts(ts, c) {
                    seq!["release-group identifier conflicts"@]
                } else {
                    Seq::<Seq<char>>::empty()
                })
                + reason_if(album_artist_ids_agree(ts, c), "album-artist identifiers agree"@)
                + reason_if(year_agrees(ts, c), "original year agrees"@)
                + reason_if(single_title_agrees(kind, ts, c), "single title agrees with the selected track"@)
        }),
{
    let ghost ts = inspection.tracks.deep_view();
    let ghost c = candidate.deep_view();
    let ghost r0 = reasons.deep_view();
    let mut score: i32 = 0;
    let album = common_string(&inspection.tracks, TextField::Album);
    let album_ok = opt_same_normalized(&album, candidate.title.as_str());
    if album_ok {
        score = score + 60;
        push_reason(reasons, owned("album title agrees"));
    }
    let ghost r1 = reasons.deep_view();
    assert(r1 == r0 + reason_if(album_agrees(ts, c), "album title agrees"@));
    let album_artist = common_string(&inspection.tracks, TextField::AlbumArtist);
    let album_artist_ok = opt_same_normalized(&album_artist, candidate.album_artist.display.as_str());
    if album_artist_ok {
        score = score + 40;
        push_reason(reasons, owned("album artist agrees"));
    }
    let ghost r2 = reasons.deep_view();
    assert(r2 == r1 + reason_if(album_artist_agrees(ts, c), "album artist agrees"@));
    let group = common_string(&inspection.tracks, TextField::ReleaseGroupId);
    let group_agrees = group.is_some() && opt_text_eq(&candidate.release_group_id, &group);
    let group_conflicts = group.is_some() && candidate.release_group_id.is_some()
        && !opt_text_eq(&candidate.release_group_id, &group);
    if group_agrees {
        score = score + 500;
        push_reason(reasons, owned("release-group identifier agrees"));
    } else if group_conflicts {
        score = score - 500;
        push_reason(reasons, owned("release-group identifier conflicts"));
    }
    let ghost r3 = reasons.deep_view();
    assert(r3 == r2 + (if release_group_agrees(ts, c) {
        seq!["release-group identifier agrees"@]
    } else if release_group_conflicts(ts, c) {
        seq!["release-group identifier conflicts"@]
    } else {
        Seq::<Seq<char>>::empty()
    }));
    let ids_agree = match common_album_artist_id_list(&inspection.tracks) {
        Some(ids) => credit_contains_ids(&candidate.album_artist, &ids),
        None => false,
    };
    if ids_agree {
        score = score + 180;
        push_reason(reasons, owned("album-artist identifiers agree"));
    }
    let ghost r4 = reasons.deep_view();
    assert(r4 == r3 + reason_if(album_artist_ids_agree(ts, c), "album-artist identifiers agree"@));
    let year_ok = match common_original_year(&inspection.tracks) {
        Some(year) => match candidate.original_year {
            Some(other) => year == other,
            None => false,
        },
        None => false,
    };
    if year_ok {
        score = score + 10;
        push_reason(reasons, owned("original year agrees"));
    }
    let ghost r5 = reasons.deep_view();
    assert(r5 == r4 + reason_if(year_agrees(ts, c), "original year agrees"@));
    let single_ok = inspection.kind.is_loose_file() && inspection.tracks.len() > 0
        && opt_same_normalized(&inspection.tracks[0].title, candidate.title.as_str());
    if single_ok {
        score = score + 60;
        push_reason(reasons, owned("single title agrees with the selected track"));
    }
    (score, album_ok, album_artist_ok, group_agrees, group_conflicts, ids_agree)
}

/// Facts about the mappings: whether any is meaningful, any conflicts on recording
/// identifiers, and whether all rest on recording identifiers.
fn mapping_flags(inspection: &Inspection, candidate: &CandidateRelease, mappings: &Vec<TrackMapping>) -> (r: (bool, bool, bool))
    requires
        inspection.tracks@.len() <= MAX_SCORED_TRACKS,
        mappings@ == mapped(inspection.tracks.deep_view(), candidate.deep_view()).mappings,
    ensures
        ({
            let ts = inspection.tracks.deep_view();
            let c = candidate.deep_view();
            let ms = mapped(ts, c).mappings;
            &&& r.0 == meaningful_evidence(ts, c)
            &&& r.1 == exists|j: int| 0 <= j < ms.len() && #[trigger] mapping_conflicts(ts, c, ms[j])
            &&& r.2 == all_recording_ids(ts, c)
        }),
{
    let ghost ts = inspection.tracks.deep_view();
    let ghost c = candidate.deep_view();
    let ghost ms = mapped(ts, c).mappings;
    proof {
        lemma_map_tracks(ts, c.tracks, ts.len());
    }
    let mut meaningful = false;
    let mut conflict = false;
    let mut all_recordings = true;
    let mut k: usize = 0;
    while k < mappings.len()
        invariant
            k <= mappings@.len(),
            mappings@ == ms,
            ts == inspection.tracks.deep_view(),
            c == candidate.deep_view(),
            forall|j: int| 0 <= j < ms.len() ==> {
                let m = #[trigger] ms[j];
                &&& m.source_index < ts.len()
                &&& m.candidate_index < c.tracks.len()
            },
            meaningful == exists|j: int| 0 <= j < k && (#[trigger] ms[j]).basis != TrackMatchBasis::PositionFallback,
            conflict == exists|j: int| 0 <= j < k && #[trigger] mapping_conflicts(ts, c, ms[j]),
            all_recordings == forall|j: int| 0 <= j < k ==> (#[trigger] ms[j]).basis == TrackMatchBasis::RecordingId,
        decreases mappings@.len() - k,
    {
        let m = mappings[k];
        assert(m == ms[k as int]);
        let not_position = match m.basis {
            TrackMatchBasis::PositionFallback => false,
            _ => true,
        };
        let is_recording = match m.basis {
            TrackMatchBasis::RecordingId => true,
            _ => false,
        };
        let source_id = &inspection.tracks[m.source_index].recording_id;
        let target_id = &candidate.tracks[m.candidate_index].recording_id;
        assert(source_id.deep_view() == ts[m.source_index as int].recording_id);
        assert(target_id.deep_view() == c.tracks[m.candidate_index as int].recording_id);
        let this_conflicts = source_id.is_some() && target_id.is_some() && !opt_text_eq(source_id, target_id);
        assert(this_conflicts == mapping_conflicts(ts, c, ms[k as int]));
        if not_position {
            meaningful = true;
        }
        if this_conflicts {
            conflict = true;
        }
        if !is_recording {
            all_recordings = false;
        }
        k = k + 1;
    }
    (meaningful, conflict, mappings.len() > 0 && all_recordings)
}

/// Whether the first mapping of a loose file agrees on title and artist.
fn loose_identity(inspection: &Inspection, candidate: &CandidateRelease, mappings: &Vec<TrackMapping>) -> (r: bool)
    requires
        inspection.tracks@.len() <= MAX_SCORED_TRACKS,
        mappings@ == mapped(inspection.tracks.deep_view(), candidate.deep_view()).mappings,
    ensures
        r == loose_text_identity(inspection.kind, inspection.tracks.deep_view(), candidate.deep_view()),
{
    let ghost ts = inspection.tracks.deep_view();
    let ghost c = candidate.deep_view();
    proof {
        lemma_map_tracks(ts, c.tracks, ts.len());
    }
    if inspection.kind.is_loose_file() && mappings.len() > 0 {
        let m = mappings[0];
        assert(m == mapped(ts, c).mappings[0]);
        let source = &inspection.tracks[m.source_index];
        let target = &candidate.tracks[m.candidate_index];
        assert(source.deep_view() == ts[m.source_index as int]);
        assert(target.deep_view() == c.tracks[m.candidate_index as int]);
        opt_same_normalized(&source.title, target.title.as_str())
            && opt_same_normalized(&source.artist, target.artist_credit.display.as_str())
    } else {
        false
    }
}

/// The reason recorded when every source track maps.
fn complete_reason_text(n: usize) -> (r: String)
    ensures
        r@ == complete_reason(n as nat),
{
    let mut text = owned("all ");
    push_decimal(&mut text, n as u64);
    append(&mut text, " source ");
    if n == 1 {
        append(&mut text, "track");
    } else {
        append(&mut text, "tracks");
    }
    append(&mut text, " ");
    if n == 1 {
        append(&mut text, "maps");
    } else {
        append(&mut text, "map");
    }
    append(&mut text, " uniquely using identifiers, positions, or title-and-duration evidence");
    text
}

/// Scores `candidate` against the source and records the evidence.
#[verifier::rlimit(60)]
pub fn rank(inspection: &Inspection, candidate: CandidateRelease) -> (r: RankedCandidate)
    requires
        inspection.tracks@.len() <= MAX_SCORED_TRACKS,
    ensures
        ranked_as(inspection.kind, inspection.tracks.deep_view(), candidate.deep_view(), r),
{
    let ghost ts = inspection.tracks.deep_view();
    let ghost c = candidate.deep_view();
    let ghost kind = inspection.kind;
    let n = inspection.tracks.len();
    proof {
        lemma_map_tracks(ts, c.tracks, ts.len());
    }
    let (count_score, mut reasons) = count_evidence(inspection, &candidate);
    let (mappings, map_score, map_reasons) = map_all(inspection, &candidate);
    extend_reasons(&mut reasons, map_reasons);
    let (release_score, album_ok, album_artist_ok, group_agrees, group_conflicts, ids_agree) =
        release_evidence(inspection, &candidate, &mut reasons);
    let score = count_score + map_score + release_score;
    let count_ok = !inspection.kind.requires_complete_release() || n == candidate.tracks.len();
    let complete = count_ok && mappings.len() == n;
    if complete {
        push_reason(&mut reasons, complete_reason_text(n));
    }
    assert(reasons.deep_view() =~= rank_reasons(kind, ts, c));
    let (meaningful, recording_conflict, all_recordings) = mapping_flags(inspection, &candidate, &mappings);
    let track_artist = common_string(&inspection.tracks, TextField::Artist);
    let track_artist_ok = opt_same_normalized(&track_artist, candidate.album_artist.display.as_str());
    let loose_ok = loose_identity(inspection, &candidate, &mappings);
    let credible = group_agrees || ids_agree || all_recordings || (album_ok && album_artist_ok)
        || (album_ok && track_artist_ok) || loose_ok;
    RankedCandidate {
        candidate,
        mappings,
        reasons,
        score,
        complete,
        credible_identity: credible,
        meaningful_track_evidence: meaningful,
        identifier_conflict: group_conflicts || recording_conflict,
    }
}


// ---------------------------------------------------------------------------
// Deciding among candidates
// ---------------------------------------------------------------------------

/// The outcome of matching.
#[derive(Debug, PartialEq, Eq)]
pub enum MatchDecision {
    /// One candidate is clearly right; all usable candidates are kept for review.
    Selected { selected: Box<RankedCandidate>, candidates: Vec<RankedCandidate> },
    /// Usable candidates exist, but the user must choose.
    NeedsChoice(Vec<RankedCandidate>),
    /// No candidate maps the source completely.
    NoUsableMatch(Vec<RankedCandidate>),
}

impl MatchDecision {
    /// The candidates offered with this decision.
    pub fn candidates(&self) -> (r: &[RankedCandidate])
        ensures
            r@ == match self {
                MatchDecision::Selected { candidates, .. } => candidates@,
                MatchDecision::NeedsChoice(candidates) => candidates@,
                MatchDecision::NoUsableMatch(candidates) => candidates@,
            },
    {
        match self {
            MatchDecision::Selected { candidates, .. } => candidates.as_slice(),
            MatchDecision::NeedsChoice(candidates) => candidates.as_slice(),
            MatchDecision::NoUsableMatch(candidates) => candidates.as_slice(),
        }
    }
}

/// Thresholds for accepting a candidate without asking.
#[derive(Clone, Copy, Debug, PartialEq, Eq)]
pub struct MatchPolicy {
    minimum_auto_score: i32,
    minimum_lead: i32,
}

impl MatchPolicy {
    /// The score an album candidate needs before it may be accepted automatically.
    pub closed spec fn min_auto(self) -> int {
        self.minimum_auto_score as int
    }

    /// How far the best candidate must lead the runner-up.
    pub closed spec fn min_lead(self) -> int {
        self.minimum_lead as int
    }
}

impl Default for MatchPolicy {
    fn default() -> (r: Self)
        ensures
            r.min_auto() == 300,
            r.min_lead() == 60,
    {
        MatchPolicy { minimum_auto_score: 300, minimum_lead: 60 }
    }
}

/// Inserts `k` after every element of `sorted` whose score is at least `score(k)`.
pub open spec fn insert_desc(sorted: Seq<int>, k: int, score: spec_fn(int) -> int) -> Seq<int>
    decreases sorted.len(),
{
    if sorted.len() == 0 {
        seq![k]
    } else if score(sorted.last()) >= score(k) {
        sorted.push(k)
    } else {
        insert_desc(sorted.drop_last(), k, score).push(sorted.last())
    }
}

/// The indices `0..n` stably sorted by descending score.
pub open spec fn sort_desc(n: nat, score: spec_fn(int) -> int) -> Seq<int>
    decreases n,
{
    if n == 0 {
        Seq::<int>::empty()
    } else {
        insert_desc(sort_desc((n - 1) as nat, score), n - 1, score)
    }
}

/// The elements of `s` satisfying `p`, in order.
pub open spec fn keep(s: Seq<int>, p: spec_fn(int) -> bool) -> Seq<int>
    decreases s.len(),
{
    if s.len() == 0 {
        s
    } else if p(s.last()) {
        keep(s.drop_last(), p).push(s.last())
    } else {
        keep(s.drop_last(), p)
    }
}

/// `x` clamped to the range of `i32`.
pub open spec fn saturate_i32(x: int) -> int {
    if x > i32::MAX { i32::MAX as int } else if x < i32::MIN { i32::MIN as int } else { x }
}

/// The planned outcome, over indices into the candidate list.
pub enum DecisionPlan {
    Selected(int, Seq<int>),
    NeedsChoice(Seq<int>),
    NoUsableMatch(Seq<int>),
}

pub open spec fn candidate_credible(kind: SourceKind, ts: Seq<InspectedTrackV>, c: CandidateReleaseV) -> bool {
    rank_complete(kind, ts, c) && credible_identity(kind, ts, c) && meaningful_evidence(ts, c)
        && !identifier_conflict(ts, c)
}

/// Law: a candidate whose release group differs from the one every source track
/// is tagged with scores 500 points less than the same candidate with no group,
/// records the conflict, carries an identifier conflict, and so is never credible
/// enough to be accepted without asking; one from the same group scores 500 more.
pub proof fn law_release_group_conflict_is_penalised(
    kind: SourceKind,
    ts: Seq<InspectedTrackV>,
    c: CandidateReleaseV,
    g: Seq<char>,
)
    requires
        ts.len() > 0,
        forall|i: int| 0 <= i < ts.len() ==> (#[trigger] ts[i]).release_group_id == Some(g),
    ensures
        ({
            let ungrouped = CandidateReleaseV { release_group_id: None, ..c };
            &&& (c.release_group_id matches Some(h) && h != g) ==> {
                &&& rank_score(kind, ts, c) + 500 == rank_score(kind, ts, ungrouped)
                &&& identifier_conflict(ts, c)
                &&& !candidate_credible(kind, ts, c)
                &&& rank_reasons(kind, ts, c).contains("release-group identifier conflicts"@)
            }
            &&& c.release_group_id == Some(g) ==> rank_score(kind, ts, c) == rank_score(kind, ts, ungrouped) + 500
            &&& !identifier_conflict(ts, ungrouped) ==> (identifier_conflict(ts, c) <==> (c.release_group_id matches Some(h) && h != g))
        }),
{
    let ungrouped = CandidateReleaseV { release_group_id: None, ..c };
    assert(field_of(ts[0], TextField::ReleaseGroupId) == Some(g));
    assert forall|i: int| 0 <= i < ts.len() implies #[trigger] same_key(
        field_of(ts[i], TextField::ReleaseGroupId),
        field_of(ts[0], TextField::ReleaseGroupId)->0,
    ) by {
        assert(field_of(ts[i], TextField::ReleaseGroupId) == Some(g));
    }
    assert(common_text(ts, TextField::ReleaseGroupId) == Some(g));
    assert(mapped(ts, ungrouped) == mapped(ts, c));
    assert forall|k: int| 0 <= k < mapped(ts, c).mappings.len() implies #[trigger] mapping_conflicts(
        ts,
        c,
        mapped(ts, c).mappings[k],
    ) == mapping_conflicts(ts, ungrouped, mapped(ts, ungrouped).mappings[k]) by {
        assert(ungrouped.tracks == c.tracks);
    }
    if c.release_group_id matches Some(h) && h != g {
        let reasons = rank_reasons(kind, ts, c);
        let before = count_reasons(kind, ts, c) + mapped(ts, c).reasons
            + reason_if(album_agrees(ts, c), "album title agrees"@)
            + reason_if(album_artist_agrees(ts, c), "album artist agrees"@);
        let rest = reason_if(album_artist_ids_agree(ts, c), "album-artist identifiers agree"@)
            + reason_if(year_agrees(ts, c), "original year agrees"@)
            + reason_if(single_title_agrees(kind, ts, c), "single title agrees with the selected track"@)
            + reason_if(rank_complete(kind, ts, c), complete_reason(ts.len()));
        assert(reasons =~= before + seq!["release-group identifier conflicts"@] + rest);
        assert(reasons[before.len() as int] == "release-group identifier conflicts"@);
    }
}

pub open spec fn is_single_kind(c: CandidateReleaseV) -> bool {
    c.kind is Single
}

/// Accept the first of `list` if it scores enough, leads clearly, is credible and is
/// not of an unusual release type; otherwise ask.
pub open spec fn final_choice(
    policy: MatchPolicy,
    kind: SourceKind,
    ts: Seq<InspectedTrackV>,
    cs: Seq<CandidateReleaseV>,
    list: Seq<int>,
) -> DecisionPlan {
    let best = list[0];
    let best_score = rank_score(kind, ts, cs[best]);
    let runner_up = if list.len() > 1 { rank_score(kind, ts, cs[list[1]]) } else { i32::MIN as int };
    let clear_lead = saturate_i32(best_score - runner_up) >= policy.min_lead();
    let accepted_kind = !(cs[best].kind is Other);
    let minimum = if kind == SourceKind::LooseFile { 120 } else { policy.min_auto() };
    if best_score >= minimum && clear_lead && candidate_credible(kind, ts, cs[best]) && accepted_kind {
        DecisionPlan::Selected(best, list)
    } else {
        DecisionPlan::NeedsChoice(list)
    }
}

/// The decision for candidates `cs` (by index).
pub open spec fn decide_spec(
    policy: MatchPolicy,
    kind: SourceKind,
    ts: Seq<InspectedTrackV>,
    cs: Seq<CandidateReleaseV>,
) -> DecisionPlan {
    let order = sort_desc(cs.len(), |k: int| rank_score(kind, ts, cs[k]));
    let usable = keep(order, |k: int| rank_complete(kind, ts, cs[k]));
    if cs.len() == 0 {
        DecisionPlan::NoUsableMatch(Seq::<int>::empty())
    } else if usable.len() == 0 {
        DecisionPlan::NoUsableMatch(order)
    } else if kind == SourceKind::LooseFile && (exists|j: int|
        0 <= j < usable.len() && candidate_credible(kind, ts, cs[#[trigger] usable[j]]) && is_single_kind(cs[usable[j]])) {
        let reordered = keep(usable, |k: int| is_single_kind(cs[k])) + keep(usable, |k: int| !is_single_kind(cs[k]));
        if exists|j: int| 0 <= j < usable.len() && candidate_credible(kind, ts, cs[#[trigger] usable[j]]) && !is_single_kind(cs[usable[j]]) {
            DecisionPlan::NeedsChoice(reordered)
        } else {
            final_choice(policy, kind, ts, cs, reordered)
        }
    } else {
        final_choice(policy, kind, ts, cs, usable)
    }
}

/// Each element of `v` is the ranking of the candidate named by `idx`.
pub open spec fn ranked_list(
    kind: SourceKind,
    ts: Seq<InspectedTrackV>,
    cs: Seq<CandidateReleaseV>,
    v: Seq<RankedCandidate>,
    idx: Seq<int>,
) -> bool {
    &&& v.len() == idx.len()
    &&& forall|j: int| 0 <= j < idx.len() ==> 0 <= #[trigger] idx[j] < cs.len()
    &&& forall|j: int| 0 <= j < idx.len() ==> ranked_as(kind, ts, cs[idx[j]], #[trigger] v[j])
}

/// `d` carries out `plan`.
pub open spec fn decision_matches(
    d: MatchDecision,
    plan: DecisionPlan,
    kind: SourceKind,
    ts: Seq<InspectedTrackV>,
    cs: Seq<CandidateReleaseV>,
) -> bool {
    match (d, plan) {
        (MatchDecision::Selected { selected, candidates }, DecisionPlan::Selected(best, list)) =>
            0 <= best < cs.len() && ranked_as(kind, ts, cs[best], *selected) && ranked_list(kind, ts, cs, candidates@, list),
        (MatchDecision::NeedsChoice(candidates), DecisionPlan::NeedsChoice(list)) =>
            ranked_list(kind, ts, cs, candidates@, list),
        (MatchDecision::NoUsableMatch(candidates), DecisionPlan::NoUsableMatch(list)) =>
            ranked_list(kind, ts, cs, candidates@, list),
        _ => false,
    }
}

proof fn lemma_insert_desc(sorted: Seq<int>, k: int, score: spec_fn(int) -> int, p: int)
    requires
        0 <= p <= sorted.len(),
        forall|j: int| p <= j < sorted.len() ==> score(#[trigger] sorted[j]) < score(k),
        p == 0 || score(sorted[p - 1]) >= score(k),
    ensures
        insert_desc(sorted, k, score) == sorted.take(p) + seq![k] + sorted.skip(p),
    decreases sorted.len(),
{
    if sorted.len() == 0 {
        assert(sorted.take(p) + seq![k] + sorted.skip(p) =~= seq![k]);
    } else if p == sorted.len() {
        assert(sorted.take(p) + seq![k] + sorted.skip(p) =~= sorted.push(k));
    } else {
        let d = sorted.drop_last();
        assert forall|j: int| p <= j < d.len() implies score(#[trigger] d[j]) < score(k) by {
            assert(d[j] == sorted[j]);
        }
        if p > 0 {
            assert(d[p - 1] == sorted[p - 1]);
        }
        lemma_insert_desc(d, k, score, p);
        assert(sorted.take(p) + seq![k] + sorted.skip(p) =~= (d.take(p) + seq![k] + d.skip(p)).push(sorted.last()));
    }
}

proof fn lemma_sort_desc_len(n: nat, score: spec_fn(int) -> int)
    ensures
        sort_desc(n, score).len() == n,
        forall|j: int| 0 <= j < n ==> 0 <= #[trigger] sort_desc(n, score)[j] < n,
    decreases n,
{
    if n > 0 {
        lemma_sort_desc_len((n - 1) as nat, score);
        lemma_insert_desc_members(sort_desc((n - 1) as nat, score), n - 1, score, n as int);
    }
}

proof fn lemma_insert_desc_members(sorted: Seq<int>, k: int, score: spec_fn(int) -> int, bound: int)
    requires
        0 <= k < bound,
        forall|j: int| 0 <= j < sorted.len() ==> 0 <= #[trigger] sorted[j] < bound,
    ensures
        insert_desc(sorted, k, score).len() == sorted.len() + 1,
        forall|j: int| 0 <= j < sorted.len() + 1 ==> 0 <= #[trigger] insert_desc(sorted, k, score)[j] < bound,
    decreases sorted.len(),
{
    if sorted.len() > 0 && score(sorted.last()) < score(k) {
        let d = sorted.drop_last();
        assert forall|j: int| 0 <= j < d.len() implies 0 <= #[trigger] d[j] < bound by {
            assert(d[j] == sorted[j]);
        }
        lemma_insert_desc_members(d, k, score, bound);
        let r = insert_desc(sorted, k, score);
        assert forall|j: int| 0 <= j < sorted.len() + 1 implies 0 <= #[trigger] r[j] < bound by {
            if j < sorted.len() {
                assert(r[j] == insert_desc(d, k, score)[j]);
            }
        }
    }
}

/// Keeping from `s.take(t + 1)` extends keeping from `s.take(t)` by `s[t]` when it qualifies.
proof fn lemma_keep_step(s: Seq<int>, p: spec_fn(int) -> bool, t: int)
    requires
        0 <= t < s.len(),
    ensures
        keep(s.take(t + 1), p) == if p(s[t]) { keep(s.take(t), p).push(s[t]) } else { keep(s.take(t), p) },
{
    assert(s.take(t + 1).drop_last() =~= s.take(t));
}

/// When nothing qualifies, keeping the rest keeps everything.
proof fn lemma_keep_none(s: Seq<int>, p: spec_fn(int) -> bool)
    requires
        keep(s, p).len() == 0,
    ensures
        keep(s, |k: int| !p(k)) == s,
    decreases s.len(),
{
    if s.len() > 0 {
        if p(s.last()) {
            assert(keep(s, p).len() > 0) by {
                lemma_keep_len(s.drop_last(), p);
            }
        }
        lemma_keep_none(s.drop_last(), p);
        assert(s.drop_last().push(s.last()) =~= s);
    }
}

proof fn lemma_keep_len(s: Seq<int>, p: spec_fn(int) -> bool)
    ensures
        keep(s, p).len() <= s.len(),
    decreases s.len(),
{
    if s.len() > 0 {
        lemma_keep_len(s.drop_last(), p);
    }
}

/// Every kept element is an element of `s` that satisfies `p`.
proof fn lemma_keep_members(s: Seq<int>, p: spec_fn(int) -> bool)
    ensures
        forall|j: int| 0 <= j < keep(s, p).len() ==> p(#[trigger] keep(s, p)[j])
            && exists|i: int| 0 <= i < s.len() && s[i] == keep(s, p)[j],
    decreases s.len(),
{
    if s.len() > 0 {
        lemma_keep_members(s.drop_last(), p);
        let r = keep(s, p);
        let d = keep(s.drop_last(), p);
        assert forall|j: int| 0 <= j < r.len() implies p(#[trigger] r[j])
            && exists|i: int| 0 <= i < s.len() && s[i] == r[j] by {
            if j < d.len() {
                assert(r[j] == d[j]);
                let i = choose|i: int| 0 <= i < s.drop_last().len() && s.drop_last()[i] == d[j];
                assert(s[i] == r[j]);
            } else {
                assert(s[s.len() - 1] == r[j]);
            }
        }
    }
}

/// Ranks each candidate, in input order.
fn rank_all(inspection: &Inspection, candidates: Vec<CandidateRelease>) -> (r: Vec<RankedCandidate>)
    requires
        inspection.tracks@.len() <= MAX_SCORED_TRACKS,
    ensures
        r@.len() == candidates@.len(),
        forall|j: int| 0 <= j < r@.len() ==> ranked_as(inspection.kind, inspection.tracks.deep_view(), candidates.deep_view()[j], #[trigger] r@[j]),
{
    let ghost cs = candidates.deep_view();
    let ghost total = candidates@.len();
    let mut remaining = candidates;
    let mut ranked: Vec<RankedCandidate> = Vec::new();
    while remaining.len() > 0
        invariant
            inspection.tracks@.len() <= MAX_SCORED_TRACKS,
            ranked@.len() + remaining@.len() == total,
            cs.len() == total,
            forall|j: int| 0 <= j < remaining@.len() ==> (#[trigger] remaining@[j]).deep_view() == cs[ranked@.len() + j],
            forall|j: int| 0 <= j < ranked@.len() ==> ranked_as(inspection.kind, inspection.tracks.deep_view(), cs[j], #[trigger] ranked@[j]),
        decreases remaining@.len(),
    {
        let ghost before = remaining@;
        let candidate = remaining.remove(0);
        assert(candidate.deep_view() == cs[ranked@.len() as int]);
        assert forall|j: int| 0 <= j < remaining@.len() implies (#[trigger] remaining@[j]).deep_view() == cs[ranked@.len() + 1 + j] by {
            assert(remaining@[j] == before[j + 1]);
        }
        let r = rank(inspection, candidate);
        ranked.push(r);
    }
    ranked
}

/// Stable insertion sort by descending score.
fn sort_ranked(
    items: Vec<RankedCandidate>,
    Ghost(kind): Ghost<SourceKind>,
    Ghost(ts): Ghost<Seq<InspectedTrackV>>,
    Ghost(cs): Ghost<Seq<CandidateReleaseV>>,
) -> (r: (Vec<RankedCandidate>, Ghost<Seq<int>>))
    requires
        items@.len() == cs.len(),
        forall|j: int| 0 <= j < items@.len() ==> ranked_as(kind, ts, cs[j], #[trigger] items@[j]),
    ensures
        r.1@ == sort_desc(cs.len(), |k: int| rank_score(kind, ts, cs[k])),
        ranked_list(kind, ts, cs, r.0@, r.1@),
{
    let ghost score = |k: int| rank_score(kind, ts, cs[k]);
    let ghost n = cs.len();
    let total = items.len();
    let mut remaining = items;
    let mut sorted: Vec<RankedCandidate> = Vec::new();
    let ghost mut order: Seq<int> = Seq::empty();
    let mut next: usize = 0;
    while remaining.len() > 0
        invariant
            next + remaining@.len() == n,
            n == total,
            cs.len() == n,
            order == sort_desc(next as nat, score),
            score == (|k: int| rank_score(kind, ts, cs[k])),
            forall|j: int| 0 <= j < remaining@.len() ==> ranked_as(kind, ts, cs[next + j], #[trigger] remaining@[j]),
            sorted@.len() == order.len(),
            forall|j: int| 0 <= j < order.len() ==> 0 <= #[trigger] order[j] < next,
            forall|j: int| 0 <= j < order.len() ==> ranked_as(kind, ts, cs[order[j]], #[trigger] sorted@[j]),
        decreases remaining@.len(),
    {
        proof {
            lemma_sort_desc_len(next as nat, score);
        }
        let ghost before = remaining@;
        let item = remaining.remove(0);
        assert(ranked_as(kind, ts, cs[next as int], item));
        assert forall|j: int| 0 <= j < remaining@.len() implies ranked_as(kind, ts, cs[next + 1 + j], #[trigger] remaining@[j]) by {
            assert(remaining@[j] == before[j + 1]);
        }
        let mut p = sorted.len();
        while p > 0 && sorted[p - 1].score < item.score
            invariant
                p <= sorted@.len(),
                sorted@.len() == order.len(),
                forall|j: int| 0 <= j < order.len() ==> ranked_as(kind, ts, cs[order[j]], #[trigger] sorted@[j]),
                ranked_as(kind, ts, cs[next as int], item),
                forall|j: int| p <= j < order.len() ==> score(#[trigger] order[j]) < score(next as int),
                score == (|k: int| rank_score(kind, ts, cs[k])),
            decreases p,
        {
            assert(ranked_as(kind, ts, cs[order[p - 1]], sorted@[p - 1]));
            p = p - 1;
        }
        proof {
            if p > 0 {
                assert(ranked_as(kind, ts, cs[order[p - 1]], sorted@[p - 1]));
            }
            lemma_insert_desc(order, next as int, score, p as int);
        }
        let ghost old_sorted = sorted@;
        let ghost old_order = order;
        sorted.insert(p, item);
        proof {
            order = insert_desc(old_order, next as int, score);
            assert(order == old_order.take(p as int) + seq![next as int] + old_order.skip(p as int));
            assert forall|j: int| 0 <= j < order.len() implies 0 <= #[trigger] order[j] < next + 1
                && ranked_as(kind, ts, cs[order[j]], sorted@[j]) by {
                if j < p {
                    assert(order[j] == old_order[j]);
                    assert(sorted@[j] == old_sorted[j]);
                } else if j == p {
                    assert(order[j] == next);
                } else {
                    assert(order[j] == old_order[j - 1]);
                    assert(sorted@[j] == old_sorted[j - 1]);
                }
            }
        }
        next = next + 1;
    }
    (sorted, Ghost(order))
}

/// Splits `items` into those satisfying `complete` and the rest, keeping order.
fn split_complete(
    items: Vec<RankedCandidate>,
    Ghost(idx): Ghost<Seq<int>>,
    Ghost(kind): Ghost<SourceKind>,
    Ghost(ts): Ghost<Seq<InspectedTrackV>>,
    Ghost(cs): Ghost<Seq<CandidateReleaseV>>,
) -> (r: (Vec<RankedCandidate>, Vec<RankedCandidate>))
    requires
        ranked_list(kind, ts, cs, items@, idx),
    ensures
        ranked_list(kind, ts, cs, r.0@, keep(idx, |k: int| rank_complete(kind, ts, cs[k]))),
        ranked_list(kind, ts, cs, r.1@, keep(idx, |k: int| !rank_complete(kind, ts, cs[k]))),
{
    let ghost p = |k: int| rank_complete(kind, ts, cs[k]);
    let ghost q = |k: int| !rank_complete(kind, ts, cs[k]);
    let total = items.len();
    let mut remaining = items;
    let mut yes: Vec<RankedCandidate> = Vec::new();
    let mut no: Vec<RankedCandidate> = Vec::new();
    let mut t: usize = 0;
    while remaining.len() > 0
        invariant
            t + remaining@.len() == idx.len(),
            idx.len() == total,
            p == (|k: int| rank_complete(kind, ts, cs[k])),
            q == (|k: int| !rank_complete(kind, ts, cs[k])),
            forall|j: int| 0 <= j < idx.len() ==> 0 <= #[trigger] idx[j] < cs.len(),
            forall|j: int| 0 <= j < remaining@.len() ==> ranked_as(kind, ts, cs[idx[t + j]], #[trigger] remaining@[j]),
            ranked_list(kind, ts, cs, yes@, keep(idx.take(t as int), p)),
            ranked_list(kind, ts, cs, no@, keep(idx.take(t as int), q)),
        decreases remaining@.len(),
    {
        let ghost before = remaining@;
        let item = remaining.remove(0);
        assert(ranked_as(kind, ts, cs[idx[t as int]], item));
        assert forall|j: int| 0 <= j < remaining@.len() implies ranked_as(kind, ts, cs[idx[t + 1 + j]], #[trigger] remaining@[j]) by {
            assert(remaining@[j] == before[j + 1]);
        }
        proof {
            lemma_keep_step(idx, p, t as int);
            lemma_keep_step(idx, q, t as int);
            lemma_keep_len(idx.take(t as int), p);
            lemma_keep_len(idx.take(t as int), q);
        }
        let ghost old_yes = yes@;
        let ghost old_no = no@;
        if item.complete {
            yes.push(item);
            assert forall|j: int| 0 <= j < yes@.len() implies ranked_as(kind, ts, cs[keep(idx.take(t + 1), p)[j]], #[trigger] yes@[j]) by {
                if j < old_yes.len() {
                    assert(yes@[j] == old_yes[j]);
                }
            }
        } else {
            no.push(item);
            assert forall|j: int| 0 <= j < no@.len() implies ranked_as(kind, ts, cs[keep(idx.take(t + 1), q)[j]], #[trigger] no@[j]) by {
                if j < old_no.len() {
                    assert(no@[j] == old_no[j]);
                }
            }
        }
        proof {
            lemma_keep_members(idx.take(t + 1), p);
            lemma_keep_members(idx.take(t + 1), q);
        }
        t = t + 1;
    }
    assert(idx.take(t as int) =~= idx);
    (yes, no)
}


/// Splits `items` into singles and the rest, keeping order.
fn split_single(
    items: Vec<RankedCandidate>,
    Ghost(idx): Ghost<Seq<int>>,
    Ghost(kind): Ghost<SourceKind>,
    Ghost(ts): Ghost<Seq<InspectedTrackV>>,
    Ghost(cs): Ghost<Seq<CandidateReleaseV>>,
) -> (r: (Vec<RankedCandidate>, Vec<RankedCandidate>))
    requires
        ranked_list(kind, ts, cs, items@, idx),
    ensures
        ranked_list(kind, ts, cs, r.0@, keep(idx, |k: int| is_single_kind(cs[k]))),
        ranked_list(kind, ts, cs, r.1@, keep(idx, |k: int| !is_single_kind(cs[k]))),
{
    let ghost p = |k: int| is_single_kind(cs[k]);
    let ghost q = |k: int| !is_single_kind(cs[k]);
    let total = items.len();
    let mut remaining = items;
    let mut yes: Vec<RankedCandidate> = Vec::new();
    let mut no: Vec<RankedCandidate> = Vec::new();
    let mut t: usize = 0;
    while remaining.len() > 0
        invariant
            t + remaining@.len() == idx.len(),
            idx.len() == total,
            p == (|k: int| is_single_kind(cs[k])),
            q == (|k: int| !is_single_kind(cs[k])),
            forall|j: int| 0 <= j < idx.len() ==> 0 <= #[trigger] idx[j] < cs.len(),
            forall|j: int| 0 <= j < remaining@.len() ==> ranked_as(kind, ts, cs[idx[t + j]], #[trigger] remaining@[j]),
            ranked_list(kind, ts, cs, yes@, keep(idx.take(t as int), p)),
            ranked_list(kind, ts, cs, no@, keep(idx.take(t as int), q)),
        decreases remaining@.len(),
    {
        let ghost before = remaining@;
        let item = remaining.remove(0);
        assert(ranked_as(kind, ts, cs[idx[t as int]], item));
        assert forall|j: int| 0 <= j < remaining@.len() implies ranked_as(kind, ts, cs[idx[t + 1 + j]], #[trigger] remaining@[j]) by {
            assert(remaining@[j] == before[j + 1]);
        }
        proof {
            lemma_keep_step(idx, p, t as int);
            lemma_keep_step(idx, q, t as int);
            lemma_keep_len(idx.take(t as int), p);
            lemma_keep_len(idx.take(t as int), q);
        }
        let ghost old_yes = yes@;
        let ghost old_no = no@;
        if item.candidate.kind.is_single() {
            yes.push(item);
            assert forall|j: int| 0 <= j < yes@.len() implies ranked_as(kind, ts, cs[keep(idx.take(t + 1), p)[j]], #[trigger] yes@[j]) by {
                if j < old_yes.len() {
                    assert(yes@[j] == old_yes[j]);
                }
            }
        } else {
            no.push(item);
            assert forall|j: int| 0 <= j < no@.len() implies ranked_as(kind, ts, cs[keep(idx.take(t + 1), q)[j]], #[trigger] no@[j]) by {
                if j < old_no.len() {
                    assert(no@[j] == old_no[j]);
                }
            }
        }
        proof {
            lemma_keep_members(idx.take(t + 1), p);
            lemma_keep_members(idx.take(t + 1), q);
        }
        t = t + 1;
    }
    assert(idx.take(t as int) =~= idx);
    (yes, no)
}

/// Concatenates two ranked lists.
fn concat_ranked(
    first: Vec<RankedCandidate>,
    second: Vec<RankedCandidate>,
    Ghost(a): Ghost<Seq<int>>,
    Ghost(b): Ghost<Seq<int>>,
    Ghost(kind): Ghost<SourceKind>,
    Ghost(ts): Ghost<Seq<InspectedTrackV>>,
    Ghost(cs): Ghost<Seq<CandidateReleaseV>>,
) -> (r: Vec<RankedCandidate>)
    requires
        ranked_list(kind, ts, cs, first@, a),
        ranked_list(kind, ts, cs, second@, b),
    ensures
        ranked_list(kind, ts, cs, r@, a + b),
{
    let mut out = first;
    let mut rest = second;
    let ghost start = out@.len();
    let mut t: usize = 0;
    let total = rest.len();
    while rest.len() > 0
        invariant
            t + rest@.len() == b.len(),
            b.len() == total,
            start == a.len(),
            out@.len() == a.len() + t,
            forall|j: int| 0 <= j < a.len() + b.len() ==> 0 <= #[trigger] (a + b)[j] < cs.len(),
            forall|j: int| 0 <= j < rest@.len() ==> ranked_as(kind, ts, cs[b[t + j]], #[trigger] rest@[j]),
            forall|j: int| 0 <= j < out@.len() ==> ranked_as(kind, ts, cs[(a + b)[j]], #[trigger] out@[j]),
        decreases rest@.len(),
    {
        let ghost before = rest@;
        let ghost old_out = out@;
        let item = rest.remove(0);
        assert(ranked_as(kind, ts, cs[b[t as int]], item));
        assert forall|j: int| 0 <= j < rest@.len() implies ranked_as(kind, ts, cs[b[t + 1 + j]], #[trigger] rest@[j]) by {
            assert(rest@[j] == before[j + 1]);
        }
        out.push(item);
        assert forall|j: int| 0 <= j < out@.len() implies ranked_as(kind, ts, cs[(a + b)[j]], #[trigger] out@[j]) by {
            if j < old_out.len() {
                assert(out@[j] == old_out[j]);
            } else {
                assert((a + b)[j] == b[t as int]);
            }
        }
        t = t + 1;
    }
    out
}

/// Whether some candidate in the list is credible and a single, and whether some
/// credible candidate is not a single.
fn credible_kinds(
    list: &Vec<RankedCandidate>,
    Ghost(idx): Ghost<Seq<int>>,
    Ghost(kind): Ghost<SourceKind>,
    Ghost(ts): Ghost<Seq<InspectedTrackV>>,
    Ghost(cs): Ghost<Seq<CandidateReleaseV>>,
) -> (r: (bool, bool))
    requires
        ranked_list(kind, ts, cs, list@, idx),
    ensures
        r.0 == exists|j: int| 0 <= j < idx.len() && candidate_credible(kind, ts, cs[#[trigger] idx[j]]) && is_single_kind(cs[idx[j]]),
        r.1 == exists|j: int| 0 <= j < idx.len() && candidate_credible(kind, ts, cs[#[trigger] idx[j]]) && !is_single_kind(cs[idx[j]]),
{
    let mut single = false;
    let mut other = false;
    let mut j: usize = 0;
    while j < list.len()
        invariant
            j <= list@.len(),
            ranked_list(kind, ts, cs, list@, idx),
            single == exists|k: int| 0 <= k < j && candidate_credible(kind, ts, cs[#[trigger] idx[k]]) && is_single_kind(cs[idx[k]]),
            other == exists|k: int| 0 <= k < j && candidate_credible(kind, ts, cs[#[trigger] idx[k]]) && !is_single_kind(cs[idx[k]]),
        decreases list@.len() - j,
    {
        let item = &list[j];
        assert(ranked_as(kind, ts, cs[idx[j as int]], list@[j as int]));
        let credible = item.is_credible();
        let is_single = item.candidate.kind.is_single();
        assert(is_single == is_single_kind(cs[idx[j as int]]));
        if credible && is_single {
            single = true;
        }
        if credible && !is_single {
            other = true;
        }
        j = j + 1;
    }
    (single, other)
}

impl MatchPolicy {
    /// Accepts the first candidate of `list` when it clearly qualifies; otherwise asks.
    fn final_decision(
        &self,
        inspection: &Inspection,
        list: Vec<RankedCandidate>,
        Ghost(idx): Ghost<Seq<int>>,
        Ghost(cs): Ghost<Seq<CandidateReleaseV>>,
    ) -> (r: MatchDecision)
        requires
            idx.len() > 0,
            ranked_list(inspection.kind, inspection.tracks.deep_view(), cs, list@, idx),
        ensures
            decision_matches(r, final_choice(*self, inspection.kind, inspection.tracks.deep_view(), cs, idx),
                inspection.kind, inspection.tracks.deep_view(), cs),
    {
        let ghost ts = inspection.tracks.deep_view();
        let ghost kind = inspection.kind;
        assert(ranked_as(kind, ts, cs[idx[0]], list@[0]));
        let best_score = list[0].score;
        let runner_up: i32 = if list.len() > 1 {
            assert(ranked_as(kind, ts, cs[idx[1]], list@[1]));
            list[1].score
        } else {
            i32::MIN
        };
        let difference: i64 = best_score as i64 - runner_up as i64;
        let saturated: i64 = if difference > i32::MAX as i64 {
            i32::MAX as i64
        } else if difference < i32::MIN as i64 {
            i32::MIN as i64
        } else {
            difference
        };
        let clear_lead = saturated >= self.minimum_lead as i64;
        let accepted_kind = !list[0].candidate.kind.is_other();
        let minimum = if inspection.kind.is_loose_file() { 120 } else { self.minimum_auto_score };
        if best_score >= minimum && clear_lead && list[0].is_credible() && accepted_kind {
            let selected = list[0].clone();
            MatchDecision::Selected { selected: Box::new(selected), candidates: list }
        } else {
            MatchDecision::NeedsChoice(list)
        }
    }

    /// Ranks the candidates and decides whether one can be accepted automatically,
    /// the user must choose, or nothing is usable.
    pub fn decide(&self, inspection: &Inspection, candidates: Vec<CandidateRelease>) -> (r: MatchDecision)
        requires
            inspection.tracks@.len() <= MAX_SCORED_TRACKS,
        ensures
            decision_matches(r, decide_spec(*self, inspection.kind, inspection.tracks.deep_view(), candidates.deep_view()),
                inspection.kind, inspection.tracks.deep_view(), candidates.deep_view()),
    {
        let ghost ts = inspection.tracks.deep_view();
        let ghost kind = inspection.kind;
        let ghost cs = candidates.deep_view();
        let ghost score = |k: int| rank_score(kind, ts, cs[k]);
        let ghost complete = |k: int| rank_complete(kind, ts, cs[k]);
        let ghost single = |k: int| is_single_kind(cs[k]);
        let n = candidates.len();
        let ranked = rank_all(inspection, candidates);
        let (sorted, Ghost(order)) = sort_ranked(ranked, Ghost(kind), Ghost(ts), Ghost(cs));
        if n == 0 {
            return MatchDecision::NoUsableMatch(Vec::new());
        }
        let (usable, rest) = split_complete(sorted, Ghost(order), Ghost(kind), Ghost(ts), Ghost(cs));
        let ghost usable_idx = keep(order, complete);
        if usable.len() == 0 {
            proof {
                lemma_keep_none(order, complete);
                assert((|k: int| !complete(k)) =~= (|k: int| !rank_complete(kind, ts, cs[k])));
            }
            return MatchDecision::NoUsableMatch(rest);
        }
        if inspection.kind.is_loose_file() {
            let (credible_single, credible_other) = credible_kinds(&usable, Ghost(usable_idx), Ghost(kind), Ghost(ts), Ghost(cs));
            if credible_single {
                let (singles, others) = split_single(usable, Ghost(usable_idx), Ghost(kind), Ghost(ts), Ghost(cs));
                let ghost a = keep(usable_idx, |k: int| is_single_kind(cs[k]));
                assert(single =~= (|k: int| is_single_kind(cs[k])));
                let ghost b = keep(usable_idx, |k: int| !is_single_kind(cs[k]));
                let reordered = concat_ranked(singles, others, Ghost(a), Ghost(b), Ghost(kind), Ghost(ts), Ghost(cs));
                if credible_other {
                    return MatchDecision::NeedsChoice(reordered);
                }
                proof {
                    lemma_keep_len(usable_idx, single);
                    assert(a.len() > 0) by {
                        let j = choose|j: int| 0 <= j < usable_idx.len() && candidate_credible(kind, ts, cs[#[trigger] usable_idx[j]]) && is_single_kind(cs[usable_idx[j]]);
                        lemma_keep_contains(usable_idx, single, j);
                    }
                }
                return self.final_decision(inspection, reordered, Ghost(a + b), Ghost(cs));
            }
        }
        self.final_decision(inspection, usable, Ghost(usable_idx), Ghost(cs))
    }
}

/// An element of `s` satisfying `p` is kept, so the kept list is not empty.
proof fn lemma_keep_contains(s: Seq<int>, p: spec_fn(int) -> bool, j: int)
    requires
        0 <= j < s.len(),
        p(s[j]),
    ensures
        keep(s, p).len() > 0,
    decreases s.len(),
{
    if j < s.len() - 1 {
        lemma_keep_contains(s.drop_last(), p, j);
        lemma_keep_len(s.drop_last(), p);
    }
}

/// Law: a candidate is selected automatically only when it is credible (complete,
/// with a credible identity, meaningful evidence and no conflicting identifier), not
/// of an unrecognised kind, scores at least the minimum, and leads the runner-up
/// by at least the policy's margin.
pub proof fn law_selection_is_credible_and_clear(
    policy: MatchPolicy,
    kind: SourceKind,
    ts: Seq<InspectedTrackV>,
    cs: Seq<CandidateReleaseV>,
)
    requires
        decide_spec(policy, kind, ts, cs) is Selected,
    ensures
        ({
            let (best, list) = (decide_spec(policy, kind, ts, cs)->Selected_0, decide_spec(policy, kind, ts, cs)->Selected_1);
            &&& list.len() > 0 && best == list[0]
            &&& candidate_credible(kind, ts, cs[best])
            &&& !(cs[best].kind is Other)
            &&& rank_score(kind, ts, cs[best]) >= (if kind == SourceKind::LooseFile { 120 } else { policy.min_auto() as int })
            &&& list.len() > 1 ==> saturate_i32(rank_score(kind, ts, cs[best]) - rank_score(kind, ts, cs[list[1]])) >= policy.min_lead()
        }),
{
}

} // verus!
