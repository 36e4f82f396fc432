use vstd::prelude::*;

use crate::demo::DemoError;
use crate::domain::{
    clone_opt_string, ArtistCredit, ArtistCreditV, CandidateRelease, CandidateReleaseV, InspectedTrack, InspectedTrackV,
    Inspection, ReleaseKind, ReleaseKindV, ReleaseTrack, ReleaseTrackV,
};
use crate::layout::{
    join_path, join_spec, layout_error_text, release_layout_spec, standalone_layout_spec, LayoutErrorV, LayoutPolicy,
    LayoutTrack, LayoutTrackV, PlannedLayout, ReleaseLayout, StandaloneLayout,
};
use crate::domain::SourceKind;
use crate::matching::RankedCandidate;
use crate::matching_ui::blank;
use crate::text::is_blank;
use crate::plan::{
    ArtworkChoice, ArtworkChoiceV, GroomingPlan, MatchSelection, MetadataBasis, PlanWarning, TagChange, TagChangeV,
    TagField, TrackPlan,
};
use crate::planning::artwork::{no_artwork, no_artwork_view};
use crate::planning::release::{disc_count, release_disc_count};
use crate::planning::changes::{add_change, add_optional_list_change, change_if, list_change_if, yes_no, yes_no_text};
use crate::planning::release::{confident_ids, confident_ids_of};
use crate::text::{decimal, decimal_string, owned};

verus! {

/// A number as text, when there is one.
pub open spec fn number_or_none(value: Option<u16>) -> Option<Seq<char>> {
    match value {
        Some(v) => Some(decimal(v as nat)),
        None => None,
    }
}

/// A flag as `yes` or `no`, when there is one.
pub open spec fn flag_or_none(value: Option<bool>) -> Option<Seq<char>> {
    match value {
        Some(v) => Some(yes_no_text(v)),
        None => None,
    }
}

/// The identifiers of a credit's artists, when every one of them has one.
pub open spec fn id_change(field: TagField, before: Seq<Seq<char>>, credit: ArtistCreditV) -> Seq<TagChangeV> {
    match confident_ids_of(credit) {
        Some(ids) => list_change_if(field, before, ids),
        None => Seq::empty(),
    }
}

/// The tag changes a demo shows for a source track matched to `track` of
/// `release`: artist, album artist, album, original year (when the release has
/// one), disc and track numbers and title, each only where it differs; then the
/// artist and album-artist identifiers when every credited artist has one, the
/// compilation flag, and the recording and release-group identifiers where the
/// release names them and they differ.
pub open spec fn demo_changes(source: InspectedTrackV, release: CandidateReleaseV, track: ReleaseTrackV) -> Seq<TagChangeV> {
    change_if(TagField::Artist, source.artist, track.artist_credit.display)
        + change_if(TagField::AlbumArtist, source.album_artist, release.album_artist.display)
        + change_if(TagField::Album, source.album, release.title)
        + (match release.original_year {
            Some(year) => change_if(TagField::OriginalYear, number_or_none(source.original_year), decimal(year as nat)),
            None => Seq::empty(),
        })
        + change_if(
            TagField::DiscNumber,
            match source.position {
                Some(p) => Some(decimal(p.disc as nat)),
                None => None,
            },
            decimal(track.position.disc as nat),
        )
        + change_if(
            TagField::TrackNumber,
            match source.position {
                Some(p) => Some(decimal(p.track as nat)),
                None => None,
            },
            decimal(track.position.track as nat),
        )
        + change_if(TagField::Title, source.title, track.title)
        + id_change(TagField::ArtistIds, source.artist_ids, track.artist_credit)
        + id_change(TagField::AlbumArtistIds, source.album_artist_ids, release.album_artist)
        + change_if(TagField::Compilation, flag_or_none(source.compilation), yes_no_text(release.kind == ReleaseKindV::Compilation))
        + (match track.recording_id {
            Some(id) => change_if(TagField::MusicBrainzRecordingId, source.recording_id, id),
            None => Seq::empty(),
        })
        + (match release.release_group_id {
            Some(id) => change_if(TagField::MusicBrainzReleaseGroupId, source.release_group_id, id),
            None => Seq::empty(),
        })
}

/// The tag changes a demo shows for a source track matched to `track` of `release`.
pub fn demo_changes_for(source: &InspectedTrack, release: &CandidateRelease, track: &ReleaseTrack) -> (r: Vec<TagChange>)
    ensures
        r.deep_view() == demo_changes(source.deep_view(), release.deep_view(), track.deep_view()),
{
    let ghost s = source.deep_view();
    let mut changes: Vec<TagChange> = Vec::new();
    assert(changes.deep_view() =~= Seq::<TagChangeV>::empty());
    add_change(&mut changes, TagField::Artist, clone_opt_string(&source.artist), track.artist_credit.display.clone());
    add_change(&mut changes, TagField::AlbumArtist, clone_opt_string(&source.album_artist), release.album_artist.display.clone());
    add_change(&mut changes, TagField::Album, clone_opt_string(&source.album), release.title.clone());
    let ghost before_year = changes.deep_view();
    match release.original_year {
        Some(year) => {
            let before = match source.original_year {
                Some(y) => Some(decimal_string(y as u64)),
                None => None,
            };
            add_change(&mut changes, TagField::OriginalYear, before, decimal_string(year as u64));
        },
        None => {
            assert(changes.deep_view() =~= before_year + Seq::<TagChangeV>::empty());
        },
    }
    let disc_before = match source.position {
        Some(p) => Some(decimal_string(p.disc as u64)),
        None => None,
    };
    add_change(&mut changes, TagField::DiscNumber, disc_before, decimal_string(track.position.disc as u64));
    let track_before = match source.position {
        Some(p) => Some(decimal_string(p.track as u64)),
        None => None,
    };
    add_change(&mut changes, TagField::TrackNumber, track_before, decimal_string(track.position.track as u64));
    add_change(&mut changes, TagField::Title, clone_opt_string(&source.title), track.title.clone());
    let artist_ids = confident_ids(&track.artist_credit);
    add_optional_list_change(&mut changes, TagField::ArtistIds, &source.artist_ids, &artist_ids);
    let album_artist_ids = confident_ids(&release.album_artist);
    add_optional_list_change(&mut changes, TagField::AlbumArtistIds, &source.album_artist_ids, &album_artist_ids);
    let compilation = match release.kind {
        ReleaseKind::Compilation => true,
        _ => false,
    };
    let compilation_before = match source.compilation {
        Some(v) => Some(yes_no(v)),
        None => None,
    };
    add_change(&mut changes, TagField::Compilation, compilation_before, yes_no(compilation));
    let ghost before_recording = changes.deep_view();
    match &track.recording_id {
        Some(id) => add_change(&mut changes, TagField::MusicBrainzRecordingId, clone_opt_string(&source.recording_id), id.clone()),
        None => {
            assert(changes.deep_view() =~= before_recording + Seq::<TagChangeV>::empty());
        },
    }
    let ghost before_group = changes.deep_view();
    match &release.release_group_id {
        Some(id) => add_change(&mut changes, TagField::MusicBrainzReleaseGroupId, clone_opt_string(&source.release_group_id), id.clone()),
        None => {
            assert(changes.deep_view() =~= before_group + Seq::<TagChangeV>::empty());
        },
    }
    assert(changes.deep_view() =~= demo_changes(source.deep_view(), release.deep_view(), track.deep_view()));
    changes
}

/// A simulated source: what inspection found, the candidates a provider would
/// offer, each track's file extension, the artwork on offer, a warning, and the
/// number of embedded pictures.
pub struct DemoData {
    pub inspection: Inspection,
    pub candidates: Vec<CandidateRelease>,
    pub extensions: Vec<String>,
    pub source_artwork: Option<ArtworkChoice>,
    pub provider_artwork: Option<ArtworkChoice>,
    pub warning: Option<PlanWarning>,
    pub embedded_artwork_count: usize,
}

/// Every mapping of the selected candidate names a source track with an
/// extension and a track of the candidate.
pub open spec fn mappings_fit(data: DemoData, selected: RankedCandidate) -> bool {
    forall|k: int| 0 <= k < selected.mappings@.len() ==> {
        let m = #[trigger] selected.mappings@[k];
        &&& m.source_index < data.inspection.tracks@.len()
        &&& m.source_index < data.extensions@.len()
        &&& m.candidate_index < selected.candidate.tracks@.len()
    }
}

/// The layout track for a mapping: the candidate track's title and position, and
/// the source file's extension.
pub open spec fn demo_layout_track(data: DemoData, c: CandidateReleaseV, m: crate::matching::TrackMapping) -> LayoutTrackV {
    let t = c.tracks[m.candidate_index as int];
    LayoutTrackV { title: t.title, disc: t.position.disc, track: t.position.track, extension: data.extensions@[m.source_index as int]@ }
}

/// The layout of a demo plan: the selected candidate's release, or the source's
/// standalone track by its artist and title (when it has them).
pub open spec fn demo_layout(data: DemoData, selected: Option<Box<RankedCandidate>>) -> Result<
    Result<(Seq<char>, Seq<Seq<char>>), LayoutErrorV>,
    Seq<char>,
> {
    match selected {
        Some(sel) => {
            let c = sel.candidate.deep_view();
            Ok(release_layout_spec(
                c.album_artist.display,
                c.title,
                c.original_year,
                disc_count(c.tracks),
                sel.mappings@.map_values(|m: crate::matching::TrackMapping| demo_layout_track(data, c, m)),
            ))
        },
        None => {
            let source = data.inspection.tracks@[0];
            match (source.artist, source.title) {
                (None, _) => Err("standalone track has no artist"@),
                (Some(_), None) => Err("standalone track has no title"@),
                (Some(artist), Some(title)) => Ok(standalone_layout_spec(artist@, title@, data.extensions@[0]@)),
            }
        },
    }
}

/// The tag changes of the `k`-th planned track: for a selected candidate, those
/// of its `k`-th mapping; for a standalone track, none.
pub open spec fn demo_track_changes(data: DemoData, selected: Option<Box<RankedCandidate>>, k: int) -> Seq<TagChangeV> {
    match selected {
        Some(sel) => {
            let m = sel.mappings@[k];
            demo_changes(
                data.inspection.tracks@[m.source_index as int].deep_view(),
                sel.candidate.deep_view(),
                sel.candidate.tracks@[m.candidate_index as int].deep_view(),
            )
        },
        None => Seq::empty(),
    }
}

/// How many tag-change lists the plan has: one per mapping, or one.
pub open spec fn demo_change_count(selected: Option<Box<RankedCandidate>>) -> int {
    match selected {
        Some(sel) => sel.mappings@.len() as int,
        None => 1,
    }
}

/// The artwork of a demo plan: the source's, else the provider's, else none;
/// the provider's is an alternative when the source's is chosen.
pub open spec fn demo_artwork(data: DemoData) -> (ArtworkChoiceV, Seq<ArtworkChoiceV>) {
    match data.source_artwork {
        Some(a) => (a.deep_view(), match data.provider_artwork {
            Some(p) => seq![p.deep_view()],
            None => Seq::empty(),
        }),
        None => (match data.provider_artwork {
            Some(p) => p.deep_view(),
            None => no_artwork_view(),
        }, Seq::empty()),
    }
}

/// The smallest of three counts.
pub open spec fn least(a: int, b: int, c: int) -> int {
    if a <= b && a <= c { a } else if b <= c { b } else { c }
}

/// A demo plan: the layout under `root`, one track per source track, layout path
/// and change list taken together (as many as the shortest), the chosen artwork,
/// the warning, and nothing preserved besides embedded pictures.
pub open spec fn demo_plan_matches(
    r: Result<GroomingPlan, DemoError>,
    data: DemoData,
    selected: Option<Box<RankedCandidate>>,
    match_selection: MatchSelection,
    root: Seq<char>,
) -> bool {
    match demo_layout(data, selected) {
        Err(m) => r matches Err(DemoError::InvalidDemoData(t)) && t@ == m,
        Ok(Err(e)) => r matches Err(DemoError::InvalidDemoData(t)) && t@ == layout_error_text(e),
        Ok(Ok((directory, paths))) => r matches Ok(p) && {
            let n = least(data.inspection.tracks@.len() as int, paths.len() as int, demo_change_count(selected));
            &&& p.source_label@ == data.inspection.source_label@
            &&& (match selected {
                Some(sel) => p.metadata matches MetadataBasis::MusicBrainz(c) && c.deep_view() == sel.candidate.deep_view()
                    && p.match_reasons.deep_view() == sel.reasons.deep_view(),
                None => p.metadata is ExistingTags
                    && p.match_reasons.deep_view() == seq!["existing artist and title are internally coherent"@],
            })
            &&& p.match_selection == match_selection
            &&& p.destination_root@ == root
            &&& p.destination@ == join_spec(root, directory)
            &&& p.tracks@.len() == n
            &&& forall|k: int| 0 <= k < n ==> {
                let t = #[trigger] p.tracks@[k];
                &&& t.source_relative@ == data.inspection.tracks@[k].source_name@
                &&& t.destination@ == join_spec(root, paths[k])
                &&& t.tag_changes.deep_view() == demo_track_changes(data, selected, k)
                &&& t.planned_tags is None
            }
            &&& p.ancillary@.len() == 0
            &&& p.ancillary_directories@.len() == 0
            &&& p.artwork.deep_view() == demo_artwork(data).0
            &&& p.artwork_alternatives.deep_view() == demo_artwork(data).1
            &&& p.warnings@.len() == (if data.warning is Some { 1int } else { 0 })
            &&& (data.warning matches Some(w) ==> p.warnings@[0].summary@ == w.summary@ && p.warnings@[0].detail@ == w.detail@)
            &&& p.preserved_embedded_artwork == data.embedded_artwork_count
            &&& p.archive_artwork_bytes is None
        },
    }
}

/// Builds the plan a demo previews, from the simulated data, the selected
/// candidate (none for a standalone track) and how it was selected.
pub fn demo_plan(
    data: &DemoData,
    selected: Option<Box<RankedCandidate>>,
    match_selection: MatchSelection,
    destination_root: &str,
) -> (r: Result<GroomingPlan, DemoError>)
    requires
        match selected {
            Some(sel) => mappings_fit(*data, *sel),
            None => data.inspection.tracks@.len() > 0 && data.extensions@.len() > 0,
        },
    ensures
        demo_plan_matches(r, *data, selected, match_selection, destination_root@),
{
    let ghost sel_view = selected;
    let (metadata, reasons, layout, changes) = match selected {
        Some(sel) => {
            let candidate = sel.candidate.clone();
            let discs = release_disc_count(&candidate.tracks);
            let ghost c = candidate.deep_view();
            let mut tracks: Vec<LayoutTrack> = Vec::new();
            let mut changes: Vec<Vec<TagChange>> = Vec::new();
            let mut k: usize = 0;
            while k < sel.mappings.len()
                invariant
                    k <= sel.mappings@.len(),
                    sel_view == Some(sel),
                    mappings_fit(*data, *sel),
                    c == candidate.deep_view(),
                    c == sel.candidate.deep_view(),
                    tracks.deep_view() =~= sel.mappings@.take(k as int).map_values(
                        |m: crate::matching::TrackMapping| demo_layout_track(*data, c, m),
                    ),
                    changes@.len() == k,
                    forall|j: int| 0 <= j < k ==> (#[trigger] changes@[j]).deep_view() == demo_track_changes(*data, sel_view, j),
                decreases sel.mappings@.len() - k,
            {
                let m = &sel.mappings[k];
                assert(sel.mappings@[k as int] == *m);
                assert(m.candidate_index < sel.candidate.tracks@.len());
                assert(sel.candidate.tracks.deep_view().len() == sel.candidate.tracks@.len());
                assert(candidate.tracks.deep_view().len() == candidate.tracks@.len());
                let target = &candidate.tracks[m.candidate_index];
                assert(target.deep_view() == c.tracks[m.candidate_index as int]);
                let lt = LayoutTrack {
                    title: target.title.clone(),
                    disc: target.position.disc,
                    track: target.position.track,
                    extension: data.extensions[m.source_index].clone(),
                };
                let ghost before = tracks.deep_view();
                tracks.push(lt);
                assert(sel.mappings@.take(k + 1) =~= sel.mappings@.take(k as int).push(sel.mappings@[k as int]));
                assert(tracks.deep_view() =~= before.push(demo_layout_track(*data, c, sel.mappings@[k as int])));
                let ch = demo_changes_for(&data.inspection.tracks[m.source_index], &candidate, target);
                changes.push(ch);
                k = k + 1;
            }
            assert(sel.mappings@.take(sel.mappings@.len() as int) =~= sel.mappings@);
            let release = ReleaseLayout {
                album_artist: candidate.album_artist.clone(),
                title: candidate.title.clone(),
                original_year: candidate.original_year,
                disc_count: discs,
                tracks,
            };
            let layout = match LayoutPolicy.release(&release) {
                Ok(l) => l,
                Err(error) => return Err(DemoError::InvalidDemoData(error.describe())),
            };
            let reasons = reason_texts(&sel);
            (MetadataBasis::MusicBrainz(candidate), reasons, layout, changes)
        },
        None => {
            let source = &data.inspection.tracks[0];
            proof {
                reveal_strlit("standalone track has no artist");
                reveal_strlit("standalone track has no title");
            }
            let artist = match &source.artist {
                Some(a) => a,
                None => return Err(DemoError::InvalidDemoData(owned("standalone track has no artist"))),
            };
            let title = match &source.title {
                Some(t) => t,
                None => return Err(DemoError::InvalidDemoData(owned("standalone track has no title"))),
            };
            let standalone = StandaloneLayout {
                artist: ArtistCredit::single(artist.as_str()),
                title: title.clone(),
                extension: data.extensions[0].clone(),
            };
            let layout = match LayoutPolicy.standalone(&standalone) {
                Ok(l) => l,
                Err(error) => return Err(DemoError::InvalidDemoData(error.describe())),
            };
            let mut reasons: Vec<String> = Vec::new();
            reasons.push(owned("existing artist and title are internally coherent"));
            let mut changes: Vec<Vec<TagChange>> = Vec::new();
            let none: Vec<TagChange> = Vec::new();
            assert(none.deep_view() =~= Seq::<TagChangeV>::empty());
            changes.push(none);
            assert(reasons.deep_view() =~= seq!["existing artist and title are internally coherent"@]);
            (MetadataBasis::ExistingTags, reasons, layout, changes)
        },
    };
    let destination = join_path(destination_root, layout.directory.as_str());
    let ghost paths = layout.tracks.deep_view();
    let mut plans: Vec<TrackPlan> = Vec::new();
    let mut k: usize = 0;
    while k < data.inspection.tracks.len() && k < layout.tracks.len() && k < changes.len()
        invariant
            k <= data.inspection.tracks@.len(),
            k <= layout.tracks@.len(),
            k <= changes@.len(),
            paths == layout.tracks.deep_view(),
            changes@.len() == demo_change_count(sel_view),
            forall|j: int| 0 <= j < changes@.len() ==> (#[trigger] changes@[j]).deep_view() == demo_track_changes(*data, sel_view, j),
            plans@.len() == k,
            forall|j: int| 0 <= j < k ==> {
                let t = #[trigger] plans@[j];
                &&& t.source_relative@ == data.inspection.tracks@[j].source_name@
                &&& t.destination@ == join_spec(destination_root@, paths[j])
                &&& t.tag_changes.deep_view() == demo_track_changes(*data, sel_view, j)
                &&& t.planned_tags is None
            },
        decreases data.inspection.tracks@.len() - k,
    {
        let tag_changes = clone_changes(&changes[k]);
        plans.push(TrackPlan {
            source_relative: data.inspection.tracks[k].source_name.clone(),
            destination: join_path(destination_root, layout.tracks[k].as_str()),
            tag_changes,
            planned_tags: None,
        });
        k = k + 1;
    }
    let (artwork, alternatives) = match &data.source_artwork {
        Some(a) => {
            let mut alternatives: Vec<ArtworkChoice> = Vec::new();
            match &data.provider_artwork {
                Some(p) => {
                    alternatives.push(p.clone());
                    assert(alternatives.deep_view() =~= seq![p.deep_view()]);
                },
                None => {
                    assert(alternatives.deep_view() =~= Seq::<ArtworkChoiceV>::empty());
                },
            }
            (a.clone(), alternatives)
        },
        None => {
            let alternatives: Vec<ArtworkChoice> = Vec::new();
            assert(alternatives.deep_view() =~= Seq::<ArtworkChoiceV>::empty());
            match &data.provider_artwork {
                Some(p) => (p.clone(), alternatives),
                None => (no_artwork(), alternatives),
            }
        },
    };
    let mut warnings: Vec<PlanWarning> = Vec::new();
    match &data.warning {
        Some(w) => warnings.push(PlanWarning { summary: w.summary.clone(), detail: w.detail.clone() }),
        None => {},
    }
    Ok(GroomingPlan {
        source_label: data.inspection.source_label.clone(),
        metadata,
        match_selection,
        match_reasons: reasons,
        destination_root: owned(destination_root),
        destination,
        tracks: plans,
        ancillary: Vec::new(),
        ancillary_directories: Vec::new(),
        artwork,
        artwork_alternatives: alternatives,
        warnings,
        preserved_embedded_artwork: data.embedded_artwork_count,
        archive_artwork_bytes: None,
    })
}

/// The summaries of a candidate's match reasons.
fn reason_texts(selected: &RankedCandidate) -> (r: Vec<String>)
    ensures
        r.deep_view() == selected.reasons.deep_view(),
{
    let mut out: Vec<String> = Vec::new();
    let mut i: usize = 0;
    while i < selected.reasons.len()
        invariant
            i <= selected.reasons@.len(),
            out.deep_view() =~= selected.reasons.deep_view().take(i as int),
        decreases selected.reasons@.len() - i,
    {
        let ghost before = out.deep_view();
        out.push(selected.reasons[i].summary.clone());
        assert(out.deep_view() =~= before.push(selected.reasons.deep_view()[i as int]));
        assert(selected.reasons.deep_view().take(i + 1) =~= selected.reasons.deep_view().take(i as int).push(
            selected.reasons.deep_view()[i as int],
        ));
        i = i + 1;
    }
    assert(selected.reasons.deep_view().take(selected.reasons@.len() as int) =~= selected.reasons.deep_view());
    out
}

/// A copy of a list of tag changes.
fn clone_changes(v: &Vec<TagChange>) -> (r: Vec<TagChange>)
    ensures
        r.deep_view() == v.deep_view(),
{
    let mut out: Vec<TagChange> = Vec::new();
    let mut i: usize = 0;
    while i < v.len()
        invariant
            i <= v@.len(),
            out.deep_view() =~= v.deep_view().take(i as int),
        decreases v@.len() - i,
    {
        let c = &v[i];
        let ghost before = out.deep_view();
        out.push(TagChange { field: c.field, before: clone_opt_string(&c.before), after: c.after.clone() });
        assert(out.deep_view() =~= before.push(v.deep_view()[i as int]));
        assert(v.deep_view().take(i + 1) =~= v.deep_view().take(i as int).push(v.deep_view()[i as int]));
        i = i + 1;
    }
    assert(v.deep_view().take(v@.len() as int) =~= v.deep_view());
    out
}

/// Whether the selected candidate's mappings fit the demo's data, as `demo_plan`
/// requires.
pub fn demo_mappings_fit(data: &DemoData, selected: &RankedCandidate) -> (r: bool)
    ensures
        r == mappings_fit(*data, *selected),
{
    let mut k: usize = 0;
    while k < selected.mappings.len()
        invariant
            k <= selected.mappings@.len(),
            forall|j: int| 0 <= j < k ==> {
                let m = #[trigger] selected.mappings@[j];
                &&& m.source_index < data.inspection.tracks@.len()
                &&& m.source_index < data.extensions@.len()
                &&& m.candidate_index < selected.candidate.tracks@.len()
            },
        decreases selected.mappings@.len() - k,
    {
        let m = &selected.mappings[k];
        if m.source_index >= data.inspection.tracks.len() || m.source_index >= data.extensions.len()
            || m.candidate_index >= selected.candidate.tracks.len() {
            return false;
        }
        k = k + 1;
    }
    true
}

/// Whether a demo source with no usable match can stay a standalone track: one
/// loose file whose artist and title are present and not blank.
pub open spec fn coherent_standalone_spec(data: DemoData) -> bool {
    &&& data.inspection.kind is LooseFile
    &&& data.inspection.tracks@.len() == 1
    &&& !blank(data.inspection.tracks@[0].artist.deep_view())
    &&& !blank(data.inspection.tracks@[0].title.deep_view())
}

/// Whether a demo source with no usable match can stay a standalone track.
pub fn coherent_standalone(data: &DemoData) -> (r: bool)
    ensures
        r == coherent_standalone_spec(*data),
{
    let loose = match data.inspection.kind {
        SourceKind::LooseFile => true,
        SourceKind::AlbumDirectory => false,
    };
    if !loose || data.inspection.tracks.len() != 1 {
        return false;
    }
    let track = &data.inspection.tracks[0];
    let artist_ok = match &track.artist {
        Some(a) => !is_blank(a.as_str()),
        None => false,
    };
    let title_ok = match &track.title {
        Some(t) => !is_blank(t.as_str()),
        None => false,
    };
    artist_ok && title_ok
}

} // verus!
