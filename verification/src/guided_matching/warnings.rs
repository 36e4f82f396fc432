use vstd::prelude::*;

use crate::domain::{InspectedTrackV, Inspection};
use crate::guided_matching::ArtworkSelection;
use crate::matching::{common_original_year, common_year, strings_eq};
use crate::matching_ui::MetadataSelection;
use crate::provider::cover_art_archive::ProviderArtwork;
use crate::source::{notice_summary, InspectionNotice, NoticeSeverity, SourceInspection};
use crate::text::{append, decimal, owned, push_decimal, text_eq};

verus! {

/// The warnings in order, each kept at its first occurrence only.
pub open spec fn first_occurrences(ws: Seq<Seq<char>>) -> Seq<Seq<char>>
    decreases ws.len(),
{
    if ws.len() == 0 {
        Seq::empty()
    } else {
        let kept = first_occurrences(ws.drop_last());
        if kept.contains(ws.last()) {
            kept
        } else {
            kept.push(ws.last())
        }
    }
}

/// The summaries of the inspection's warning notices, in order.
pub open spec fn source_warning_texts(notices: Seq<InspectionNotice>) -> Seq<Seq<char>>
    decreases notices.len(),
{
    if notices.len() == 0 {
        Seq::empty()
    } else {
        let before = source_warning_texts(notices.drop_last());
        let n = notices.last();
        if n.severity == NoticeSeverity::Warning {
            before.push(notice_summary(n.path.deep_view(), n.message@))
        } else {
            before
        }
    }
}

/// Whether the tracks' release-group identifiers disagree: two differ, or some
/// tracks have one and others do not.
pub open spec fn release_groups_inconsistent(ts: Seq<InspectedTrackV>) -> bool {
    ||| exists|i: int, j: int|
        0 <= i < ts.len() && 0 <= j < ts.len() && (#[trigger] ts[i]).release_group_id is Some
            && (#[trigger] ts[j]).release_group_id is Some && ts[i].release_group_id != ts[j].release_group_id
    ||| (exists|i: int| 0 <= i < ts.len() && (#[trigger] ts[i]).release_group_id is Some) && (exists|j: int|
        0 <= j < ts.len() && (#[trigger] ts[j]).release_group_id is None)
}

/// Whether two tracks carry different album-artist identifier lists.
pub open spec fn album_artist_ids_inconsistent(ts: Seq<InspectedTrackV>) -> bool {
    exists|i: int, j: int|
        0 <= i < ts.len() && 0 <= j < ts.len() && (#[trigger] ts[i]).album_artist_ids != (#[trigger] ts[j]).album_artist_ids
}

/// The warnings about the source's MusicBrainz identifiers.
pub open spec fn identifier_warning_texts(ts: Seq<InspectedTrackV>) -> Seq<Seq<char>> {
    (if release_groups_inconsistent(ts) {
        seq!["Source MusicBrainz release-group identifiers are inconsistent; using textual discovery instead"@]
    } else {
        Seq::empty()
    }) + (if album_artist_ids_inconsistent(ts) {
        seq!["Source MusicBrainz album-artist identifiers are inconsistent; using artist names instead"@]
    } else {
        Seq::empty()
    })
}

/// Whether `t` is among `list`.
fn listed(list: &Vec<String>, t: &String) -> (r: bool)
    ensures
        r == list.deep_view().contains(t@),
{
    let mut i: usize = 0;
    while i < list.len()
        invariant
            i <= list@.len(),
            forall|k: int| 0 <= k < i ==> list.deep_view()[k] != t@,
        decreases list@.len() - i,
    {
        if text_eq(list[i].as_str(), t.as_str()) {
            assert(list.deep_view()[i as int] == t@);
            return true;
        }
        i = i + 1;
    }
    false
}

/// The warnings in order, each kept at its first occurrence only.
pub fn deduplicated(warnings: Vec<String>) -> (r: Vec<String>)
    ensures
        r.deep_view() == first_occurrences(warnings.deep_view()),
{
    let ghost all = warnings.deep_view();
    let mut kept: Vec<String> = Vec::new();
    let mut i: usize = 0;
    assert(all.take(0) =~= Seq::<Seq<char>>::empty());
    while i < warnings.len()
        invariant
            i <= warnings@.len(),
            all == warnings.deep_view(),
            kept.deep_view() == first_occurrences(all.take(i as int)),
        decreases warnings@.len() - i,
    {
        let w = &warnings[i];
        assert(all.take(i + 1).drop_last() =~= all.take(i as int));
        assert(all.take(i + 1).last() == w@);
        if !listed(&kept, w) {
            let ghost before = kept.deep_view();
            kept.push(w.clone());
            assert(kept.deep_view() =~= before.push(w@));
        }
        i = i + 1;
    }
    assert(all.take(warnings@.len() as int) =~= all);
    kept
}

/// The summaries of the inspection's warning notices.
pub fn source_warnings(source: &SourceInspection) -> (r: Vec<String>)
    ensures
        r.deep_view() == source_warning_texts(source.notices@),
{
    let mut out: Vec<String> = Vec::new();
    let mut i: usize = 0;
    assert(source.notices@.take(0) =~= Seq::<InspectionNotice>::empty());
    while i < source.notices.len()
        invariant
            i <= source.notices@.len(),
            out.deep_view() == source_warning_texts(source.notices@.take(i as int)),
        decreases source.notices@.len() - i,
    {
        let notice = &source.notices[i];
        assert(source.notices@.take(i + 1).drop_last() =~= source.notices@.take(i as int));
        assert(source.notices@.take(i + 1).last() == *notice);
        let is_warning = match notice.severity {
            NoticeSeverity::Warning => true,
            NoticeSeverity::Blocker => false,
        };
        if is_warning {
            let text = notice.summary();
            let ghost before = out.deep_view();
            let ghost t = text@;
            out.push(text);
            assert(out.deep_view() =~= before.push(t));
        }
        i = i + 1;
    }
    assert(source.notices@.take(source.notices@.len() as int) =~= source.notices@);
    out
}

/// Warnings about inconsistent MusicBrainz identifiers in the source's tags.
pub fn identifier_warnings(inspection: &Inspection) -> (r: Vec<String>)
    ensures
        r.deep_view() == identifier_warning_texts(inspection.tracks.deep_view()),
{
    let ghost ts = inspection.tracks.deep_view();
    let tracks = &inspection.tracks;
    let mut first: Option<usize> = None;
    let mut differ = false;
    let mut missing = false;
    let mut i: usize = 0;
    while i < tracks.len()
        invariant
            i <= tracks@.len(),
            ts == tracks.deep_view(),
            first is None ==> forall|k: int| 0 <= k < i ==> (#[trigger] ts[k]).release_group_id is None,
            first matches Some(f) ==> f < i && ts[f as int].release_group_id is Some && (!differ ==> forall|k: int|
                0 <= k < i && (#[trigger] ts[k]).release_group_id is Some ==> ts[k].release_group_id == ts[f as int].release_group_id),
            differ ==> exists|a: int, b: int|
                0 <= a < ts.len() && 0 <= b < ts.len() && (#[trigger] ts[a]).release_group_id is Some
                    && (#[trigger] ts[b]).release_group_id is Some && ts[a].release_group_id != ts[b].release_group_id,
            missing <==> exists|k: int| 0 <= k < i && (#[trigger] ts[k]).release_group_id is None,
        decreases tracks@.len() - i,
    {
        assert(ts[i as int] == tracks@[i as int].deep_view());
        match &tracks[i].release_group_id {
            Some(id) => match first {
                None => {
                    first = Some(i);
                },
                Some(f) => {
                    assert(ts[f as int] == tracks@[f as int].deep_view());
                    let same = match &tracks[f].release_group_id {
                        Some(other) => text_eq(other.as_str(), id.as_str()),
                        None => false,
                    };
                    if !same {
                        assert(ts[f as int].release_group_id != ts[i as int].release_group_id);
                        differ = true;
                    }
                },
            },
            None => {
                missing = true;
            },
        }
        i = i + 1;
    }
    let some_present = first.is_some();
    let inconsistent_groups = differ || (some_present && missing);
    proof {
        if !inconsistent_groups {
            match first {
                None => {
                    assert forall|a: int| 0 <= a < ts.len() implies !((#[trigger] ts[a]).release_group_id is Some) by {}
                },
                Some(f) => {
                    assert forall|a: int, b: int|
                        0 <= a < ts.len() && 0 <= b < ts.len() && (#[trigger] ts[a]).release_group_id is Some
                            && (#[trigger] ts[b]).release_group_id is Some implies ts[a].release_group_id == ts[b].release_group_id by {}
                    assert forall|b: int| 0 <= b < ts.len() implies !((#[trigger] ts[b]).release_group_id is None) by {}
                },
            }
        } else if !differ {
            let f = first->0;
            let k = choose|k: int| 0 <= k < ts.len() && (#[trigger] ts[k]).release_group_id is None;
            assert(ts[f as int].release_group_id is Some);
        }
    }
    assert(inconsistent_groups == release_groups_inconsistent(ts));
    let mut artists_differ = false;
    if tracks.len() > 0 {
        let mut j: usize = 1;
        while j < tracks.len()
            invariant
                1 <= j <= tracks@.len(),
                ts == tracks.deep_view(),
                artists_differ <==> exists|k: int| 0 <= k < j && (#[trigger] ts[k]).album_artist_ids != ts[0].album_artist_ids,
            decreases tracks@.len() - j,
        {
            assert(ts[j as int] == tracks@[j as int].deep_view());
            assert(ts[0] == tracks@[0].deep_view());
            if !strings_eq(&tracks[j].album_artist_ids, &tracks[0].album_artist_ids) {
                artists_differ = true;
            }
            j = j + 1;
        }
        proof {
            if !artists_differ {
                assert forall|a: int, b: int|
                    0 <= a < ts.len() && 0 <= b < ts.len() implies (#[trigger] ts[a]).album_artist_ids == (#[trigger] ts[b]).album_artist_ids by {
                    if a > 0 {
                        assert(ts[a].album_artist_ids == ts[0].album_artist_ids);
                    }
                    if b > 0 {
                        assert(ts[b].album_artist_ids == ts[0].album_artist_ids);
                    }
                }
            } else {
                let k = choose|k: int| 0 <= k < tracks@.len() && (#[trigger] ts[k]).album_artist_ids != ts[0].album_artist_ids;
                assert(ts[k].album_artist_ids != ts[0].album_artist_ids);
            }
        }
    }
    assert(artists_differ == album_artist_ids_inconsistent(ts));
    let mut warnings: Vec<String> = Vec::new();
    if inconsistent_groups {
        warnings.push(
            owned("Source MusicBrainz release-group identifiers are inconsistent; using textual discovery instead"),
        );
    }
    if artists_differ {
        warnings.push(owned("Source MusicBrainz album-artist identifiers are inconsistent; using artist names instead"));
    }
    assert(warnings.deep_view() =~= identifier_warning_texts(ts));
    warnings
}

/// The warning when the selected metadata has no original year and the source
/// agrees on one.
pub open spec fn source_year_warning(year: u16) -> Seq<char> {
    "Selected MusicBrainz metadata has no original year; source year "@ + decimal(year as nat)
        + " is used as an unverified fallback"@
}

/// Fills a missing original year of the selected MusicBrainz metadata from the
/// source, when every track of the source agrees on one, and says so; says too when
/// neither has a year. Other selections are left alone. Returns the year used.
pub fn selection_year_warnings(inspection: &Inspection, metadata: &mut MetadataSelection) -> (r: (Option<u16>, Vec<String>))
    ensures
        match *old(metadata) {
            MetadataSelection::Provider(selected) => if selected.candidate.original_year is Some {
                r.0 is None && r.1@.len() == 0 && *final(metadata) == *old(metadata)
            } else {
                match common_year(inspection.tracks.deep_view()) {
                    Some(year) => {
                        &&& r.0 == Some(year)
                        &&& r.1.deep_view() == seq![source_year_warning(year)]
                        &&& *final(metadata) matches MetadataSelection::Provider(now)
                        &&& now.candidate.original_year == Some(year)
                        &&& now.candidate.title == selected.candidate.title
                        &&& now.candidate.tracks == selected.candidate.tracks
                        &&& now.candidate.provider_key == selected.candidate.provider_key
                        &&& now.mappings == selected.mappings
                        &&& now.score == selected.score
                    },
                    None => {
                        &&& r.0 is None
                        &&& r.1.deep_view() == seq![
                            "MusicBrainz and the source do not provide an original year; it will remain absent"@,
                        ]
                        &&& *final(metadata) == *old(metadata)
                    },
                }
            },
            _ => r.0 is None && r.1@.len() == 0 && *final(metadata) == *old(metadata),
        },
{
    let source_year = common_original_year(&inspection.tracks);
    let mut warnings: Vec<String> = Vec::new();
    match metadata {
        MetadataSelection::Provider(selected) => {
            if selected.candidate.original_year.is_some() {
                return (None, warnings);
            }
            match source_year {
                Some(year) => {
                    selected.candidate.original_year = Some(year);
                    let mut text = owned("Selected MusicBrainz metadata has no original year; source year ");
                    push_decimal(&mut text, year as u64);
                    append(&mut text, " is used as an unverified fallback");
                    let ghost t = text@;
                    warnings.push(text);
                    assert(warnings.deep_view() =~= seq![t]);
                    (Some(year), warnings)
                },
                None => {
                    let text = owned("MusicBrainz and the source do not provide an original year; it will remain absent");
                    let ghost t = text@;
                    warnings.push(text);
                    assert(warnings.deep_view() =~= seq![t]);
                    (None, warnings)
                },
            }
        },
        _ => (None, warnings),
    }
}

/// The warnings of a guided match: those of the source that stay, and those of the
/// metadata lookup, identification, selection and artwork, each replaced as it changes.
#[derive(Debug)]
pub struct WarningState {
    persistent: Vec<String>,
    metadata: Vec<String>,
    identification: Vec<String>,
    selection: Vec<String>,
    artwork: Vec<String>,
}

impl WarningState {
    pub closed spec fn persistent_view(&self) -> Seq<Seq<char>> {
        self.persistent.deep_view()
    }

    pub closed spec fn metadata_view(&self) -> Seq<Seq<char>> {
        self.metadata.deep_view()
    }

    pub closed spec fn identification_view(&self) -> Seq<Seq<char>> {
        self.identification.deep_view()
    }

    pub closed spec fn selection_view(&self) -> Seq<Seq<char>> {
        self.selection.deep_view()
    }

    pub closed spec fn artwork_view(&self) -> Seq<Seq<char>> {
        self.artwork.deep_view()
    }

    /// Every warning held, part by part, in order.
    pub open spec fn all_warnings(&self) -> Seq<Seq<char>> {
        self.persistent_view() + self.metadata_view() + self.identification_view() + self.selection_view()
            + self.artwork_view()
    }

    /// The state at the start: the source's warnings and its identifier warnings.
    pub fn new(source: &SourceInspection, inspection: &Inspection) -> (r: Self)
        ensures
            r.persistent_view() == first_occurrences(
                source_warning_texts(source.notices@) + identifier_warning_texts(inspection.tracks.deep_view()),
            ),
            r.metadata_view().len() == 0,
            r.identification_view().len() == 0,
            r.selection_view().len() == 0,
            r.artwork_view().len() == 0,
    {
        let mut persistent = source_warnings(source);
        let identifiers = identifier_warnings(inspection);
        let ghost a = persistent.deep_view();
        let mut i: usize = 0;
        while i < identifiers.len()
            invariant
                i <= identifiers@.len(),
                persistent.deep_view() == a + identifiers.deep_view().take(i as int),
            decreases identifiers@.len() - i,
        {
            let ghost before = persistent.deep_view();
            persistent.push(identifiers[i].clone());
            assert(persistent.deep_view() =~= before.push(identifiers.deep_view()[i as int]));
            i = i + 1;
            assert(identifiers.deep_view().take(i as int) =~= identifiers.deep_view().take(i - 1).push(
                identifiers.deep_view()[i - 1],
            ));
        }
        assert(identifiers.deep_view().take(identifiers@.len() as int) =~= identifiers.deep_view());
        let r = WarningState {
            persistent: deduplicated(persistent),
            metadata: Vec::new(),
            identification: Vec::new(),
            selection: Vec::new(),
            artwork: Vec::new(),
        };
        assert(r.metadata_view() =~= Seq::<Seq<char>>::empty());
        assert(r.identification_view() =~= Seq::<Seq<char>>::empty());
        assert(r.selection_view() =~= Seq::<Seq<char>>::empty());
        assert(r.artwork_view() =~= Seq::<Seq<char>>::empty());
        r
    }

    /// Replaces the metadata lookup's warnings.
    pub fn set_metadata(&mut self, warnings: Vec<String>)
        ensures
            final(self).metadata_view() == warnings.deep_view(),
            final(self).persistent_view() == old(self).persistent_view(),
            final(self).identification_view() == old(self).identification_view(),
            final(self).selection_view() == old(self).selection_view(),
            final(self).artwork_view() == old(self).artwork_view(),
    {
        self.metadata = warnings;
    }

    /// Replaces the identification's warnings.
    pub fn set_identification(&mut self, warnings: Vec<String>)
        ensures
            final(self).identification_view() == warnings.deep_view(),
            final(self).persistent_view() == old(self).persistent_view(),
            final(self).metadata_view() == old(self).metadata_view(),
            final(self).selection_view() == old(self).selection_view(),
            final(self).artwork_view() == old(self).artwork_view(),
    {
        self.identification = warnings;
    }

    /// Replaces the selection's warnings.
    pub fn set_selection(&mut self, warnings: Vec<String>)
        ensures
            final(self).selection_view() == warnings.deep_view(),
            final(self).persistent_view() == old(self).persistent_view(),
            final(self).metadata_view() == old(self).metadata_view(),
            final(self).identification_view() == old(self).identification_view(),
            final(self).artwork_view() == old(self).artwork_view(),
    {
        self.selection = warnings;
    }

    /// Replaces the artwork's warnings, adding one when no artwork at all is available.
    pub fn set_artwork(&mut self, warnings: Vec<String>, artwork: &ArtworkSelection, archive: Option<&ProviderArtwork>)
        ensures
            final(self).artwork_view() == warnings.deep_view() + (if *artwork is Absent && archive is None {
                seq!["No album artwork is available"@]
            } else {
                Seq::empty()
            }),
            final(self).persistent_view() == old(self).persistent_view(),
            final(self).metadata_view() == old(self).metadata_view(),
            final(self).identification_view() == old(self).identification_view(),
            final(self).selection_view() == old(self).selection_view(),
    {
        let mut warnings = warnings;
        let ghost before = warnings.deep_view();
        let none_selected = match artwork {
            ArtworkSelection::Absent => true,
            _ => false,
        };
        if none_selected && archive.is_none() {
            let text = owned("No album artwork is available");
            let ghost t = text@;
            warnings.push(text);
            assert(warnings.deep_view() =~= before.push(t));
            assert(warnings.deep_view() =~= before + seq![t]);
        } else {
            assert(warnings.deep_view() =~= before + Seq::<Seq<char>>::empty());
        }
        self.artwork = warnings;
    }

    /// The warnings now in force, each once, in order of first appearance.
    pub fn current(&self) -> (r: Vec<String>)
        ensures
            r.deep_view() == first_occurrences(self.all_warnings()),
    {
        let mut all: Vec<String> = Vec::new();
        append_all(&mut all, &self.persistent);
        append_all(&mut all, &self.metadata);
        append_all(&mut all, &self.identification);
        append_all(&mut all, &self.selection);
        append_all(&mut all, &self.artwork);
        deduplicated(all)
    }
}

/// Appends copies of `more` to `list`.
fn append_all(list: &mut Vec<String>, more: &Vec<String>)
    ensures
        final(list).deep_view() == old(list).deep_view() + more.deep_view(),
{
    let ghost start = list.deep_view();
    let mut i: usize = 0;
    while i < more.len()
        invariant
            i <= more@.len(),
            list.deep_view() == start + more.deep_view().take(i as int),
        decreases more@.len() - i,
    {
        let ghost before = list.deep_view();
        list.push(more[i].clone());
        assert(list.deep_view() =~= before.push(more.deep_view()[i as int]));
        i = i + 1;
        assert(more.deep_view().take(i as int) =~= more.deep_view().take(i - 1).push(more.deep_view()[i - 1]));
    }
    assert(more.deep_view().take(more@.len() as int) =~= more.deep_view());
}

/// Law: the warnings shown are each shown once, and none is lost: a warning is
/// shown exactly when some part holds it.
pub proof fn law_shown_warnings_are_distinct_and_complete(ws: Seq<Seq<char>>)
    ensures
        forall|a: int, b: int|
            0 <= a < b < first_occurrences(ws).len() ==> #[trigger] first_occurrences(ws)[a] != #[trigger] first_occurrences(
                ws,
            )[b],
        forall|w: Seq<char>| #[trigger] first_occurrences(ws).contains(w) <==> ws.contains(w),
    decreases ws.len(),
{
    if ws.len() > 0 {
        let rest = ws.drop_last();
        law_shown_warnings_are_distinct_and_complete(rest);
        let kept = first_occurrences(rest);
        let last = ws.last();
        assert forall|w: Seq<char>| #[trigger] first_occurrences(ws).contains(w) <==> ws.contains(w) by {
            if ws.contains(w) && !rest.contains(w) {
                assert(w == last) by {
                    let k = choose|k: int| 0 <= k < ws.len() && ws[k] == w;
                    if k < ws.len() - 1 {
                        assert(rest[k] == w);
                    }
                }
            }
            if rest.contains(w) {
                let k = choose|k: int| 0 <= k < rest.len() && rest[k] == w;
                assert(ws[k] == w);
            }
            if !kept.contains(last) {
                if kept.push(last).contains(w) && w != last {
                    let k = choose|k: int| 0 <= k < kept.len() + 1 && kept.push(last)[k] == w;
                    assert(kept[k] == w);
                }
                if kept.contains(w) {
                    let k = choose|k: int| 0 <= k < kept.len() && kept[k] == w;
                    assert(kept.push(last)[k] == w);
                }
                assert(kept.push(last)[kept.len() as int] == last);
            }
        }
        if !kept.contains(last) {
            assert forall|a: int, b: int| 0 <= a < b < kept.len() + 1 implies #[trigger] kept.push(last)[a] != #[trigger] kept.push(
                last,
            )[b] by {
                if b == kept.len() {
                    assert(kept.push(last)[a] == kept[a]);
                } else {
                    assert(kept.push(last)[a] == kept[a] && kept.push(last)[b] == kept[b]);
                }
            }
        }
    }
}

} // verus!
