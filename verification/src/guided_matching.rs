use vstd::prelude::*;

use crate::domain::{InspectedTrackV, Inspection};
use crate::matching_ui::{capped_number, number_value, MetadataSelection};
use crate::provider::cover_art_archive::ProviderArtwork;
use crate::provider::{equivalent_groomed_result, groomed_equivalent};
use crate::artwork_viewer::ArtworkViewer;
use crate::destination::push_path;
use crate::planning::source_root;
use crate::source::SourceInspection;
use crate::text::{append, owned, text_eq, trim_by, trim_whitespace, ws_sep};

pub mod chooser;
pub mod identification;
pub mod session;
pub mod warnings;

verus! {

/// Where the metadata of a guided match came from.
#[derive(Clone, Debug, PartialEq, Eq)]
pub enum MetadataProvenance {
    MusicBrainz,
    MusicBrainzWithSourceYear(u16),
    MusicBrainzWithFingerprint,
    MusicBrainzWithFingerprintAndSourceYear(u16),
    ExistingTags { artwork_via_source_id: bool },
    Absent,
}

/// The artwork the user settled on: one of the source's candidates (by index), the
/// archive's front cover, or none.
#[derive(Debug)]
pub enum ArtworkSelection {
    Source(usize),
    CoverArtArchive(ProviderArtwork),
    Absent,
}

/// The providers a guided match consults.
pub struct GuidedProviders<M, A, F, I> {
    metadata: M,
    artwork: A,
    fingerprinter: F,
    acoustid: I,
}

impl<M, A, F, I> GuidedProviders<M, A, F, I> {
    /// Groups the metadata, artwork, fingerprint and AcoustID providers.
    pub fn new(metadata: M, artwork: A, fingerprinter: F, acoustid: I) -> (r: Self)
        ensures
            r.metadata() == metadata,
            r.artwork() == artwork,
            r.fingerprinter() == fingerprinter,
            r.acoustid() == acoustid,
    {
        GuidedProviders { metadata, artwork, fingerprinter, acoustid }
    }

    pub closed spec fn metadata(self) -> M {
        self.metadata
    }

    pub closed spec fn artwork(self) -> A {
        self.artwork
    }

    pub closed spec fn fingerprinter(self) -> F {
        self.fingerprinter
    }

    pub closed spec fn acoustid(self) -> I {
        self.acoustid
    }
}

/// The release group every track names, when the first names one and all agree.
pub open spec fn shared_release_group(ts: Seq<InspectedTrackV>) -> Option<Seq<char>> {
    if ts.len() > 0 && ts[0].release_group_id is Some && (forall|i: int|
        0 <= i < ts.len() ==> (#[trigger] ts[i]).release_group_id == ts[0].release_group_id) {
        ts[0].release_group_id
    } else {
        None
    }
}

/// The release group every track of the source names, when they agree on one.
pub fn common_release_group_id(inspection: &Inspection) -> (r: Option<String>)
    ensures
        r.deep_view() == shared_release_group(inspection.tracks.deep_view()),
{
    let ghost ts = inspection.tracks.deep_view();
    let tracks = &inspection.tracks;
    if tracks.len() == 0 {
        return None;
    }
    let first = match &tracks[0].release_group_id {
        Some(id) => id,
        None => return None,
    };
    assert(ts[0] == tracks@[0].deep_view());
    let mut i: usize = 0;
    while i < tracks.len()
        invariant
            i <= tracks@.len(),
            ts == tracks.deep_view(),
            ts == inspection.tracks.deep_view(),
            ts.len() > 0,
            ts[0].release_group_id == Some(first@),
            forall|k: int| 0 <= k < i ==> (#[trigger] ts[k]).release_group_id == Some(first@),
        decreases tracks@.len() - i,
    {
        assert(ts[i as int] == tracks@[i as int].deep_view());
        let same = match &tracks[i].release_group_id {
            Some(id) => text_eq(id.as_str(), first.as_str()),
            None => false,
        };
        if !same {
            assert(ts[i as int].release_group_id != ts[0].release_group_id);
            return None;
        }
        i = i + 1;
    }
    Some(first.clone())
}

/// The release group whose Cover Art Archive front belongs to the selected
/// metadata: the MusicBrainz candidate's, or the one the source's tags share.
pub open spec fn artwork_identity(ts: Seq<InspectedTrackV>, metadata: MetadataSelection) -> Option<Seq<char>> {
    match metadata {
        MetadataSelection::Provider(selected) => selected.candidate.release_group_id.deep_view(),
        MetadataSelection::ExistingTags => shared_release_group(ts),
        MetadataSelection::Cancelled => None,
    }
}

/// The release group to look artwork up for, or the warning that there is none.
pub fn artwork_group(inspection: &Inspection, metadata: &MetadataSelection) -> (r: Result<String, String>)
    ensures
        match artwork_identity(inspection.tracks.deep_view(), *metadata) {
            Some(g) => r matches Ok(x) && x@ == g,
            None => r matches Err(w) && w@ == "Selected metadata has no release-group artwork identity"@,
        },
{
    let group = match metadata {
        MetadataSelection::Provider(selected) => match &selected.candidate.release_group_id {
            Some(id) => Some(id.clone()),
            None => None,
        },
        MetadataSelection::ExistingTags => common_release_group_id(inspection),
        MetadataSelection::Cancelled => None,
    };
    match group {
        Some(g) => Ok(g),
        None => Err(owned("Selected metadata has no release-group artwork identity")),
    }
}

/// The artwork a match starts with: the source's selected cover; else the
/// archive's front when the metadata came from MusicBrainz; else none.
pub fn initial_artwork(
    source: &SourceInspection,
    metadata: &MetadataSelection,
    archive: Option<&ProviderArtwork>,
) -> (r: ArtworkSelection)
    ensures
        match source.selected_artwork {
            Some(i) => r == ArtworkSelection::Source(i),
            None => if archive is Some && *metadata is Provider {
                r matches ArtworkSelection::CoverArtArchive(a) && a.bytes@ == archive->0.bytes@ && a.format
                    == archive->0.format && a.dimensions == archive->0.dimensions
            } else {
                r is Absent
            },
        },
{
    match source.selected_artwork {
        Some(index) => ArtworkSelection::Source(index),
        None => {
            let from_provider = match metadata {
                MetadataSelection::Provider(_) => true,
                _ => false,
            };
            match archive {
                Some(artwork) => if from_provider {
                    ArtworkSelection::CoverArtArchive(artwork.clone())
                } else {
                    ArtworkSelection::Absent
                },
                None => ArtworkSelection::Absent,
            }
        },
    }
}

/// Whether two metadata selections would groom the source alike.
pub fn same_result(left: &MetadataSelection, right: &MetadataSelection) -> (r: bool)
    ensures
        r == match (*left, *right) {
            (MetadataSelection::Provider(a), MetadataSelection::Provider(b)) => groomed_equivalent(
                a.candidate.deep_view(),
                b.candidate.deep_view(),
            ),
            (MetadataSelection::ExistingTags, MetadataSelection::ExistingTags) => true,
            _ => false,
        },
{
    match (left, right) {
        (MetadataSelection::Provider(a), MetadataSelection::Provider(b)) => equivalent_groomed_result(
            &a.candidate,
            &b.candidate,
        ),
        (MetadataSelection::ExistingTags, MetadataSelection::ExistingTags) => true,
        _ => false,
    }
}

/// The artwork choice an answer names: a listed number from one to `count`.
pub open spec fn artwork_choice(answer: Seq<char>, count: nat) -> Option<nat> {
    match number_value(trim_by(answer, ws_sep())) {
        Some(n) => if 1 <= n <= count { Some(n) } else { None },
        None => None,
    }
}

/// Reads an artwork choice: the trimmed answer as a number from one to `count`.
pub fn parse_choice(answer: &str, count: usize) -> (r: Option<usize>)
    requires
        count < usize::MAX,
    ensures
        match artwork_choice(answer@, count as nat) {
            Some(n) => r == Some(n as usize),
            None => r is None,
        },
{
    let trimmed = trim_whitespace(answer);
    match capped_number(trimmed.as_str(), count) {
        Some(n) => if 1 <= n && n <= count { Some(n) } else { None },
        None => None,
    }
}

/// The artwork that choice number `choice` stands for: the source's covers are
/// numbered first, the archive's front last.
pub fn selection_for(source: &SourceInspection, archive: Option<&ProviderArtwork>, choice: usize) -> (r: ArtworkSelection)
    requires
        1 <= choice,
        choice <= source.artwork@.len() || (choice == source.artwork@.len() + 1 && archive is Some),
    ensures
        choice <= source.artwork@.len() ==> r == ArtworkSelection::Source((choice - 1) as usize),
        choice > source.artwork@.len() ==> (r matches ArtworkSelection::CoverArtArchive(a) && a.bytes@ == archive->0.bytes@
            && a.format == archive->0.format && a.dimensions == archive->0.dimensions),
{
    if choice <= source.artwork.len() {
        ArtworkSelection::Source(choice - 1)
    } else {
        match archive {
            Some(artwork) => ArtworkSelection::CoverArtArchive(artwork.clone()),
            None => ArtworkSelection::Absent,
        }
    }
}

/// Shows the chosen artwork through `viewer`: a source cover by its path on disk,
/// the archive's front by its bytes. Nothing is shown for no artwork, or for a
/// source cover that is not among the source's.
pub fn view_artwork<V: ArtworkViewer>(source: &SourceInspection, artwork: &ArtworkSelection, viewer: &mut V) -> (r: Result<
    (),
    String,
>)
    ensures
        *artwork is Absent ==> (r matches Err(e) && e@ == "no artwork is available to view"@),
        *artwork matches ArtworkSelection::Source(i) && i >= source.artwork@.len() ==> (r matches Err(e) && e@
            == "the selected source cover is unavailable"@),
{
    match artwork {
        ArtworkSelection::Source(index) => {
            if *index >= source.artwork.len() {
                return Err(owned("the selected source cover is unavailable"));
            }
            let root = source_root(source);
            let path = push_path(root.as_str(), source.artwork[*index].relative_path.as_str());
            match viewer.view_path(path.as_str()) {
                Ok(()) => Ok(()),
                Err(error) => Err(error.describe()),
            }
        },
        ArtworkSelection::CoverArtArchive(front) => match viewer.view_download(front) {
            Ok(()) => Ok(()),
            Err(error) => Err(error.describe()),
        },
        ArtworkSelection::Absent => Err(owned("no artwork is available to view")),
    }
}

/// What the user is told after trying to show artwork.
pub fn view_message(result: &Result<(), String>) -> (r: String)
    ensures
        match *result {
            Ok(()) => r@ == "Opened the artwork choice in the system image viewer."@,
            Err(e) => r@ == "Could not view artwork: "@ + e@,
        },
{
    match result {
        Ok(()) => owned("Opened the artwork choice in the system image viewer."),
        Err(error) => {
            let mut text = owned("Could not view artwork: ");
            append(&mut text, error.as_str());
            text
        },
    }
}

} // verus!
