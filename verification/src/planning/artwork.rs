use vstd::prelude::*;

use crate::guided_matching::ArtworkSelection;
use crate::layout::join_spec;
use crate::matching_ui::MetadataSelection;
use crate::plan::{AncillaryPlan, ArtworkChoice, ArtworkChoiceV, ArtworkOrigin, ArtworkOriginV};
use crate::source::{artwork_extension, AncillaryFile, ArtworkCandidate, SourceInspection, SourceObjectKind, SourceSnapshotEntry};
use crate::text::{append, owned, text_eq};

verus! {

/// The choice of no sidecar artwork.
pub open spec fn no_artwork_view() -> ArtworkChoiceV {
    ArtworkChoiceV { origin: ArtworkOriginV::Absent, label: "No sidecar artwork"@, dimensions: None, output_name: None }
}

/// The release group a provider selection names, or the empty text.
pub open spec fn selected_release_group(metadata: MetadataSelection) -> Seq<char> {
    match metadata {
        MetadataSelection::Provider(selected) => match selected.candidate.release_group_id.deep_view() {
            Some(g) => g,
            None => Seq::empty(),
        },
        _ => Seq::empty(),
    }
}

/// The planned artwork and, for archive artwork, its bytes: a chosen source image
/// becomes `cover.<ext>` from that file; the archive's front cover becomes
/// `cover.<ext>` from the fetched bytes; otherwise there is no artwork.
pub open spec fn artwork_plan_spec(
    candidates: Seq<ArtworkCandidate>,
    metadata: MetadataSelection,
    artwork: ArtworkSelection,
) -> (ArtworkChoiceV, Option<Seq<u8>>) {
    match artwork {
        ArtworkSelection::Source(index) => if index < candidates.len() {
            let c = candidates[index as int];
            (
                ArtworkChoiceV {
                    origin: ArtworkOriginV::SourceSidecar(c.relative_path@),
                    label: "Source "@ + c.relative_path@,
                    dimensions: Some(c.dimensions),
                    output_name: Some("cover."@ + artwork_extension(c.format)),
                },
                None,
            )
        } else {
            (no_artwork_view(), None)
        },
        ArtworkSelection::CoverArtArchive(art) => (
            ArtworkChoiceV {
                origin: ArtworkOriginV::CoverArtArchive(selected_release_group(metadata)),
                label: "Cover Art Archive front"@,
                dimensions: Some(art.dimensions),
                output_name: Some("cover."@ + artwork_extension(art.format)),
            },
            Some(art.bytes@),
        ),
        ArtworkSelection::Absent => (no_artwork_view(), None),
    }
}

/// No sidecar artwork.
pub fn no_artwork() -> (r: ArtworkChoice)
    ensures
        r.deep_view() == no_artwork_view(),
{
    ArtworkChoice { origin: ArtworkOrigin::Absent, label: owned("No sidecar artwork"), dimensions: None, output_name: None }
}

/// The artwork the plan writes, and the archive bytes it writes it from.
pub fn artwork_plan(source: &SourceInspection, metadata: &MetadataSelection, artwork: &ArtworkSelection) -> (r: (
    ArtworkChoice,
    Option<Vec<u8>>,
))
    ensures
        r.0.deep_view() == artwork_plan_spec(source.artwork@, *metadata, *artwork).0,
        match r.1 {
            Some(bytes) => artwork_plan_spec(source.artwork@, *metadata, *artwork).1 == Some(bytes@),
            None => artwork_plan_spec(source.artwork@, *metadata, *artwork).1 is None,
        },
{
    match artwork {
        ArtworkSelection::Source(index) => {
            if *index < source.artwork.len() {
                let c = &source.artwork[*index];
                let mut label = owned("Source ");
                append(&mut label, c.relative_path.as_str());
                let mut output = owned("cover.");
                let ext = c.format.canonical_extension();
                append(&mut output, ext.as_str());
                (
                    ArtworkChoice {
                        origin: ArtworkOrigin::SourceSidecar { source_name: c.relative_path.clone() },
                        label,
                        dimensions: Some(c.dimensions),
                        output_name: Some(output),
                    },
                    None,
                )
            } else {
                (no_artwork(), None)
            }
        },
        ArtworkSelection::CoverArtArchive(art) => {
            let release_group_id = match metadata {
                MetadataSelection::Provider(selected) => match &selected.candidate.release_group_id {
                    Some(g) => g.clone(),
                    None => String::new(),
                },
                _ => String::new(),
            };
            let mut output = owned("cover.");
            let ext = art.format.canonical_extension();
            append(&mut output, ext.as_str());
            (
                ArtworkChoice {
                    origin: ArtworkOrigin::CoverArtArchive { release_group_id },
                    label: owned("Cover Art Archive front"),
                    dimensions: Some(art.dimensions),
                    output_name: Some(output),
                },
                Some(art.bytes.clone()),
            )
        },
        ArtworkSelection::Absent => (no_artwork(), None),
    }
}

/// Whether some artwork candidate of the source is the file at `path`.
pub open spec fn is_artwork_candidate(candidates: Seq<ArtworkCandidate>, path: Seq<char>) -> bool {
    exists|k: int| 0 <= k < candidates.len() && (#[trigger] candidates[k]).relative_path@ == path
}

/// Where a preserved file goes: nowhere when it is the chosen sidecar itself (that
/// becomes the canonical cover); under `original-artwork/` when it is another
/// artwork image and the plan writes canonical artwork; else to its own place.
pub open spec fn ancillary_destination(candidates: Seq<ArtworkCandidate>, origin: ArtworkOriginV, path: Seq<char>) -> Option<Seq<char>> {
    match origin {
        ArtworkOriginV::SourceSidecar(name) => if path == name {
            None
        } else if is_artwork_candidate(candidates, path) {
            Some(join_spec("original-artwork"@, path))
        } else {
            Some(path)
        },
        ArtworkOriginV::CoverArtArchive(_) => if is_artwork_candidate(candidates, path) {
            Some(join_spec("original-artwork"@, path))
        } else {
            Some(path)
        },
        ArtworkOriginV::Absent => Some(path),
    }
}

/// The plans for the first `n` preserved files, in order, as (source, destination).
pub open spec fn ancillary_spec(files: Seq<AncillaryFile>, candidates: Seq<ArtworkCandidate>, origin: ArtworkOriginV, n: nat) -> Seq<(Seq<char>, Seq<char>)>
    decreases n,
{
    if n == 0 {
        Seq::empty()
    } else {
        let before = ancillary_spec(files, candidates, origin, (n - 1) as nat);
        let path = files[n - 1].relative_path@;
        match ancillary_destination(candidates, origin, path) {
            Some(d) => before.push((path, d)),
            None => before,
        }
    }
}

/// The (source, destination) pairs of a list of ancillary plans.
pub open spec fn ancillary_pairs(plans: Seq<AncillaryPlan>) -> Seq<(Seq<char>, Seq<char>)> {
    plans.map_values(|p: AncillaryPlan| (p.source_relative@, p.destination_relative@))
}

fn artwork_candidate_at(candidates: &Vec<ArtworkCandidate>, path: &str) -> (r: bool)
    ensures
        r == is_artwork_candidate(candidates@, path@),
{
    let mut k: usize = 0;
    while k < candidates.len()
        invariant
            k <= candidates@.len(),
            forall|j: int| 0 <= j < k ==> (#[trigger] candidates@[j]).relative_path@ != path@,
        decreases candidates@.len() - k,
    {
        if text_eq(candidates[k].relative_path.as_str(), path) {
            return true;
        }
        k = k + 1;
    }
    false
}

/// The preserved files of the source and where each goes.
pub fn ancillary_plan(source: &SourceInspection, artwork: &ArtworkChoice) -> (r: Vec<AncillaryPlan>)
    ensures
        ancillary_pairs(r@) == ancillary_spec(source.ancillary@, source.artwork@, artwork.origin.deep_view(), source.ancillary@.len()),
{
    let ghost origin = artwork.origin.deep_view();
    let mut out: Vec<AncillaryPlan> = Vec::new();
    let mut i: usize = 0;
    while i < source.ancillary.len()
        invariant
            i <= source.ancillary@.len(),
            origin == artwork.origin.deep_view(),
            ancillary_pairs(out@) == ancillary_spec(source.ancillary@, source.artwork@, origin, i as nat),
        decreases source.ancillary@.len() - i,
    {
        let file = &source.ancillary[i];
        let path = file.relative_path.as_str();
        let skip = match &artwork.origin {
            ArtworkOrigin::SourceSidecar { source_name } => text_eq(path, source_name.as_str()),
            _ => false,
        };
        if !skip {
            let relocate = match &artwork.origin {
                ArtworkOrigin::Absent => false,
                _ => artwork_candidate_at(&source.artwork, path),
            };
            let destination = if relocate {
                crate::layout::join_path("original-artwork", path)
            } else {
                owned(path)
            };
            proof {
                reveal_strlit("original-artwork");
            }
            let ghost before = out@;
            out.push(AncillaryPlan { source_relative: file.relative_path.clone(), destination_relative: destination });
            assert(ancillary_pairs(out@) =~= ancillary_pairs(before).push((path@, destination@)));
        }
        i = i + 1;
    }
    out
}

/// Whether the path `p` is `d` or lies below it, as `Path::starts_with` decides.
pub open spec fn path_within(p: Seq<char>, d: Seq<char>) -> bool {
    crate::paths::stripped(p, d) is Some
}

/// Whether a snapshot directory is carried along: it holds a preserved file, or it
/// holds no audio file at all.
pub open spec fn keeps_directory(d: Seq<char>, preserved: Seq<Seq<char>>, audio_paths: Seq<Seq<char>>) -> bool {
    (exists|k: int| 0 <= k < preserved.len() && path_within(#[trigger] preserved[k], d))
        || !(exists|k: int| 0 <= k < audio_paths.len() && path_within(#[trigger] audio_paths[k], d))
}

/// The directories, among the first `n` snapshot entries, that the result recreates.
pub open spec fn kept_directories(
    entries: Seq<SourceSnapshotEntry>,
    preserved: Seq<Seq<char>>,
    audio_paths: Seq<Seq<char>>,
    n: nat,
) -> Seq<Seq<char>>
    decreases n,
{
    if n == 0 {
        Seq::empty()
    } else {
        let before = kept_directories(entries, preserved, audio_paths, (n - 1) as nat);
        let e = entries[n - 1];
        if e.kind == SourceObjectKind::Directory && e.relative_path@.len() > 0 && keeps_directory(
            e.relative_path@,
            preserved,
            audio_paths,
        ) {
            before.push(e.relative_path@)
        } else {
            before
        }
    }
}

fn within(p: &str, d: &str) -> (r: bool)
    ensures
        r == path_within(p@, d@),
{
    crate::paths::strip_path(p, d).is_some()
}

/// The source directories that the result recreates.
pub fn ancillary_directories(source: &SourceInspection, preserved: &Vec<AncillaryPlan>) -> (r: Vec<String>)
    ensures
        r.deep_view() == kept_directories(
            source.snapshot@,
            preserved@.map_values(|p: AncillaryPlan| p.source_relative@),
            source.audio@.map_values(|a: crate::source::InspectedAudio| a.relative_path@),
            source.snapshot@.len(),
        ),
{
    let ghost audio_paths = source.audio@.map_values(|a: crate::source::InspectedAudio| a.relative_path@);
    let ghost preserved_paths = preserved@.map_values(|p: AncillaryPlan| p.source_relative@);
    let mut out: Vec<String> = Vec::new();
    let mut i: usize = 0;
    while i < source.snapshot.len()
        invariant
            i <= source.snapshot@.len(),
            audio_paths == source.audio@.map_values(|a: crate::source::InspectedAudio| a.relative_path@),
            out.deep_view() == kept_directories(source.snapshot@, preserved_paths, audio_paths, i as nat),
            preserved_paths == preserved@.map_values(|p: AncillaryPlan| p.source_relative@),
        decreases source.snapshot@.len() - i,
    {
        let entry = &source.snapshot[i];
        if entry.kind == SourceObjectKind::Directory && entry.relative_path.unicode_len() > 0 {
            let d = entry.relative_path.as_str();
            let mut holds_preserved = false;
            let mut k: usize = 0;
            while k < preserved.len()
                invariant
                    k <= preserved@.len(),
                    preserved_paths == preserved@.map_values(|p: AncillaryPlan| p.source_relative@),
                    holds_preserved == exists|j: int| 0 <= j < k && path_within(#[trigger] preserved_paths[j], d@),
                decreases preserved@.len() - k,
            {
                assert(preserved_paths[k as int] == preserved@[k as int].source_relative@);
                if within(preserved[k].source_relative.as_str(), d) {
                    holds_preserved = true;
                }
                k = k + 1;
            }
            let mut holds_audio = false;
            let mut a: usize = 0;
            while a < source.audio.len()
                invariant
                    a <= source.audio@.len(),
                    audio_paths == source.audio@.map_values(|x: crate::source::InspectedAudio| x.relative_path@),
                    holds_audio == exists|j: int| 0 <= j < a && path_within(#[trigger] audio_paths[j], d@),
                decreases source.audio@.len() - a,
            {
                assert(audio_paths[a as int] == source.audio@[a as int].relative_path@);
                if within(source.audio[a].relative_path.as_str(), d) {
                    holds_audio = true;
                }
                a = a + 1;
            }
            if holds_preserved || !holds_audio {
                let ghost before = out.deep_view();
                out.push(entry.relative_path.clone());
                assert(out.deep_view() =~= before.push(d@));
            }
        }
        i = i + 1;
    }
    out
}

} // verus!
