use vstd::prelude::*;

use crate::domain::SourceKind;
use crate::guided_matching::ArtworkSelection;
use crate::layout::{join_path, join_spec, layout_error_text, LayoutError, LayoutErrorV};
use crate::matching_ui::MetadataSelection;
use crate::plan::{AncillaryPlan, ArtworkChoiceV, GroomingPlan, MatchSelection};
use crate::planning::artwork::{
    ancillary_directories, ancillary_plan, ancillary_spec, artwork_plan, artwork_plan_spec, kept_directories,
    ancillary_pairs,
};
use crate::planning::collision::{find_collision, first_collision};
use crate::planning::release::{existing_plan, existing_plan_matches, provider_plan, provider_plan_matches, BuiltPlan};
use crate::planning::warnings::{for_plan, plan_warnings, warnings_with_summaries};
use crate::provider::search::{source_inspection, tracks_from_audio};
use crate::source::{InspectedAudio, SourceInspection};
use crate::text::{append, decimal, owned, push_decimal};

pub mod changes;
pub mod release;
pub mod artwork;
pub mod warnings;
pub mod collision;

verus! {

/// Why a plan cannot be built.
#[derive(Debug)]
pub enum PlanningError {
    Cancelled,
    Missing(&'static str),
    InvalidMapping(usize),
    Layout(LayoutError),
    Collision(String),
}

pub open spec fn planning_error_text(e: PlanningError) -> Seq<char> {
    match e {
        PlanningError::Cancelled => "metadata selection was cancelled"@,
        PlanningError::Missing(field) => "selected metadata has no "@ + field@,
        PlanningError::InvalidMapping(index) => "selected metadata has an invalid track mapping at "@ + decimal(index as nat),
        PlanningError::Layout(error) => "cannot plan destination layout: "@ + layout_error_text(error.deep_view()),
        PlanningError::Collision(path) => "more than one planned file would use "@ + path@,
    }
}

impl PlanningError {
    /// The message shown for this error.
    pub fn describe(&self) -> (r: String)
        ensures
            r@ == planning_error_text(*self),
    {
        match self {
            PlanningError::Cancelled => owned("metadata selection was cancelled"),
            PlanningError::Missing(field) => {
                let mut out = owned("selected metadata has no ");
                append(&mut out, field);
                out
            },
            PlanningError::InvalidMapping(index) => {
                let mut out = owned("selected metadata has an invalid track mapping at ");
                push_decimal(&mut out, *index as u64);
                out
            },
            PlanningError::Layout(error) => {
                let mut out = owned("cannot plan destination layout: ");
                let inner = error.describe();
                append(&mut out, inner.as_str());
                out
            },
            PlanningError::Collision(path) => {
                let mut out = owned("more than one planned file would use ");
                append(&mut out, path.as_str());
                out
            },
        }
    }
}

/// The half of planning that the metadata selection decides.
pub open spec fn half_matches(half: Result<BuiltPlan, PlanningError>, source: SourceInspection, metadata: MetadataSelection, root: Seq<char>) -> bool {
    match metadata {
        MetadataSelection::Provider(selected) => provider_plan_matches(half, source, tracks_from_audio(source.audio@), *selected, root),
        MetadataSelection::ExistingTags => existing_plan_matches(half, source.audio@, tracks_from_audio(source.audio@), root),
        MetadataSelection::Cancelled => half matches Err(PlanningError::Cancelled),
    }
}

/// The files a plan writes, relative to the destination root: the tracks, the
/// preserved files and the canonical artwork, in that order.
pub open spec fn planned_files(
    track_paths: Seq<Seq<char>>,
    directory: Seq<char>,
    preserved: Seq<(Seq<char>, Seq<char>)>,
    cover: Option<Seq<char>>,
) -> Seq<Seq<char>> {
    track_paths + preserved.map_values(|p: (Seq<char>, Seq<char>)| join_spec(directory, p.1)) + match cover {
        Some(name) => seq![join_spec(directory, name)],
        None => Seq::empty(),
    }
}

/// How many audio files carry embedded pictures, among the first `n`.
pub open spec fn embedded_artwork_count(audio: Seq<InspectedAudio>, n: nat) -> nat
    decreases n,
{
    if n == 0 {
        0
    } else {
        embedded_artwork_count(audio, (n - 1) as nat) + if audio[n - 1].tags.embedded_pictures > 0 { 1nat } else { 0nat }
    }
}

/// The audio paths of a source.
pub open spec fn audio_paths(source: SourceInspection) -> Seq<Seq<char>> {
    source.audio@.map_values(|a: InspectedAudio| a.relative_path@)
}

/// The plan assembled from its metadata half, artwork, preserved files and
/// directories, and warnings; or the first error.
pub open spec fn plan_assembled(
    r: Result<GroomingPlan, PlanningError>,
    half: Result<BuiltPlan, PlanningError>,
    source: SourceInspection,
    metadata: MetadataSelection,
    artwork: ArtworkSelection,
    selection: MatchSelection,
    warnings: Seq<Seq<char>>,
    root: Seq<char>,
) -> bool {
    match half {
        Err(e) => r == Err::<GroomingPlan, PlanningError>(e),
        Ok(b) => {
            let art = artwork_plan_spec(source.artwork@, metadata, artwork);
            let preserved = ancillary_spec(source.ancillary@, source.artwork@, art.0.origin, source.ancillary@.len());
            let directory = b.layout.directory@;
            let dirs = kept_directories(
                source.snapshot@,
                preserved.map_values(|p: (Seq<char>, Seq<char>)| p.0),
                audio_paths(source),
                source.snapshot@.len(),
            );
            match first_collision(
                planned_files(b.layout.tracks.deep_view(), directory, preserved, art.0.output_name),
                dirs.map_values(|d: Seq<char>| join_spec(directory, d)),
            ) {
                Some(f) => r matches Err(PlanningError::Collision(c)) && c@ == join_spec(root, f),
                None => r matches Ok(p) && {
                    &&& p.source_label@ == source.source@
                    &&& p.metadata == b.metadata
                    &&& p.match_selection == selection
                    &&& p.match_reasons == b.reasons
                    &&& p.destination_root@ == root
                    &&& p.destination@ == join_spec(root, directory)
                    &&& p.tracks == b.tracks
                    &&& ancillary_pairs(p.ancillary@) == preserved
                    &&& p.ancillary_directories.deep_view() == dirs
                    &&& p.artwork.deep_view() == art.0
                    &&& p.artwork_alternatives@.len() == 0
                    &&& warnings_with_summaries(p.warnings@, plan_warnings(source, warnings, p))
                    &&& p.preserved_embedded_artwork == embedded_artwork_count(source.audio@, source.audio@.len())
                    &&& match p.archive_artwork_bytes {
                        Some(bytes) => art.1 == Some(bytes@),
                        None => art.1 is None,
                    }
                },
            }
        },
    }
}

fn count_embedded(source: &SourceInspection) -> (r: usize)
    ensures
        r == embedded_artwork_count(source.audio@, source.audio@.len()),
{
    let mut count: usize = 0;
    let mut i: usize = 0;
    while i < source.audio.len()
        invariant
            i <= source.audio@.len(),
            count == embedded_artwork_count(source.audio@, i as nat),
            count <= i,
        decreases source.audio@.len() - i,
    {
        if source.audio[i].tags.embedded_pictures > 0 {
            count = count + 1;
        }
        i = i + 1;
    }
    count
}

fn files_to_check(tracks: &Vec<String>, directory: &str, preserved: &Vec<AncillaryPlan>, cover: &Option<String>) -> (r: Vec<String>)
    ensures
        r.deep_view() == planned_files(tracks.deep_view(), directory@, ancillary_pairs(preserved@), cover.deep_view()),
{
    let mut out: Vec<String> = Vec::new();
    let mut i: usize = 0;
    while i < tracks.len()
        invariant
            i <= tracks@.len(),
            out.deep_view() =~= tracks.deep_view().take(i as int),
        decreases tracks@.len() - i,
    {
        let ghost before = out.deep_view();
        out.push(tracks[i].clone());
        assert(out.deep_view() =~= before.push(tracks@[i as int]@));
        assert(tracks.deep_view().take(i + 1) =~= tracks.deep_view().take(i as int).push(tracks.deep_view()[i as int]));
        i = i + 1;
    }
    let ghost pairs = ancillary_pairs(preserved@);
    let ghost mapped = pairs.map_values(|p: (Seq<char>, Seq<char>)| join_spec(directory@, p.1));
    let mut k: usize = 0;
    while k < preserved.len()
        invariant
            k <= preserved@.len(),
            pairs == ancillary_pairs(preserved@),
            mapped == pairs.map_values(|p: (Seq<char>, Seq<char>)| join_spec(directory@, p.1)),
            out.deep_view() =~= tracks.deep_view() + mapped.take(k as int),
        decreases preserved@.len() - k,
    {
        let ghost before = out.deep_view();
        let joined_path = join_path(directory, preserved[k].destination_relative.as_str());
        assert(mapped[k as int] == join_spec(directory@, preserved@[k as int].destination_relative@));
        assert(joined_path@ == mapped[k as int]);
        out.push(joined_path);
        assert(out.deep_view() =~= before.push(mapped[k as int]));
        assert(mapped.take(k + 1) =~= mapped.take(k as int).push(mapped[k as int]));
        k = k + 1;
    }
    assert(mapped.take(preserved@.len() as int) =~= mapped);
    let ghost before_cover = out.deep_view();
    match cover {
        Some(name) => {
            out.push(join_path(directory, name.as_str()));
            assert(out.deep_view() =~= before_cover + seq![join_spec(directory@, name@)]);
        },
        None => {
            assert(out.deep_view() =~= before_cover + Seq::<Seq<char>>::empty());
        },
    }
    out
}

fn directories_to_check(directory: &str, dirs: &Vec<String>) -> (r: Vec<String>)
    ensures
        r.deep_view() == dirs.deep_view().map_values(|d: Seq<char>| join_spec(directory@, d)),
{
    let ghost mapped = dirs.deep_view().map_values(|d: Seq<char>| join_spec(directory@, d));
    let mut out: Vec<String> = Vec::new();
    let mut k: usize = 0;
    while k < dirs.len()
        invariant
            k <= dirs@.len(),
            mapped == dirs.deep_view().map_values(|d: Seq<char>| join_spec(directory@, d)),
            out.deep_view() =~= mapped.take(k as int),
        decreases dirs@.len() - k,
    {
        let ghost before = out.deep_view();
        let joined_path = join_path(directory, dirs[k].as_str());
        assert(mapped[k as int] == join_spec(directory@, dirs@[k as int]@));
        out.push(joined_path);
        assert(out.deep_view() =~= before.push(mapped[k as int]));
        assert(mapped.take(k + 1) =~= mapped.take(k as int).push(mapped[k as int]));
        k = k + 1;
    }
    out
}

/// Plans grooming of `source` into `destination_root` with the selected metadata and
/// artwork: the layout and tags of every track, the preserved files and directories,
/// the canonical artwork and the warnings; refusing a plan whose outputs collide on
/// a file system that ignores case.
#[verifier::rlimit(100)]
pub fn build_plan(
    source: &SourceInspection,
    metadata: &MetadataSelection,
    artwork: &ArtworkSelection,
    match_selection: MatchSelection,
    warnings: &Vec<String>,
    destination_root: &str,
) -> (r: Result<GroomingPlan, PlanningError>)
    ensures
        exists|half: Result<BuiltPlan, PlanningError>|
            #[trigger] half_matches(half, *source, *metadata, destination_root@) && plan_assembled(
                r,
                half,
                *source,
                *metadata,
                *artwork,
                match_selection,
                warnings.deep_view(),
                destination_root@,
            ),
{
    let (inspection, _search) = source_inspection(source);
    assert(inspection.tracks@.len() == source.audio@.len()) by {
        assert(inspection.tracks.deep_view().len() == inspection.tracks@.len());
    }
    let half = match metadata {
        MetadataSelection::Provider(selected) => provider_plan(source, &inspection.tracks, selected, destination_root),
        MetadataSelection::ExistingTags => existing_plan(source, &inspection.tracks, destination_root),
        MetadataSelection::Cancelled => Err(PlanningError::Cancelled),
    };
    let ghost h = half;
    assert(half_matches(h, *source, *metadata, destination_root@));
    let built = match half {
        Ok(b) => b,
        Err(e) => {
            assert(plan_assembled(Err(e), h, *source, *metadata, *artwork, match_selection, warnings.deep_view(), destination_root@));
            return Err(e);
        },
    };
    let (artwork_choice, archive_bytes) = artwork_plan(source, metadata, artwork);
    let preserved = ancillary_plan(source, &artwork_choice);
    let directories = ancillary_directories(source, &preserved);
    proof {
        assert(preserved@.map_values(|p: AncillaryPlan| p.source_relative@) =~= ancillary_pairs(preserved@).map_values(
            |p: (Seq<char>, Seq<char>)| p.0,
        ));
    }
    let files = files_to_check(&built.layout.tracks, built.layout.directory.as_str(), &preserved, &artwork_choice.output_name);
    let dirs = directories_to_check(built.layout.directory.as_str(), &directories);
    match find_collision(&files, &dirs) {
        Some(f) => {
            let path = join_path(destination_root, f.as_str());
            return Err(PlanningError::Collision(path));
        },
        None => {},
    }
    let destination = join_path(destination_root, built.layout.directory.as_str());
    let mut plan = GroomingPlan {
        source_label: source.source.clone(),
        metadata: built.metadata,
        match_selection,
        match_reasons: built.reasons,
        destination_root: owned(destination_root),
        destination,
        tracks: built.tracks,
        ancillary: preserved,
        ancillary_directories: directories,
        artwork: artwork_choice,
        artwork_alternatives: Vec::new(),
        warnings: Vec::new(),
        preserved_embedded_artwork: count_embedded(source),
        archive_artwork_bytes: archive_bytes,
    };
    let plan_warnings_list = for_plan(source, warnings, &plan);
    plan.warnings = plan_warnings_list;
    Ok(plan)
}

/// The directory that a source's relative paths start from: the album directory
/// itself, or the directory holding a loose file (empty when there is none).
pub open spec fn source_root_spec(source: SourceInspection) -> Seq<char> {
    match source.kind {
        SourceKind::AlbumDirectory => source.source@,
        SourceKind::LooseFile => {
            let n = crate::plan::last_separator_end(source.source@, source.source@.len());
            if n == 0 { Seq::empty() } else if n == 1 { "/"@ } else { source.source@.take(n - 1) }
        },
    }
}

/// The directory that a source's relative paths start from.
pub fn source_root(source: &SourceInspection) -> (r: String)
    ensures
        r@ == source_root_spec(*source),
{
    match source.kind {
        SourceKind::AlbumDirectory => source.source.clone(),
        SourceKind::LooseFile => {
            let chars = crate::text::chars_of(source.source.as_str());
            let n = chars.len();
            let mut end: usize = n;
            while end > 0 && chars[end - 1] != '/'
                invariant
                    end <= n,
                    n == chars@.len(),
                    chars@ == source.source@,
                    crate::plan::last_separator_end(source.source@, n as nat) == crate::plan::last_separator_end(source.source@, end as nat),
                decreases end,
            {
                end = end - 1;
            }
            if end == 0 {
                String::new()
            } else if end == 1 {
                proof {
                    reveal_strlit("/");
                }
                owned("/")
            } else {
                let mut out: Vec<char> = Vec::new();
                let mut k: usize = 0;
                while k < end - 1
                    invariant
                        k <= end - 1,
                        end <= n,
                        n == chars@.len(),
                        chars@ == source.source@,
                        out@ == source.source@.take(k as int),
                    decreases end - 1 - k,
                {
                    out.push(chars[k]);
                    k = k + 1;
                    assert(out@ =~= source.source@.take(k as int));
                }
                crate::text::from_chars(&out)
            }
        },
    }
}

} // verus!
