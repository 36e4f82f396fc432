use vstd::prelude::*;

use crate::domain::CandidateRelease;
use crate::layout::{join_path, join_spec, relative_spec, relative_to};
use crate::paths::{
    file_name_of, lemma_components_pushed, lemma_plain_relative, lemma_pushed_onto_empty, lemma_strip_then_push, path_name,
    plain_relative, same_path,
};
use crate::source::PlannedTags;
use crate::text::{append, owned, push_decimal, decimal, text_eq};
use crate::matching::opt_text_eq;

verus! {

/// A tag that grooming can change.
#[derive(Clone, Copy, Debug, PartialEq, Eq)]
pub enum TagField {
    Artist,
    Artists,
    ArtistIds,
    AlbumArtist,
    AlbumArtists,
    AlbumArtistIds,
    Album,
    Compilation,
    OriginalYear,
    DiscNumber,
    DiscTotal,
    TrackNumber,
    TrackTotal,
    Title,
    MusicBrainzRecordingId,
    MusicBrainzReleaseGroupId,
}

/// How a tag field is named to the user.
pub open spec fn tag_field_label(field: TagField) -> Seq<char> {
    match field {
        TagField::Artist => "artist"@,
        TagField::Artists => "artists"@,
        TagField::ArtistIds => "MusicBrainz artist IDs"@,
        TagField::AlbumArtist => "album artist"@,
        TagField::AlbumArtists => "album artists"@,
        TagField::AlbumArtistIds => "MusicBrainz album-artist IDs"@,
        TagField::Album => "album"@,
        TagField::Compilation => "compilation"@,
        TagField::OriginalYear => "original year"@,
        TagField::DiscNumber => "disc number"@,
        TagField::DiscTotal => "disc total"@,
        TagField::TrackNumber => "track number"@,
        TagField::TrackTotal => "track total"@,
        TagField::Title => "title"@,
        TagField::MusicBrainzRecordingId => "MusicBrainz recording ID"@,
        TagField::MusicBrainzReleaseGroupId => "MusicBrainz release-group ID"@,
    }
}

impl TagField {
    /// The name shown for this field.
    pub fn label(self) -> (r: String)
        ensures
            r@ == tag_field_label(self),
    {
        match self {
            TagField::Artist => owned("artist"),
            TagField::Artists => owned("artists"),
            TagField::ArtistIds => owned("MusicBrainz artist IDs"),
            TagField::AlbumArtist => owned("album artist"),
            TagField::AlbumArtists => owned("album artists"),
            TagField::AlbumArtistIds => owned("MusicBrainz album-artist IDs"),
            TagField::Album => owned("album"),
            TagField::Compilation => owned("compilation"),
            TagField::OriginalYear => owned("original year"),
            TagField::DiscNumber => owned("disc number"),
            TagField::DiscTotal => owned("disc total"),
            TagField::TrackNumber => owned("track number"),
            TagField::TrackTotal => owned("track total"),
            TagField::Title => owned("title"),
            TagField::MusicBrainzRecordingId => owned("MusicBrainz recording ID"),
            TagField::MusicBrainzReleaseGroupId => owned("MusicBrainz release-group ID"),
        }
    }
}

/// One tag value that grooming changes.
#[derive(Clone, Debug, PartialEq, Eq)]
pub struct TagChange {
    pub field: TagField,
    pub before: Option<String>,
    pub after: String,
}

/// The contents of a `TagChange`.
pub struct TagChangeV {
    pub field: TagField,
    pub before: Option<Seq<char>>,
    pub after: Seq<char>,
}

impl DeepView for TagChange {
    type V = TagChangeV;

    open spec fn deep_view(&self) -> TagChangeV {
        TagChangeV { field: self.field, before: self.before.deep_view(), after: self.after@ }
    }
}

/// One audio file of the plan: where it comes from, where it goes, and what changes.
#[derive(Clone, Debug, PartialEq, Eq)]
pub struct TrackPlan {
    pub source_relative: String,
    pub destination: String,
    pub tag_changes: Vec<TagChange>,
    pub planned_tags: Option<PlannedTags>,
}

/// One preserved non-audio file, relative to the source and to the release directory.
#[derive(Clone, Debug, PartialEq, Eq)]
pub struct AncillaryPlan {
    pub source_relative: String,
    pub destination_relative: String,
}

/// Where the chosen artwork comes from.
#[derive(Debug, PartialEq, Eq)]
pub enum ArtworkOrigin {
    SourceSidecar { source_name: String },
    CoverArtArchive { release_group_id: String },
    Absent,
}

/// The contents of an `ArtworkOrigin`.
pub enum ArtworkOriginV {
    SourceSidecar(Seq<char>),
    CoverArtArchive(Seq<char>),
    Absent,
}

impl DeepView for ArtworkOrigin {
    type V = ArtworkOriginV;

    open spec fn deep_view(&self) -> ArtworkOriginV {
        match self {
            ArtworkOrigin::SourceSidecar { source_name } => ArtworkOriginV::SourceSidecar(source_name@),
            ArtworkOrigin::CoverArtArchive { release_group_id } => ArtworkOriginV::CoverArtArchive(release_group_id@),
            ArtworkOrigin::Absent => ArtworkOriginV::Absent,
        }
    }
}

impl Clone for ArtworkOrigin {
    fn clone(&self) -> (r: Self)
        ensures
            r.deep_view() == self.deep_view(),
    {
        match self {
            ArtworkOrigin::SourceSidecar { source_name } => ArtworkOrigin::SourceSidecar { source_name: source_name.clone() },
            ArtworkOrigin::CoverArtArchive { release_group_id } => ArtworkOrigin::CoverArtArchive { release_group_id: release_group_id.clone() },
            ArtworkOrigin::Absent => ArtworkOrigin::Absent,
        }
    }
}

/// The artwork the plan uses.
#[derive(Debug, PartialEq, Eq)]
pub struct ArtworkChoice {
    pub origin: ArtworkOrigin,
    pub label: String,
    pub dimensions: Option<(u32, u32)>,
    pub output_name: Option<String>,
}

/// The contents of an `ArtworkChoice`.
pub struct ArtworkChoiceV {
    pub origin: ArtworkOriginV,
    pub label: Seq<char>,
    pub dimensions: Option<(u32, u32)>,
    pub output_name: Option<Seq<char>>,
}

impl DeepView for ArtworkChoice {
    type V = ArtworkChoiceV;

    open spec fn deep_view(&self) -> ArtworkChoiceV {
        ArtworkChoiceV {
            origin: self.origin.deep_view(),
            label: self.label@,
            dimensions: self.dimensions,
            output_name: self.output_name.deep_view(),
        }
    }
}

impl Clone for ArtworkChoice {
    fn clone(&self) -> (r: Self)
        ensures
            r.deep_view() == self.deep_view(),
    {
        ArtworkChoice {
            origin: self.origin.clone(),
            label: self.label.clone(),
            dimensions: self.dimensions,
            output_name: crate::domain::clone_opt_string(&self.output_name),
        }
    }
}

/// How artwork is described: its label, followed by `(WIDTHxHEIGHT)` when known.
pub open spec fn artwork_description(a: ArtworkChoiceV) -> Seq<char> {
    match a.dimensions {
        Some((w, h)) => a.label + " ("@ + decimal(w as nat) + "x"@ + decimal(h as nat) + ")"@,
        None => a.label,
    }
}

impl ArtworkChoice {
    /// The artwork as shown to the user, for example `Source cover.jpg (500x500)`.
    pub fn description(&self) -> (r: String)
        ensures
            r@ == artwork_description(self.deep_view()),
    {
        match self.dimensions {
            Some((width, height)) => {
                let mut out = self.label.clone();
                append(&mut out, " (");
                push_decimal(&mut out, width as u64);
                append(&mut out, "x");
                push_decimal(&mut out, height as u64);
                append(&mut out, ")");
                out
            },
            None => self.label.clone(),
        }
    }
}

/// Whether two artwork choices are the same.
pub fn artwork_equal(a: &ArtworkChoice, b: &ArtworkChoice) -> (r: bool)
    ensures
        r == (a.deep_view() == b.deep_view()),
{
    let origin_equal = match (&a.origin, &b.origin) {
        (ArtworkOrigin::SourceSidecar { source_name: x }, ArtworkOrigin::SourceSidecar { source_name: y }) => text_eq(x.as_str(), y.as_str()),
        (ArtworkOrigin::CoverArtArchive { release_group_id: x }, ArtworkOrigin::CoverArtArchive { release_group_id: y }) => text_eq(x.as_str(), y.as_str()),
        (ArtworkOrigin::Absent, ArtworkOrigin::Absent) => true,
        _ => false,
    };
    let dimensions_equal = match (a.dimensions, b.dimensions) {
        (Some((w1, h1)), Some((w2, h2))) => w1 == w2 && h1 == h2,
        (None, None) => true,
        _ => false,
    };
    origin_equal && text_eq(a.label.as_str(), b.label.as_str()) && dimensions_equal
        && opt_text_eq(&a.output_name, &b.output_name)
}

/// A warning shown with the plan.
#[derive(Clone, Debug, PartialEq, Eq)]
pub struct PlanWarning {
    pub summary: String,
    pub detail: String,
}

/// Where the planned metadata comes from.
#[derive(Clone, Debug, PartialEq, Eq)]
pub enum MetadataBasis {
    MusicBrainz(CandidateRelease),
    ExistingTags,
}

/// How the metadata was selected.
#[derive(Clone, Copy, Debug, PartialEq, Eq)]
pub enum MatchSelection {
    Automatic,
    UserChosen,
    ExistingTags,
}

/// Everything that Apply will do, shown to the user before anything changes.
#[derive(Debug, PartialEq, Eq)]
pub struct GroomingPlan {
    pub source_label: String,
    pub metadata: MetadataBasis,
    pub match_selection: MatchSelection,
    pub match_reasons: Vec<String>,
    pub destination_root: String,
    pub destination: String,
    pub tracks: Vec<TrackPlan>,
    pub ancillary: Vec<AncillaryPlan>,
    pub ancillary_directories: Vec<String>,
    pub artwork: ArtworkChoice,
    pub artwork_alternatives: Vec<ArtworkChoice>,
    pub warnings: Vec<PlanWarning>,
    pub preserved_embedded_artwork: usize,
    pub archive_artwork_bytes: Option<Vec<u8>>,
}

/// The number of tag changes in the first `n` tracks.
pub open spec fn tag_change_total(tracks: Seq<TrackPlan>, n: nat) -> nat
    decreases n,
{
    if n == 0 { 0 } else { tag_change_total(tracks, (n - 1) as nat) + tracks[n - 1].tag_changes@.len() }
}

/// The file name of a path, as `Path::file_name` gives it: its last component
/// when that is a named part other than `..`.
pub open spec fn file_name(p: Seq<char>) -> Option<Seq<char>> {
    path_name(p)
}

/// The index just after the last `/` among the first `n` characters of `p`, or 0.
pub open spec fn last_separator_end(p: Seq<char>, n: nat) -> nat
    decreases n,
{
    if n == 0 { 0 } else if p[n - 1] == '/' { n } else { last_separator_end(p, (n - 1) as nat) }
}

/// The planned file name differs from the source name.
pub open spec fn renamed(t: TrackPlan) -> bool {
    file_name(t.destination@) != Some(t.source_relative@)
}

/// The number of renamed tracks among the first `n`.
pub open spec fn renamed_count(tracks: Seq<TrackPlan>, n: nat) -> nat
    decreases n,
{
    if n == 0 { 0 } else { renamed_count(tracks, (n - 1) as nat) + if renamed(tracks[n - 1]) { 1nat } else { 0nat } }
}

proof fn lemma_renamed_count_bound(tracks: Seq<TrackPlan>, n: nat)
    ensures
        renamed_count(tracks, n) <= n,
    decreases n,
{
    if n > 0 {
        lemma_renamed_count_bound(tracks, (n - 1) as nat);
    }
}

/// The file name of `path`, if it has one.
pub fn path_file_name(path: &str) -> (r: Option<String>)
    ensures
        r.deep_view() == file_name(path@),
{
    file_name_of(path)
}

/// Changes the plan's artwork to `artwork`, keeping the previous choice among the
/// alternatives (and `artwork` not among them).
pub open spec fn with_artwork_spec(plan: GroomingPlan, artwork: ArtworkChoiceV, result: GroomingPlan) -> bool {
    &&& result.artwork.deep_view() == artwork
    &&& result.source_label == plan.source_label
    &&& result.metadata == plan.metadata
    &&& result.match_selection == plan.match_selection
    &&& result.match_reasons == plan.match_reasons
    &&& result.destination_root == plan.destination_root
    &&& result.destination == plan.destination
    &&& result.tracks == plan.tracks
    &&& result.ancillary == plan.ancillary
    &&& result.ancillary_directories == plan.ancillary_directories
    &&& result.warnings == plan.warnings
    &&& result.preserved_embedded_artwork == plan.preserved_embedded_artwork
    &&& result.archive_artwork_bytes == plan.archive_artwork_bytes
    &&& if plan.artwork.deep_view() == artwork {
        result == plan
    } else {
        result.artwork_alternatives.deep_view() == plan.artwork_alternatives.deep_view().filter(other_than(artwork)).push(
            plan.artwork.deep_view(),
        )
    }
}

/// Selecting the artwork a plan already has changes nothing, so selecting the
/// same artwork twice is the same as selecting it once.
pub proof fn law_reselecting_artwork_changes_nothing(plan: GroomingPlan, artwork: ArtworkChoiceV, once: GroomingPlan, twice: GroomingPlan)
    requires
        with_artwork_spec(plan, artwork, once),
        with_artwork_spec(once, artwork, twice),
    ensures
        twice == once,
        plan.artwork.deep_view() == artwork ==> once == plan,
{
}

/// The artwork choices other than `artwork`.
pub open spec fn other_than(artwork: ArtworkChoiceV) -> spec_fn(ArtworkChoiceV) -> bool {
    |a: ArtworkChoiceV| a != artwork
}

impl GroomingPlan {
    /// The number of tag values the plan changes, over all tracks.
    pub fn tag_change_count(&self) -> (r: usize)
        requires
            tag_change_total(self.tracks@, self.tracks@.len()) <= usize::MAX,
        ensures
            r == tag_change_total(self.tracks@, self.tracks@.len()),
    {
        let mut total: usize = 0;
        let mut i: usize = 0;
        while i < self.tracks.len()
            invariant
                i <= self.tracks@.len(),
                total == tag_change_total(self.tracks@, i as nat),
                tag_change_total(self.tracks@, self.tracks@.len()) <= usize::MAX,
            decreases self.tracks@.len() - i,
        {
            proof {
                lemma_tag_change_total_monotone(self.tracks@, (i + 1) as nat, self.tracks@.len());
            }
            total = total + self.tracks[i].tag_changes.len();
            i = i + 1;
        }
        total
    }

    /// The number of tracks whose file name changes.
    pub fn filename_change_count(&self) -> (r: usize)
        ensures
            r == renamed_count(self.tracks@, self.tracks@.len()),
    {
        let mut count: usize = 0;
        let mut i: usize = 0;
        while i < self.tracks.len()
            invariant
                i <= self.tracks@.len(),
                count == renamed_count(self.tracks@, i as nat),
            decreases self.tracks@.len() - i,
        {
            proof {
                lemma_renamed_count_bound(self.tracks@, i as nat);
            }
            let track = &self.tracks[i];
            let name = path_file_name(track.destination.as_str());
            let same = match &name {
                Some(name) => text_eq(name.as_str(), track.source_relative.as_str()),
                None => false,
            };
            if !same {
                count = count + 1;
            }
            i = i + 1;
        }
        count
    }

    /// The plan with `artwork` selected.
    pub fn with_artwork(self, artwork: ArtworkChoice) -> (r: Self)
        ensures
            with_artwork_spec(self, artwork.deep_view(), r),
    {
        if artwork_equal(&self.artwork, &artwork) {
            return self;
        }
        let ghost old_alternatives = self.artwork_alternatives.deep_view();
        let ghost target = artwork.deep_view();
        let previous = self.artwork;
        let mut kept: Vec<ArtworkChoice> = Vec::new();
        let mut i: usize = 0;
        while i < self.artwork_alternatives.len()
            invariant
                i <= self.artwork_alternatives@.len(),
                old_alternatives == self.artwork_alternatives.deep_view(),
                target == artwork.deep_view(),
                kept.deep_view() == old_alternatives.take(i as int).filter(other_than(target)),
            decreases self.artwork_alternatives@.len() - i,
        {
            let alternative = &self.artwork_alternatives[i];
            let ghost before = kept.deep_view();
            proof {
                reveal_with_fuel(Seq::filter, 1);
                assert(old_alternatives.take(i + 1).drop_last() =~= old_alternatives.take(i as int));
            }
            if !artwork_equal(alternative, &artwork) {
                kept.push(alternative.clone());
                assert(kept.deep_view() =~= before.push(old_alternatives[i as int]));
            }
            i = i + 1;
        }
        assert(old_alternatives.take(old_alternatives.len() as int) =~= old_alternatives);
        let ghost before_push = kept.deep_view();
        let ghost previous_view = previous.deep_view();
        kept.push(previous);
        assert(kept.deep_view() =~= before_push.push(previous_view));
        GroomingPlan {
            source_label: self.source_label,
            metadata: self.metadata,
            match_selection: self.match_selection,
            match_reasons: self.match_reasons,
            destination_root: self.destination_root,
            destination: self.destination,
            tracks: self.tracks,
            ancillary: self.ancillary,
            ancillary_directories: self.ancillary_directories,
            artwork,
            artwork_alternatives: kept,
            warnings: self.warnings,
            preserved_embedded_artwork: self.preserved_embedded_artwork,
            archive_artwork_bytes: self.archive_artwork_bytes,
        }
    }
}

proof fn lemma_tag_change_total_monotone(tracks: Seq<TrackPlan>, a: nat, b: nat)
    requires
        a <= b,
    ensures
        tag_change_total(tracks, a) <= tag_change_total(tracks, b),
    decreases b - a,
{
    if a < b {
        lemma_tag_change_total_monotone(tracks, a, (b - 1) as nat);
    }
}

/// Why a plan cannot be moved to another destination root.
#[derive(Clone, Debug, PartialEq, Eq)]
pub enum PlanError {
    DestinationOutsideRoot(String),
}

pub open spec fn plan_error_text(e: PlanError) -> Seq<char> {
    match e {
        PlanError::DestinationOutsideRoot(path) => "planned destination "@ + path@ + " is outside its destination root"@,
    }
}

impl PlanError {
    /// The message shown for this error.
    pub fn describe(&self) -> (r: String)
        ensures
            r@ == plan_error_text(*self),
    {
        match self {
            PlanError::DestinationOutsideRoot(path) => {
                let mut out = owned("planned destination ");
                append(&mut out, path.as_str());
                append(&mut out, " is outside its destination root");
                out
            },
        }
    }
}

/// The index of the first track among the first `n` whose destination is not under `root`.
pub open spec fn first_outside(tracks: Seq<TrackPlan>, root: Seq<char>, n: nat) -> Option<int>
    decreases n,
{
    if n == 0 {
        None
    } else {
        match first_outside(tracks, root, (n - 1) as nat) {
            Some(i) => Some(i),
            None => if relative_spec(tracks[n - 1].destination@, root) is None { Some(n - 1) } else { None },
        }
    }
}

/// The result of moving a plan to `new_root`: every destination keeps its place
/// relative to the old root.
pub open spec fn relocated(plan: GroomingPlan, new_root: Seq<char>, r: Result<GroomingPlan, PlanError>) -> bool {
    let root = plan.destination_root@;
    match relative_spec(plan.destination@, root) {
        None => r matches Err(PlanError::DestinationOutsideRoot(path)) && path@ == plan.destination@,
        Some(rel) => match first_outside(plan.tracks@, root, plan.tracks@.len()) {
            Some(i) => r matches Err(PlanError::DestinationOutsideRoot(path)) && path@ == plan.tracks@[i].destination@,
            None => r matches Ok(p) && {
                &&& p.destination_root@ == new_root
                &&& p.destination@ == join_spec(new_root, rel)
                &&& p.tracks@.len() == plan.tracks@.len()
                &&& forall|i: int| 0 <= i < plan.tracks@.len() ==> {
                    let before = plan.tracks@[i];
                    let after = #[trigger] p.tracks@[i];
                    &&& after.destination@ == join_spec(new_root, relative_spec(before.destination@, root)->0)
                    &&& after.source_relative == before.source_relative
                    &&& after.tag_changes == before.tag_changes
                    &&& after.planned_tags == before.planned_tags
                }
                &&& p.source_label == plan.source_label
                &&& p.metadata == plan.metadata
                &&& p.match_selection == plan.match_selection
                &&& p.match_reasons == plan.match_reasons
                &&& p.ancillary == plan.ancillary
                &&& p.ancillary_directories == plan.ancillary_directories
                &&& p.artwork == plan.artwork
                &&& p.artwork_alternatives == plan.artwork_alternatives
                &&& p.warnings == plan.warnings
                &&& p.preserved_embedded_artwork == plan.preserved_embedded_artwork
                &&& p.archive_artwork_bytes == plan.archive_artwork_bytes
            },
        },
    }
}

impl GroomingPlan {
    /// The plan moved under `destination_root`, keeping the relative layout.
    pub fn with_destination_root(self, destination_root: String) -> (r: Result<Self, PlanError>)
        ensures
            relocated(self, destination_root@, r),
    {
        let ghost plan = self;
        let ghost root = self.destination_root@;
        let relative_destination = match relative_to(self.destination.as_str(), self.destination_root.as_str()) {
            Some(rel) => rel,
            None => return Err(PlanError::DestinationOutsideRoot(self.destination)),
        };
        let mut relatives: Vec<String> = Vec::new();
        let mut i: usize = 0;
        while i < self.tracks.len()
            invariant
                i <= self.tracks@.len(),
                root == self.destination_root@,
                plan == self,
                relative_spec(self.destination@, root) is Some,
                first_outside(self.tracks@, root, i as nat) is None,
                relatives@.len() == i,
                forall|k: int| 0 <= k < i ==> relative_spec(self.tracks@[k].destination@, root) == Some((#[trigger] relatives@[k])@),
            decreases self.tracks@.len() - i,
        {
            match relative_to(self.tracks[i].destination.as_str(), self.destination_root.as_str()) {
                Some(rel) => relatives.push(rel),
                None => {
                    proof {
                        lemma_first_outside_stays(self.tracks@, root, (i + 1) as nat, self.tracks@.len());
                    }
                    let destination = self.tracks[i].destination.clone();
                    return Err(PlanError::DestinationOutsideRoot(destination));
                },
            }
            i = i + 1;
        }
        let destination = join_path(destination_root.as_str(), relative_destination.as_str());
        let ghost old_tracks = self.tracks@;
        let mut remaining = self.tracks;
        let mut tracks: Vec<TrackPlan> = Vec::new();
        let mut j: usize = 0;
        let total: usize = relatives.len();
        while remaining.len() > 0
            invariant
                j + remaining@.len() == old_tracks.len(),
                total == old_tracks.len(),
                relatives@.len() == old_tracks.len(),
                tracks@.len() == j,
                forall|k: int| 0 <= k < remaining@.len() ==> #[trigger] remaining@[k] == old_tracks[j + k],
                forall|k: int| 0 <= k < j ==> {
                    let before = old_tracks[k];
                    let after = #[trigger] tracks@[k];
                    &&& after.destination@ == join_spec(destination_root@, relatives@[k]@)
                    &&& after.source_relative == before.source_relative
                    &&& after.tag_changes == before.tag_changes
                    &&& after.planned_tags == before.planned_tags
                },
            decreases remaining@.len(),
        {
            let ghost before_remaining = remaining@;
            let track = remaining.remove(0);
            assert forall|k: int| 0 <= k < remaining@.len() implies #[trigger] remaining@[k] == old_tracks[j + 1 + k] by {
                assert(remaining@[k] == before_remaining[k + 1]);
            }
            let moved = join_path(destination_root.as_str(), relatives[j].as_str());
            tracks.push(TrackPlan {
                source_relative: track.source_relative,
                destination: moved,
                tag_changes: track.tag_changes,
                planned_tags: track.planned_tags,
            });
            j = j + 1;
        }
        Ok(GroomingPlan {
            source_label: self.source_label,
            metadata: self.metadata,
            match_selection: self.match_selection,
            match_reasons: self.match_reasons,
            destination_root,
            destination,
            tracks,
            ancillary: self.ancillary,
            ancillary_directories: self.ancillary_directories,
            artwork: self.artwork,
            artwork_alternatives: self.artwork_alternatives,
            warnings: self.warnings,
            preserved_embedded_artwork: self.preserved_embedded_artwork,
            archive_artwork_bytes: self.archive_artwork_bytes,
        })
    }
}

proof fn lemma_first_outside_stays(tracks: Seq<TrackPlan>, root: Seq<char>, n: nat, m: nat)
    requires
        n <= m,
        first_outside(tracks, root, n) is Some,
    ensures
        first_outside(tracks, root, m) == first_outside(tracks, root, n),
    decreases m - n,
{
    if n < m {
        lemma_first_outside_stays(tracks, root, n, (m - 1) as nat);
    }
}

/// What a finished Apply reports.
#[derive(Clone, Debug, PartialEq, Eq)]
pub struct ApplyReport {
    pub destination: String,
    pub tracks_validated: usize,
    pub artwork_validated: bool,
    pub source_unchanged: bool,
    pub warnings: Vec<String>,
    pub publication_copied: bool,
}

/// Whether moving `plan` to `new_root` keeps its relative paths: always when the
/// plan has a root or the new root is empty; with an empty root and a new one,
/// only when every destination is a plain relative path (an absolute one stays
/// where it is, and a leading `.` is not kept below the new root).
pub open spec fn keeps_relative_paths(plan: GroomingPlan, new_root: Seq<char>) -> bool {
    ||| plan.destination_root@.len() > 0
    ||| new_root.len() == 0
    ||| (plain_relative(plan.destination@) && forall|i: int|
        0 <= i < plan.tracks@.len() ==> plain_relative(#[trigger] plan.tracks@[i].destination@))
}

/// One destination moved from `root` to `new_root`: it is found below the new
/// root as the same relative path (the very same text when `root` is not
/// empty), and moving it back gives the same path as before.
proof fn lemma_moved_destination(dest: Seq<char>, root: Seq<char>, new_root: Seq<char>)
    requires
        relative_spec(dest, root) is Some,
        root.len() > 0 || new_root.len() == 0 || plain_relative(dest),
    ensures
        ({
            let rel = relative_spec(dest, root)->0;
            let moved = join_spec(new_root, rel);
            &&& relative_spec(moved, new_root) is Some
            &&& same_path(relative_spec(moved, new_root)->0, rel)
            &&& root.len() > 0 ==> relative_spec(moved, new_root)->0 == rel
            &&& same_path(join_spec(root, relative_spec(moved, new_root)->0), dest)
        }),
{
    let rel = relative_spec(dest, root)->0;
    if root.len() > 0 {
        lemma_strip_then_push(dest, root, new_root);
    } else if new_root.len() == 0 {
        lemma_pushed_onto_empty(rel);
    } else {
        lemma_plain_relative(dest, new_root);
        lemma_pushed_onto_empty(crate::paths::render(crate::paths::named_parts(crate::paths::segments(dest))));
    }
}

/// Two destinations that came out of the same move land on the same path when
/// both are moved on to a further root.
proof fn lemma_moved_on(dest: Seq<char>, root: Seq<char>, new_root: Seq<char>, further: Seq<char>)
    requires
        relative_spec(dest, root) is Some,
        root.len() > 0 || new_root.len() == 0 || plain_relative(dest),
    ensures
        ({
            let rel = relative_spec(dest, root)->0;
            let again = relative_spec(join_spec(new_root, rel), new_root)->0;
            same_path(join_spec(further, again), join_spec(further, rel))
        }),
{
    lemma_moved_destination(dest, root, new_root);
    if root.len() == 0 && new_root.len() > 0 {
        lemma_plain_relative(dest, new_root);
        let again = crate::paths::render(crate::paths::named_parts(crate::paths::segments(dest)));
        if further.len() > 0 {
            lemma_components_pushed(further, again);
            lemma_components_pushed(further, dest);
        } else {
            lemma_pushed_onto_empty(again);
            lemma_pushed_onto_empty(dest);
        }
    }
}

/// Law: moving a plan to another root keeps the layout below the root: the
/// release directory and every track are found below the new root as the same
/// relative paths as below the old one.
pub proof fn law_relocation_keeps_relative_layout(plan: GroomingPlan, new_root: Seq<char>, r: Result<GroomingPlan, PlanError>)
    requires
        relocated(plan, new_root, r),
        r is Ok,
        keeps_relative_paths(plan, new_root),
    ensures
        relative_spec(r->Ok_0.destination@, new_root) is Some,
        same_path(relative_spec(r->Ok_0.destination@, new_root)->0, relative_spec(plan.destination@, plan.destination_root@)->0),
        r->Ok_0.tracks@.len() == plan.tracks@.len(),
        forall|i: int| 0 <= i < plan.tracks@.len() ==> {
            let moved = (#[trigger] r->Ok_0.tracks@[i]).destination@;
            &&& relative_spec(moved, new_root) is Some
            &&& same_path(relative_spec(moved, new_root)->0, relative_spec(plan.tracks@[i].destination@, plan.destination_root@)->0)
        },
{
    let p = r->Ok_0;
    let root = plan.destination_root@;
    lemma_moved_destination(plan.destination@, root, new_root);
    assert forall|i: int| 0 <= i < plan.tracks@.len() implies {
        let moved = (#[trigger] p.tracks@[i]).destination@;
        &&& relative_spec(moved, new_root) is Some
        &&& same_path(relative_spec(moved, new_root)->0, relative_spec(plan.tracks@[i].destination@, root)->0)
    } by {
        lemma_first_outside_none(plan.tracks@, root, plan.tracks@.len(), i);
        lemma_moved_destination(plan.tracks@[i].destination@, root, new_root);
    }
}

/// Law: moving a plan twice lands on the same paths as moving it once to the
/// final root (on the very same text when the plan has a root).
pub proof fn law_relocation_composes(
    plan: GroomingPlan,
    first_root: Seq<char>,
    second_root: Seq<char>,
    once: Result<GroomingPlan, PlanError>,
    twice: Result<GroomingPlan, PlanError>,
    direct: Result<GroomingPlan, PlanError>,
)
    requires
        relocated(plan, first_root, once),
        once is Ok,
        keeps_relative_paths(plan, first_root),
        relocated(once->Ok_0, second_root, twice),
        relocated(plan, second_root, direct),
    ensures
        twice is Ok,
        direct is Ok,
        same_path(twice->Ok_0.destination@, direct->Ok_0.destination@),
        plan.destination_root@.len() > 0 ==> twice->Ok_0.destination@ == direct->Ok_0.destination@,
        twice->Ok_0.tracks@.len() == direct->Ok_0.tracks@.len(),
        forall|i: int| 0 <= i < twice->Ok_0.tracks@.len() ==> same_path(
            (#[trigger] twice->Ok_0.tracks@[i]).destination@,
            direct->Ok_0.tracks@[i].destination@,
        ),
        plan.destination_root@.len() > 0 ==> forall|i: int| 0 <= i < twice->Ok_0.tracks@.len() ==> (
        #[trigger] twice->Ok_0.tracks@[i]).destination@ == direct->Ok_0.tracks@[i].destination@,
{
    let root = plan.destination_root@;
    let p1 = once->Ok_0;
    law_relocation_keeps_relative_layout(plan, first_root, once);
    assert(first_outside(p1.tracks@, first_root, p1.tracks@.len()) is None) by {
        lemma_first_outside_none_back(p1.tracks@, first_root, p1.tracks@.len());
    }
    lemma_moved_on(plan.destination@, root, first_root, second_root);
    lemma_moved_destination(plan.destination@, root, first_root);
    let p2 = twice->Ok_0;
    let p3 = direct->Ok_0;
    assert forall|i: int| 0 <= i < p2.tracks@.len() implies same_path((#[trigger] p2.tracks@[i]).destination@, p3.tracks@[i].destination@)
        && (root.len() > 0 ==> p2.tracks@[i].destination@ == p3.tracks@[i].destination@) by {
        lemma_first_outside_none(plan.tracks@, root, plan.tracks@.len(), i);
        lemma_moved_on(plan.tracks@[i].destination@, root, first_root, second_root);
        lemma_moved_destination(plan.tracks@[i].destination@, root, first_root);
    }
}

/// Law: moving a plan to another root and back gives the plan back: the same
/// root, the same paths (as paths, compared by components), and everything else
/// unchanged.
pub proof fn law_relocation_round_trip(
    plan: GroomingPlan,
    new_root: Seq<char>,
    there: Result<GroomingPlan, PlanError>,
    back: Result<GroomingPlan, PlanError>,
)
    requires
        relocated(plan, new_root, there),
        there is Ok,
        keeps_relative_paths(plan, new_root),
        relocated(there->Ok_0, plan.destination_root@, back),
    ensures
        back is Ok,
        back->Ok_0.destination_root@ == plan.destination_root@,
        same_path(back->Ok_0.destination@, plan.destination@),
        back->Ok_0.tracks@.len() == plan.tracks@.len(),
        forall|i: int| 0 <= i < plan.tracks@.len() ==> {
            let before = plan.tracks@[i];
            let after = #[trigger] back->Ok_0.tracks@[i];
            &&& same_path(after.destination@, before.destination@)
            &&& after.source_relative == before.source_relative
            &&& after.tag_changes == before.tag_changes
            &&& after.planned_tags == before.planned_tags
        },
        back->Ok_0.source_label == plan.source_label,
        back->Ok_0.metadata == plan.metadata,
        back->Ok_0.match_selection == plan.match_selection,
        back->Ok_0.match_reasons == plan.match_reasons,
        back->Ok_0.ancillary == plan.ancillary,
        back->Ok_0.ancillary_directories == plan.ancillary_directories,
        back->Ok_0.artwork == plan.artwork,
        back->Ok_0.artwork_alternatives == plan.artwork_alternatives,
        back->Ok_0.warnings == plan.warnings,
        back->Ok_0.preserved_embedded_artwork == plan.preserved_embedded_artwork,
        back->Ok_0.archive_artwork_bytes == plan.archive_artwork_bytes,
{
    let root = plan.destination_root@;
    let p1 = there->Ok_0;
    law_relocation_keeps_relative_layout(plan, new_root, there);
    assert(first_outside(p1.tracks@, new_root, p1.tracks@.len()) is None) by {
        lemma_first_outside_none_back(p1.tracks@, new_root, p1.tracks@.len());
    }
    lemma_moved_destination(plan.destination@, root, new_root);
    let p2 = back->Ok_0;
    assert forall|i: int| 0 <= i < plan.tracks@.len() implies same_path((#[trigger] p2.tracks@[i]).destination@, plan.tracks@[i].destination@) by {
        lemma_first_outside_none(plan.tracks@, root, plan.tracks@.len(), i);
        lemma_moved_destination(plan.tracks@[i].destination@, root, new_root);
    }
}

/// With no track outside the root among the first `n`, each of them lies under it.
proof fn lemma_first_outside_none(tracks: Seq<TrackPlan>, root: Seq<char>, n: nat, i: int)
    requires
        first_outside(tracks, root, n) is None,
        0 <= i < n,
    ensures
        relative_spec(tracks[i].destination@, root) is Some,
    decreases n,
{
    if i < n - 1 {
        lemma_first_outside_none(tracks, root, (n - 1) as nat, i);
    }
}

/// When each of the first `n` tracks lies under the root, none is outside it.
proof fn lemma_first_outside_none_back(tracks: Seq<TrackPlan>, root: Seq<char>, n: nat)
    requires
        forall|i: int| 0 <= i < n ==> relative_spec((#[trigger] tracks[i]).destination@, root) is Some,
    ensures
        first_outside(tracks, root, n) is None,
    decreases n,
{
    if n > 0 {
        lemma_first_outside_none_back(tracks, root, (n - 1) as nat);
    }
}

/// Law: after choosing artwork that differs from the current choice, the new
/// choice is current, the old one is among the alternatives, and the new one is not.
pub proof fn law_artwork_choice_moves_previous_to_alternatives(plan: GroomingPlan, artwork: ArtworkChoiceV, r: GroomingPlan)
    requires
        with_artwork_spec(plan, artwork, r),
        plan.artwork.deep_view() != artwork,
    ensures
        r.artwork.deep_view() == artwork,
        r.artwork_alternatives.deep_view().contains(plan.artwork.deep_view()),
        !r.artwork_alternatives.deep_view().contains(artwork),
{
    let kept = plan.artwork_alternatives.deep_view().filter(other_than(artwork));
    let alts = r.artwork_alternatives.deep_view();
    assert(alts == kept.push(plan.artwork.deep_view()));
    assert(alts[alts.len() - 1] == plan.artwork.deep_view());
    assert forall|k: int| 0 <= k < alts.len() implies alts[k] != artwork by {
        if k < kept.len() {
            assert(alts[k] == kept[k]);
            assert(kept.contains(kept[k]));
            plan.artwork_alternatives.deep_view().lemma_filter_contains_rev(other_than(artwork), kept[k]);
        }
    }
}

} // verus!
