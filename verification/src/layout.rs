use vstd::prelude::*;

use crate::domain::ArtistCredit;
use crate::paths::{pushed, pushed_path, strip_path, stripped};
use crate::text::{
    ascii_alnum, ascii_lower, char_is_control, chars_of, collapse_whitespace, collapse_ws, decimal,
    decimal2, is_ascii_alnum, is_control, owned, push_char, push_decimal,
    push_decimal2, append, text_eq, to_ascii_lowercase, trim_by, trim_leading_dots, trim_start_by,
    trim_spaces_and_dots, is_space_or_dot,
};

verus! {

/// One track to lay out: its title, position and audio extension.
#[derive(Clone, Debug, PartialEq, Eq)]
pub struct LayoutTrack {
    pub title: String,
    pub disc: u16,
    pub track: u16,
    pub extension: String,
}

/// The contents of a `LayoutTrack`.
pub struct LayoutTrackV {
    pub title: Seq<char>,
    pub disc: u16,
    pub track: u16,
    pub extension: Seq<char>,
}

impl DeepView for LayoutTrack {
    type V = LayoutTrackV;

    open spec fn deep_view(&self) -> LayoutTrackV {
        LayoutTrackV { title: self.title@, disc: self.disc, track: self.track, extension: self.extension@ }
    }
}

/// A release to lay out.
#[derive(Clone, Debug, PartialEq, Eq)]
pub struct ReleaseLayout {
    pub album_artist: ArtistCredit,
    pub title: String,
    pub original_year: Option<u16>,
    pub disc_count: u16,
    pub tracks: Vec<LayoutTrack>,
}

/// A single track outside any release.
#[derive(Clone, Debug, PartialEq, Eq)]
pub struct StandaloneLayout {
    pub artist: ArtistCredit,
    pub title: String,
    pub extension: String,
}

/// The relative directory of a release and the relative path of each track, in order.
/// Paths use `/` between components.
#[derive(Clone, Debug, PartialEq, Eq)]
pub struct PlannedLayout {
    pub directory: String,
    pub tracks: Vec<String>,
}

/// Why a layout cannot be planned.
#[derive(Clone, Debug, PartialEq, Eq)]
pub enum LayoutError {
    EmptyComponent(&'static str),
    InvalidExtension(String),
    InvalidPosition { disc: u16, track: u16 },
    Collision(String),
}

/// The contents of a `LayoutError`.
pub enum LayoutErrorV {
    EmptyComponent(Seq<char>),
    InvalidExtension(Seq<char>),
    InvalidPosition { disc: u16, track: u16 },
    Collision(Seq<char>),
}

impl DeepView for LayoutError {
    type V = LayoutErrorV;

    open spec fn deep_view(&self) -> LayoutErrorV {
        match self {
            LayoutError::EmptyComponent(field) => LayoutErrorV::EmptyComponent(field@),
            LayoutError::InvalidExtension(value) => LayoutErrorV::InvalidExtension(value@),
            LayoutError::InvalidPosition { disc, track } => LayoutErrorV::InvalidPosition { disc: *disc, track: *track },
            LayoutError::Collision(path) => LayoutErrorV::Collision(path@),
        }
    }
}

/// The text a layout error is shown as.
pub open spec fn layout_error_text(e: LayoutErrorV) -> Seq<char> {
    match e {
        LayoutErrorV::EmptyComponent(field) => field + " is empty after filename sanitization"@,
        LayoutErrorV::InvalidExtension(value) => "invalid audio extension: "@ + value,
        LayoutErrorV::InvalidPosition { disc, track } =>
            "invalid disc/track position "@ + decimal(disc as nat) + "-"@ + decimal(track as nat),
        LayoutErrorV::Collision(path) => "multiple tracks would use "@ + path,
    }
}

impl LayoutError {
    /// The message shown for this error.
    pub fn describe(&self) -> (r: String)
        ensures
            r@ == layout_error_text(self.deep_view()),
    {
        match self {
            LayoutError::EmptyComponent(field) => {
                let mut out = owned(field);
                append(&mut out, " is empty after filename sanitization");
                out
            },
            LayoutError::InvalidExtension(value) => {
                let mut out = owned("invalid audio extension: ");
                append(&mut out, value.as_str());
                out
            },
            LayoutError::InvalidPosition { disc, track } => {
                let mut out = owned("invalid disc/track position ");
                push_decimal(&mut out, *disc as u64);
                append(&mut out, "-");
                push_decimal(&mut out, *track as u64);
                out
            },
            LayoutError::Collision(path) => {
                let mut out = owned("multiple tracks would use ");
                append(&mut out, path.as_str());
                out
            },
        }
    }
}

// ---------------------------------------------------------------------------
// Path components
// ---------------------------------------------------------------------------

/// What one character of a name becomes in a path component: slashes become
/// ` - `, control characters a space, everything else itself.
pub open spec fn replacement(c: char) -> Seq<char> {
    if c == '/' || c == '\\' {
        " - "@
    } else if char_is_control(c) {
        seq![' ']
    } else {
        seq![c]
    }
}

/// Every character of `s` replaced by its `replacement`.
pub open spec fn replace_awkward(s: Seq<char>) -> Seq<char>
    decreases s.len(),
{
    if s.len() == 0 {
        Seq::<char>::empty()
    } else {
        replace_awkward(s.drop_last()) + replacement(s.last())
    }
}

/// The path component for a name: awkward characters replaced, whitespace
/// collapsed, and spaces and dots removed from both ends.
pub open spec fn component_text(s: Seq<char>) -> Seq<char> {
    trim_by(collapse_whitespace(replace_awkward(s)), |c: char| is_space_or_dot(c))
}

/// The component for `value`, or `EmptyComponent(field)` when nothing remains.
pub open spec fn component_spec(field: Seq<char>, value: Seq<char>) -> Result<Seq<char>, LayoutErrorV> {
    if component_text(value).len() == 0 {
        Err(LayoutErrorV::EmptyComponent(field))
    } else {
        Ok(component_text(value))
    }
}

/// The extension without leading dots, in ASCII lowercase.
pub open spec fn extension_text(s: Seq<char>) -> Seq<char> {
    trim_start_by(s, |c: char| c == '.').map_values(|c: char| ascii_lower(c))
}

/// The extension for `value`; it must be non-empty ASCII letters and digits.
pub open spec fn extension_spec(value: Seq<char>) -> Result<Seq<char>, LayoutErrorV> {
    let e = extension_text(value);
    if e.len() == 0 || !(forall|i: int| 0 <= i < e.len() ==> ascii_alnum(#[trigger] e[i])) {
        Err(LayoutErrorV::InvalidExtension(e))
    } else {
        Ok(e)
    }
}

fn component(field: &'static str, value: &str) -> (r: Result<String, LayoutError>)
    ensures
        match component_spec(field@, value@) {
            Ok(text) => r matches Ok(s) && s@ == text,
            Err(e) => r matches Err(err) && err.deep_view() == e,
        },
{
    let chars = chars_of(value);
    let mut replaced = String::new();
    let mut i: usize = 0;
    while i < chars.len()
        invariant
            i <= chars@.len(),
            chars@ == value@,
            replaced@ == replace_awkward(value@.take(i as int)),
        decreases chars@.len() - i,
    {
        let c = chars[i];
        assert(value@.take(i + 1).drop_last() == value@.take(i as int));
        if c == '/' || c == '\\' {
            append(&mut replaced, " - ");
        } else if is_control(c) {
            push_char(&mut replaced, ' ');
        } else {
            push_char(&mut replaced, c);
            assert(seq![c] == replacement(c));
        }
        i = i + 1;
    }
    assert(value@.take(chars@.len() as int) == value@);
    let collapsed = collapse_ws(replaced.as_str());
    let sanitized = trim_spaces_and_dots(collapsed.as_str());
    if sanitized.as_str().unicode_len() == 0 {
        Err(LayoutError::EmptyComponent(field))
    } else {
        Ok(sanitized)
    }
}

fn extension(value: &str) -> (r: Result<String, LayoutError>)
    ensures
        match extension_spec(value@) {
            Ok(text) => r matches Ok(s) && s@ == text,
            Err(e) => r matches Err(err) && err.deep_view() == e,
        },
{
    let trimmed = trim_leading_dots(value);
    let lowered = to_ascii_lowercase(trimmed.as_str());
    let chars = chars_of(lowered.as_str());
    let mut ok = chars.len() > 0;
    let mut i: usize = 0;
    while i < chars.len()
        invariant
            i <= chars@.len(),
            chars@ == lowered@,
            ok == (chars@.len() > 0 && forall|k: int| 0 <= k < i ==> ascii_alnum(#[trigger] chars@[k])),
        decreases chars@.len() - i,
    {
        if !is_ascii_alnum(chars[i]) {
            ok = false;
        }
        i = i + 1;
    }
    if ok {
        Ok(lowered)
    } else {
        Err(LayoutError::InvalidExtension(lowered))
    }
}

// ---------------------------------------------------------------------------
// Release and standalone layouts
// ---------------------------------------------------------------------------

/// The directory of a release under its artist: `year - title`, or the title alone.
pub open spec fn release_directory(artist: Seq<char>, title: Seq<char>, year: Option<u16>) -> Seq<char> {
    artist + "/"@ + match year {
        Some(y) => decimal(y as nat) + " - "@ + title,
        None => title,
    }
}

/// The number prefix of a track: `DD-TT` on multi-disc releases, `TT` otherwise.
pub open spec fn track_number(multi_disc: bool, disc: u16, track: u16) -> Seq<char> {
    if multi_disc {
        decimal2(disc as nat) + "-"@ + decimal2(track as nat)
    } else {
        decimal2(track as nat)
    }
}

/// The path of one track under `directory`, or why there is none.
pub open spec fn track_path(directory: Seq<char>, multi_disc: bool, t: LayoutTrackV) -> Result<Seq<char>, LayoutErrorV> {
    if t.disc == 0 || t.track == 0 {
        Err(LayoutErrorV::InvalidPosition { disc: t.disc, track: t.track })
    } else {
        match component_spec("track title"@, t.title) {
            Err(e) => Err(e),
            Ok(title) => match extension_spec(t.extension) {
                Err(e) => Err(e),
                Ok(ext) => Ok(directory + "/"@ + track_number(multi_disc, t.disc, t.track) + " - "@ + title + "."@ + ext),
            },
        }
    }
}

/// The paths of the first `n` tracks, stopping at the first error or repeated path.
pub open spec fn track_paths(directory: Seq<char>, multi_disc: bool, ts: Seq<LayoutTrackV>, n: nat) -> Result<Seq<Seq<char>>, LayoutErrorV>
    decreases n,
{
    if n == 0 {
        Ok(Seq::<Seq<char>>::empty())
    } else {
        match track_paths(directory, multi_disc, ts, (n - 1) as nat) {
            Err(e) => Err(e),
            Ok(paths) => match track_path(directory, multi_disc, ts[n - 1]) {
                Err(e) => Err(e),
                Ok(p) => if paths.contains(p) {
                    Err(LayoutErrorV::Collision(p))
                } else {
                    Ok(paths.push(p))
                },
            },
        }
    }
}

/// The planned layout of a release from its credit, title, year, disc count and
/// tracks: its directory and the paths of its tracks.
pub open spec fn release_layout_spec(
    album_artist: Seq<char>,
    title: Seq<char>,
    original_year: Option<u16>,
    disc_count: u16,
    tracks: Seq<LayoutTrackV>,
) -> Result<(Seq<char>, Seq<Seq<char>>), LayoutErrorV> {
    match component_spec("album artist"@, album_artist) {
        Err(e) => Err(e),
        Ok(artist) => match component_spec("release title"@, title) {
            Err(e) => Err(e),
            Ok(title) => {
                let directory = release_directory(artist, title, original_year);
                match track_paths(directory, disc_count > 1, tracks, tracks.len()) {
                    Err(e) => Err(e),
                    Ok(paths) => Ok((directory, paths)),
                }
            },
        },
    }
}

/// The planned layout of a release.
pub open spec fn release_spec(r: ReleaseLayout) -> Result<(Seq<char>, Seq<Seq<char>>), LayoutErrorV> {
    release_layout_spec(r.album_artist.display@, r.title@, r.original_year, r.disc_count, r.tracks.deep_view())
}

/// The planned layout of a standalone track by `artist` with `title`:
/// `artist/Standalone Tracks/title/title.ext`.
pub open spec fn standalone_layout_spec(artist: Seq<char>, title: Seq<char>, extension: Seq<char>) -> Result<(Seq<char>, Seq<Seq<char>>), LayoutErrorV> {
    match component_spec("artist"@, artist) {
        Err(e) => Err(e),
        Ok(artist) => match component_spec("track title"@, title) {
            Err(e) => Err(e),
            Ok(title) => match extension_spec(extension) {
                Err(e) => Err(e),
                Ok(ext) => {
                    let directory = artist + "/Standalone Tracks/"@ + title;
                    Ok((directory, seq![directory + "/"@ + title + "."@ + ext]))
                },
            },
        },
    }
}

/// The planned layout of a standalone track.
pub open spec fn standalone_spec(s: StandaloneLayout) -> Result<(Seq<char>, Seq<Seq<char>>), LayoutErrorV> {
    standalone_layout_spec(s.artist.display@, s.title@, s.extension@)
}

/// `r` carries out the planned layout `plan`.
pub open spec fn layout_matches(r: Result<PlannedLayout, LayoutError>, plan: Result<(Seq<char>, Seq<Seq<char>>), LayoutErrorV>) -> bool {
    match plan {
        Ok((directory, paths)) => r matches Ok(l) && l.directory@ == directory && l.tracks.deep_view() == paths,
        Err(e) => r matches Err(err) && err.deep_view() == e,
    }
}

/// Whether `paths` already holds `p`.
fn contains_path(paths: &Vec<String>, p: &String) -> (r: bool)
    ensures
        r == paths.deep_view().contains(p@),
{
    let mut i: usize = 0;
    while i < paths.len()
        invariant
            i <= paths@.len(),
            forall|k: int| 0 <= k < i ==> paths@[k]@ != p@,
        decreases paths@.len() - i,
    {
        if text_eq(paths[i].as_str(), p.as_str()) {
            assert(paths.deep_view()[i as int] == p@);
            return true;
        }
        i = i + 1;
    }
    assert(!paths.deep_view().contains(p@)) by {
        if paths.deep_view().contains(p@) {
            let k = choose|k: int| 0 <= k < paths.deep_view().len() && paths.deep_view()[k] == p@;
            assert(paths@[k]@ == p@);
        }
    }
    false
}

/// Lays out one track under `directory`.
fn lay_out_track(directory: &String, multi_disc: bool, t: &LayoutTrack) -> (r: Result<String, LayoutError>)
    ensures
        match track_path(directory@, multi_disc, t.deep_view()) {
            Ok(p) => r matches Ok(s) && s@ == p,
            Err(e) => r matches Err(err) && err.deep_view() == e,
        },
{
    if t.disc == 0 || t.track == 0 {
        return Err(LayoutError::InvalidPosition { disc: t.disc, track: t.track });
    }
    let title = match component("track title", t.title.as_str()) {
        Ok(title) => title,
        Err(e) => return Err(e),
    };
    let ext = match extension(t.extension.as_str()) {
        Ok(ext) => ext,
        Err(e) => return Err(e),
    };
    let mut path = directory.clone();
    append(&mut path, "/");
    let ghost before_number = path@;
    if multi_disc {
        push_decimal2(&mut path, t.disc as u64);
        append(&mut path, "-");
        push_decimal2(&mut path, t.track as u64);
    } else {
        push_decimal2(&mut path, t.track as u64);
    }
    assert(path@ == before_number + track_number(multi_disc, t.disc, t.track));
    append(&mut path, " - ");
    append(&mut path, title.as_str());
    append(&mut path, ".");
    append(&mut path, ext.as_str());
    Ok(path)
}

/// Chooses library paths.
#[derive(Clone, Copy, Debug)]
pub struct LayoutPolicy;

impl Default for LayoutPolicy {
    fn default() -> (r: Self) {
        LayoutPolicy
    }
}

impl LayoutPolicy {
    /// Lays out a release: `artist/[year - ]title/NN - track title.ext`, with a
    /// disc prefix on multi-disc releases; refuses empty names, zero positions,
    /// invalid extensions and two tracks on one path.
    pub fn release(&self, release: &ReleaseLayout) -> (r: Result<PlannedLayout, LayoutError>)
        ensures
            layout_matches(r, release_spec(*release)),
    {
        let artist = match component("album artist", release.album_artist.display.as_str()) {
            Ok(artist) => artist,
            Err(e) => return Err(e),
        };
        let title = match component("release title", release.title.as_str()) {
            Ok(title) => title,
            Err(e) => return Err(e),
        };
        let mut directory = artist.clone();
        append(&mut directory, "/");
        match release.original_year {
            Some(year) => {
                push_decimal(&mut directory, year as u64);
                append(&mut directory, " - ");
                append(&mut directory, title.as_str());
            },
            None => {
                append(&mut directory, title.as_str());
            },
        }
        assert(directory@ == release_directory(artist@, title@, release.original_year));
        let multi_disc = release.disc_count > 1;
        let ghost ts = release.tracks.deep_view();
        let mut paths: Vec<String> = Vec::new();
        assert(paths.deep_view() =~= Seq::<Seq<char>>::empty());
        let ghost full = release_spec(*release);
        assert(full == match track_paths(directory@, multi_disc, ts, ts.len()) {
            Err(e) => Err(e),
            Ok(paths) => Ok((directory@, paths)),
        });
        let mut i: usize = 0;
        while i < release.tracks.len()
            invariant
                i <= ts.len(),
                ts == release.tracks.deep_view(),
                full == release_spec(*release),
                full == match track_paths(directory@, multi_disc, ts, ts.len()) {
                    Err(e) => Err(e),
                    Ok(paths) => Ok((directory@, paths)),
                },
                track_paths(directory@, multi_disc, ts, i as nat) == Ok::<Seq<Seq<char>>, LayoutErrorV>(paths.deep_view()),
            decreases ts.len() - i,
        {
            assert(ts[i as int] == release.tracks@[i as int].deep_view());
            let path = match lay_out_track(&directory, multi_disc, &release.tracks[i]) {
                Ok(path) => path,
                Err(e) => {
                    assert(track_paths(directory@, multi_disc, ts, (i + 1) as nat) is Err);
                    proof {
                        lemma_track_paths_err(directory@, multi_disc, ts, (i + 1) as nat, ts.len());
                    }
                    return Err(e);
                },
            };
            if contains_path(&paths, &path) {
                proof {
                    lemma_track_paths_err(directory@, multi_disc, ts, (i + 1) as nat, ts.len());
                }
                return Err(LayoutError::Collision(path));
            }
            let ghost before = paths.deep_view();
            paths.push(path);
            assert(paths.deep_view() =~= before.push(path@));
            i = i + 1;
        }
        Ok(PlannedLayout { directory, tracks: paths })
    }

    /// Lays out a standalone track under `artist/Standalone Tracks/title/`.
    pub fn standalone(&self, standalone: &StandaloneLayout) -> (r: Result<PlannedLayout, LayoutError>)
        ensures
            layout_matches(r, standalone_spec(*standalone)),
    {
        let artist = match component("artist", standalone.artist.display.as_str()) {
            Ok(artist) => artist,
            Err(e) => return Err(e),
        };
        let title = match component("track title", standalone.title.as_str()) {
            Ok(title) => title,
            Err(e) => return Err(e),
        };
        let ext = match extension(standalone.extension.as_str()) {
            Ok(ext) => ext,
            Err(e) => return Err(e),
        };
        let mut directory = artist;
        append(&mut directory, "/Standalone Tracks/");
        append(&mut directory, title.as_str());
        let mut path = directory.clone();
        append(&mut path, "/");
        append(&mut path, title.as_str());
        append(&mut path, ".");
        append(&mut path, ext.as_str());
        let mut tracks: Vec<String> = Vec::new();
        tracks.push(path);
        assert(tracks.deep_view() =~= seq![path@]);
        Ok(PlannedLayout { directory, tracks })
    }
}

/// Once the paths of a prefix fail, the paths of every longer prefix fail the same way.
proof fn lemma_track_paths_err(directory: Seq<char>, multi_disc: bool, ts: Seq<LayoutTrackV>, n: nat, m: nat)
    requires
        n <= m,
        track_paths(directory, multi_disc, ts, n) is Err,
    ensures
        track_paths(directory, multi_disc, ts, m) == track_paths(directory, multi_disc, ts, n),
    decreases m - n,
{
    if n < m {
        lemma_track_paths_err(directory, multi_disc, ts, n, (m - 1) as nat);
    }
}

// ---------------------------------------------------------------------------
// Relative paths
// ---------------------------------------------------------------------------

/// `path` below `root`, as `Path::strip_prefix` finds it.
pub open spec fn relative_spec(path: Seq<char>, root: Seq<char>) -> Option<Seq<char>> {
    stripped(path, root)
}

/// `rel` placed under `root`, as `Path::join` does.
pub open spec fn join_spec(root: Seq<char>, rel: Seq<char>) -> Seq<char> {
    pushed(root, rel)
}

/// Places the relative path `rel` under `root`.
pub fn join_path(root: &str, rel: &str) -> (r: String)
    ensures
        r@ == join_spec(root@, rel@),
{
    pushed_path(root, rel)
}

/// The part of `path` below `root`, if `path` lies under `root`.
pub fn relative_to(path: &str, root: &str) -> (r: Option<String>)
    ensures
        r.deep_view() == relative_spec(path@, root@),
{
    strip_path(path, root)
}

/// Law: a laid-out release puts each track on its own path inside the release
/// directory, one path per track.
pub proof fn law_release_paths_distinct(release: ReleaseLayout, directory: Seq<char>, paths: Seq<Seq<char>>)
    requires
        release_spec(release) == Ok::<(Seq<char>, Seq<Seq<char>>), LayoutErrorV>((directory, paths)),
    ensures
        paths.len() == release.tracks@.len(),
        forall|i: int, j: int| 0 <= i < j < paths.len() ==> paths[i] != paths[j],
        forall|i: int| 0 <= i < paths.len() ==> (#[trigger] paths[i]).take(directory.len() as int + 1) == directory + "/"@,
{
    let ts = release.tracks.deep_view();
    let md = release.disc_count > 1;
    lemma_track_paths_distinct(directory, md, ts, ts.len());
}

/// The start of a track's file name: its disc and track, two digits each and
/// joined by `-`, on a multi-disc release; its track alone otherwise.
pub open spec fn numbered_start(multi_disc: bool, disc: u16, track: u16) -> Seq<char> {
    if multi_disc {
        decimal2(disc as nat) + seq!['-'] + decimal2(track as nat) + seq![' ', '-', ' ']
    } else {
        decimal2(track as nat) + seq![' ', '-', ' ']
    }
}

/// Law: on a release with more than one disc, every track's file name starts with
/// its disc and its track, two digits each, joined by `-` (whatever disc the track
/// is on); on a single-disc release it starts with the two-digit track alone. The
/// prefix depends on the release's disc count, not on the track's disc.
pub proof fn law_track_names_start_with_their_numbers(release: ReleaseLayout, directory: Seq<char>, paths: Seq<Seq<char>>)
    requires
        release_spec(release) == Ok::<(Seq<char>, Seq<Seq<char>>), LayoutErrorV>((directory, paths)),
    ensures
        paths.len() == release.tracks@.len(),
        forall|i: int| 0 <= i < paths.len() ==> {
            let t = release.tracks.deep_view()[i];
            (directory + seq!['/'] + numbered_start(release.disc_count > 1, t.disc, t.track)).is_prefix_of(#[trigger] paths[i])
        },
        release.disc_count > 1 ==> forall|i: int| 0 <= i < paths.len() ==> {
            let t = release.tracks.deep_view()[i];
            (directory + seq!['/'] + decimal2(t.disc as nat) + seq!['-'] + decimal2(t.track as nat)).is_prefix_of(
                #[trigger] paths[i],
            )
        },
{
    let ts = release.tracks.deep_view();
    let md = release.disc_count > 1;
    lemma_track_paths_numbered(directory, md, ts, ts.len());
    lemma_track_paths_distinct(directory, md, ts, ts.len());
    if md {
        assert forall|i: int| 0 <= i < paths.len() implies {
            let t = release.tracks.deep_view()[i];
            (directory + seq!['/'] + decimal2(t.disc as nat) + seq!['-'] + decimal2(t.track as nat)).is_prefix_of(
                #[trigger] paths[i],
            )
        } by {
            let t = ts[i];
            let full = directory + seq!['/'] + numbered_start(true, t.disc, t.track);
            let part = directory + seq!['/'] + decimal2(t.disc as nat) + seq!['-'] + decimal2(t.track as nat);
            assert(full =~= part + seq![' ', '-', ' ']);
            assert(full.is_prefix_of(paths[i]));
            assert(part.is_prefix_of(paths[i])) by {
                assert forall|k: int| 0 <= k < part.len() implies part[k] == paths[i][k] by {
                    assert(part[k] == full[k]);
                }
            }
        }
    }
}

proof fn lemma_track_paths_numbered(directory: Seq<char>, multi_disc: bool, ts: Seq<LayoutTrackV>, n: nat)
    requires
        track_paths(directory, multi_disc, ts, n) is Ok,
    ensures
        ({
            let paths = track_paths(directory, multi_disc, ts, n)->Ok_0;
            forall|i: int| 0 <= i < paths.len() ==> (directory + seq!['/'] + numbered_start(
                multi_disc,
                ts[i].disc,
                ts[i].track,
            )).is_prefix_of(#[trigger] paths[i])
        }),
    decreases n,
{
    if n > 0 {
        lemma_track_paths_numbered(directory, multi_disc, ts, (n - 1) as nat);
        lemma_track_paths_distinct(directory, multi_disc, ts, (n - 1) as nat);
        let before = track_paths(directory, multi_disc, ts, (n - 1) as nat)->Ok_0;
        let p = track_path(directory, multi_disc, ts[n - 1])->Ok_0;
        let paths = before.push(p);
        reveal_strlit("/");
        reveal_strlit("-");
        reveal_strlit(" - ");
        let t = ts[n - 1];
        let title = component_spec("track title"@, t.title)->Ok_0;
        let ext = extension_spec(t.extension)->Ok_0;
        assert(p == directory + "/"@ + track_number(multi_disc, t.disc, t.track) + " - "@ + title + "."@ + ext);
        let start = directory + seq!['/'] + numbered_start(multi_disc, t.disc, t.track);
        assert(p =~= start + title + "."@ + ext);
        assert forall|i: int| 0 <= i < paths.len() implies (directory + seq!['/'] + numbered_start(
            multi_disc,
            ts[i].disc,
            ts[i].track,
        )).is_prefix_of(#[trigger] paths[i]) by {
            if i < before.len() {
                assert(paths[i] == before[i]);
            } else {
                assert(paths[i] == p);
                assert(i == n - 1);
            }
        }
    }
}

proof fn lemma_track_paths_distinct(directory: Seq<char>, multi_disc: bool, ts: Seq<LayoutTrackV>, n: nat)
    requires
        track_paths(directory, multi_disc, ts, n) is Ok,
    ensures
        ({
            let paths = track_paths(directory, multi_disc, ts, n)->Ok_0;
            &&& paths.len() == n
            &&& forall|i: int, j: int| 0 <= i < j < paths.len() ==> paths[i] != paths[j]
            &&& forall|i: int| 0 <= i < paths.len() ==> (#[trigger] paths[i]).take(directory.len() as int + 1) == directory + "/"@
        }),
    decreases n,
{
    if n > 0 {
        lemma_track_paths_distinct(directory, multi_disc, ts, (n - 1) as nat);
        let before = track_paths(directory, multi_disc, ts, (n - 1) as nat)->Ok_0;
        let p = track_path(directory, multi_disc, ts[n - 1])->Ok_0;
        let paths = before.push(p);
        reveal_strlit("/");
        assert(!before.contains(p));
        let t = ts[n - 1];
        let title = component_spec("track title"@, t.title)->Ok_0;
        let ext = extension_spec(t.extension)->Ok_0;
        assert(p == directory + "/"@ + track_number(multi_disc, t.disc, t.track) + " - "@ + title + "."@ + ext);
        assert(p.take(directory.len() as int + 1) =~= directory + "/"@);
        assert forall|i: int, j: int| 0 <= i < j < paths.len() implies paths[i] != paths[j] by {
            if j == paths.len() - 1 {
                assert(paths[j] == p);
                assert(paths[i] == before[i]);
            }
        }
        assert forall|i: int| 0 <= i < paths.len() implies (#[trigger] paths[i]).take(directory.len() as int + 1) == directory + "/"@ by {
            if i < before.len() {
                assert(paths[i] == before[i]);
            }
        }
    }
}

} // verus!
