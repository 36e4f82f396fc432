use vstd::prelude::*;

use crate::apply::{ApplyFailure, ApplyStage, CleanupOutcome};
use crate::destination::{path_push, push_path};
use crate::domain::SourceKind;
use crate::paths::{strip_path, stripped};
use crate::text::{append, owned};

verus! {

/// `Path::strip_prefix`: the part of `path` below `base`, compared by
/// components, or none when `path` is not `base` or below it.
pub open spec fn strip_path_prefix(path: Seq<char>, base: Seq<char>) -> Option<Seq<char>> {
    stripped(path, base)
}

/// `Path::starts_with`: `path` is `base` or lies below it.
pub open spec fn path_within(path: Seq<char>, base: Seq<char>) -> bool {
    strip_path_prefix(path, base) is Some
}

/// The part of `path` below `base`.
pub fn strip_prefix(path: &str, base: &str) -> (r: Option<String>)
    ensures
        r.deep_view() == strip_path_prefix(path@, base@),
{
    strip_path(path, base)
}

/// What stops Apply before it starts, given what the file system says: the
/// destination root must be a directory; an album's result must not land inside
/// the album itself; the release directory must not exist yet. The failure names
/// the path it is about and its cause; none when Apply may go on.
pub open spec fn preflight_failure(
    kind: SourceKind,
    source: Seq<char>,
    root: Seq<char>,
    destination: Seq<char>,
    root_is_dir: bool,
    canonical_source: Result<Seq<char>, Seq<char>>,
    canonical_root: Result<Seq<char>, Seq<char>>,
    exists: Result<bool, Seq<char>>,
) -> Option<(Seq<char>, Seq<char>)> {
    if !root_is_dir {
        Some((root, "the selected destination root is not an existing directory"@))
    } else if kind == SourceKind::AlbumDirectory && canonical_source is Err {
        Some((source, "cannot resolve the selected source: "@ + canonical_source->Err_0))
    } else if kind == SourceKind::AlbumDirectory && canonical_root is Err {
        Some((root, "cannot resolve the destination root: "@ + canonical_root->Err_0))
    } else if kind == SourceKind::AlbumDirectory && strip_path_prefix(destination, root) is None {
        Some((destination, "the final destination is outside its selected root"@))
    } else if kind == SourceKind::AlbumDirectory && path_within(
        path_push(canonical_root->Ok_0, strip_path_prefix(destination, root)->0),
        canonical_source->Ok_0,
    ) {
        Some(
            (
                path_push(canonical_root->Ok_0, strip_path_prefix(destination, root)->0),
                "the result cannot be published inside the selected source album"@,
            ),
        )
    } else {
        match exists {
            Ok(false) => None,
            Ok(true) => Some(
                (
                    destination,
                    "the release directory already exists; v0.1 cannot yet complete or rebuild an existing release piece by piece"@,
                ),
            ),
            Err(e) => Some((destination, "cannot check destination collision: "@ + e)),
        }
    }
}

/// A preflight failure about `path`.
fn refused(path: String, cause: String) -> (r: ApplyFailure)
    ensures
        r.stage == ApplyStage::Preflight,
        r.path.deep_view() == Some(path@),
        r.cause@ == cause@,
        r.source_untouched && !r.destination_published && !r.requires_reinspection,
        r.cleanup == CleanupOutcome::NotNeeded,
{
    ApplyFailure::new(ApplyStage::Preflight, Some(path), cause)
}

/// Checks the destination before Apply, given the file system's answers: whether
/// the root is a directory, the resolved source and root (asked for an album only),
/// and whether the release directory exists.
pub fn preflight_destination(
    kind: SourceKind,
    source: &str,
    destination_root: &str,
    destination: &str,
    root_is_dir: bool,
    canonical_source: Result<String, String>,
    canonical_root: Result<String, String>,
    exists: Result<bool, String>,
) -> (r: Result<(), ApplyFailure>)
    ensures
        match preflight_failure(
            kind,
            source@,
            destination_root@,
            destination@,
            root_is_dir,
            match canonical_source {
                Ok(p) => Ok(p@),
                Err(e) => Err(e@),
            },
            match canonical_root {
                Ok(p) => Ok(p@),
                Err(e) => Err(e@),
            },
            match exists {
                Ok(b) => Ok(b),
                Err(e) => Err(e@),
            },
        ) {
            None => r is Ok,
            Some((path, cause)) => r matches Err(f) && f.stage == ApplyStage::Preflight && f.path.deep_view() == Some(path)
                && f.cause@ == cause && f.source_untouched && !f.destination_published && !f.requires_reinspection
                && f.cleanup == CleanupOutcome::NotNeeded,
        },
{
    if !root_is_dir {
        return Err(refused(owned(destination_root), owned("the selected destination root is not an existing directory")));
    }
    let album = match kind {
        SourceKind::AlbumDirectory => true,
        SourceKind::LooseFile => false,
    };
    if album {
        let canonical_source = match canonical_source {
            Ok(p) => p,
            Err(e) => {
                let mut cause = owned("cannot resolve the selected source: ");
                append(&mut cause, e.as_str());
                return Err(refused(owned(source), cause));
            },
        };
        let canonical_root = match canonical_root {
            Ok(p) => p,
            Err(e) => {
                let mut cause = owned("cannot resolve the destination root: ");
                append(&mut cause, e.as_str());
                return Err(refused(owned(destination_root), cause));
            },
        };
        let relative = match strip_prefix(destination, destination_root) {
            Some(rel) => rel,
            None => {
                return Err(refused(owned(destination), owned("the final destination is outside its selected root")));
            },
        };
        let resolved = push_path(canonical_root.as_str(), relative.as_str());
        if strip_prefix(resolved.as_str(), canonical_source.as_str()).is_some() {
            return Err(refused(resolved, owned("the result cannot be published inside the selected source album")));
        }
    }
    match exists {
        Ok(false) => Ok(()),
        Ok(true) => Err(
            refused(
                owned(destination),
                owned(
                    "the release directory already exists; v0.1 cannot yet complete or rebuild an existing release piece by piece",
                ),
            ),
        ),
        Err(e) => {
            let mut cause = owned("cannot check destination collision: ");
            append(&mut cause, e.as_str());
            Err(refused(owned(destination), cause))
        },
    }
}

/// Law: an album's result is never published inside the album itself: whenever
/// preflight lets Apply go on for an album, the resolved destination lies outside
/// the resolved source.
pub proof fn law_result_never_inside_its_source(
    source: Seq<char>,
    root: Seq<char>,
    destination: Seq<char>,
    canonical_source: Seq<char>,
    canonical_root: Seq<char>,
    exists: Result<bool, Seq<char>>,
)
    requires
        preflight_failure(
            SourceKind::AlbumDirectory,
            source,
            root,
            destination,
            true,
            Ok(canonical_source),
            Ok(canonical_root),
            exists,
        ) is None,
    ensures
        strip_path_prefix(destination, root) is Some,
        !path_within(path_push(canonical_root, strip_path_prefix(destination, root)->0), canonical_source),
{
}

} // verus!
