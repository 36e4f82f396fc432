use vstd::prelude::*;

use crate::text::{ascii_lower, text_eq, to_ascii_lowercase, trim_by, trim_whitespace, ws_sep};

verus! {

/// What is found at the place of the cache directory's marker.
#[derive(Clone, Copy, Debug, PartialEq, Eq, Structural)]
pub enum MarkerState {
    Absent,
    File,
    NotAFile,
}

/// What to do before writing into the cache directory.
#[derive(Clone, Copy, Debug, PartialEq, Eq, Structural)]
pub enum ClaimAction {
    /// The directory is marked as this program's cache: write.
    Proceed,
    /// The directory is unmarked and empty: mark it, then write.
    WriteMarker,
    /// The directory is not this program's to use.
    Refuse,
}

/// What clearing the cache does.
#[derive(Clone, Copy, Debug, PartialEq, Eq, Structural)]
pub enum ClearAction {
    /// There is no cache directory.
    Nothing,
    /// The directory is marked as this program's cache: remove it with everything in it.
    RemoveAll,
    /// The directory is not this program's to remove.
    Refuse,
}

/// Writing is allowed into a marked directory; an unmarked one is claimed only
/// while empty; anything but a file in the marker's place is refused.
pub open spec fn claim_spec(marker: MarkerState, root_empty: bool) -> ClaimAction {
    match marker {
        MarkerState::File => ClaimAction::Proceed,
        MarkerState::NotAFile => ClaimAction::Refuse,
        MarkerState::Absent => if root_empty { ClaimAction::WriteMarker } else { ClaimAction::Refuse },
    }
}

/// Clearing removes a marked directory whole, refuses any unmarked one (empty
/// or not), and does nothing when there is no directory.
pub open spec fn clear_spec(root_exists: bool, marker_is_file: bool) -> ClearAction {
    if !root_exists {
        ClearAction::Nothing
    } else if marker_is_file {
        ClearAction::RemoveAll
    } else {
        ClearAction::Refuse
    }
}

/// What to do before writing into the cache directory, given what is at the
/// marker's place and whether the directory is empty.
pub fn claim_action(marker: MarkerState, root_empty: bool) -> (r: ClaimAction)
    ensures
        r == claim_spec(marker, root_empty),
{
    match marker {
        MarkerState::File => ClaimAction::Proceed,
        MarkerState::NotAFile => ClaimAction::Refuse,
        MarkerState::Absent => if root_empty {
            ClaimAction::WriteMarker
        } else {
            ClaimAction::Refuse
        },
    }
}

/// What clearing does, given whether the directory exists and whether its
/// marker is a file.
pub fn clear_action(root_exists: bool, marker_is_file: bool) -> (r: ClearAction)
    ensures
        r == clear_spec(root_exists, marker_is_file),
{
    if !root_exists {
        ClearAction::Nothing
    } else if marker_is_file {
        ClearAction::RemoveAll
    } else {
        ClearAction::Refuse
    }
}

/// A non-empty directory that is not marked as this program's cache is never
/// claimed, and no unmarked directory is ever cleared.
pub proof fn law_unmarked_nonempty_directory_is_left_alone(marker: MarkerState, root_exists: bool)
    requires
        marker != MarkerState::File,
    ensures
        claim_spec(marker, false) == ClaimAction::Refuse,
        clear_spec(root_exists, false) != ClearAction::RemoveAll,
{
}

/// Only a directory that carries the marker is removed by clearing; an existing
/// unmarked one is refused as not owned.
pub proof fn law_only_marked_directories_are_cleared(root_exists: bool, marker_is_file: bool)
    ensures
        clear_spec(root_exists, marker_is_file) == ClearAction::RemoveAll <==> root_exists && marker_is_file,
        root_exists && !marker_is_file ==> clear_spec(root_exists, marker_is_file) == ClearAction::Refuse,
{
}

/// Clearing goes ahead only on `y` or `yes`, around whitespace and in any ASCII
/// case; anything else, an empty answer among them, leaves the cache alone.
pub open spec fn clear_confirmed_spec(answer: Seq<char>) -> bool {
    let word = trim_by(answer, ws_sep()).map_values(|c: char| ascii_lower(c));
    word == "y"@ || word == "yes"@
}

/// Whether the answer to "Continue? [y/N]" confirms clearing the cache.
pub fn clear_confirmed(answer: &str) -> (r: bool)
    ensures
        r == clear_confirmed_spec(answer@),
{
    let trimmed = trim_whitespace(answer);
    let word = to_ascii_lowercase(trimmed.as_str());
    proof {
        reveal_strlit("y");
        reveal_strlit("yes");
    }
    text_eq(word.as_str(), "y") || text_eq(word.as_str(), "yes")
}

} // verus!
