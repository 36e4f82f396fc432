use vstd::prelude::*;

use crate::layout::{join_path, join_spec, relative_spec, relative_to};
use crate::plan::{GroomingPlan, TrackPlan};
use crate::text::{append, owned};

verus! {

/// Why copying or grooming the staged result failed.
#[derive(Debug)]
pub enum CopyError {
    Io { path: String, message: String },
    Copy { source_path: String, destination: String, message: String },
    Tags { path: String, message: String },
    OutsideDestination(String),
    Collision(String),
    MissingArtworkBytes,
}

/// The path a copy error is about, if any.
pub open spec fn copy_error_path(e: CopyError) -> Option<Seq<char>> {
    match e {
        CopyError::Io { path, .. } => Some(path@),
        CopyError::Tags { path, .. } => Some(path@),
        CopyError::Copy { destination, .. } => Some(destination@),
        CopyError::OutsideDestination(path) => Some(path@),
        CopyError::Collision(path) => Some(path@),
        CopyError::MissingArtworkBytes => None,
    }
}

pub open spec fn copy_error_text(e: CopyError) -> Seq<char> {
    match e {
        CopyError::Io { path, message } => path@ + ": "@ + message@,
        CopyError::Copy { source_path, destination, message } => "cannot copy "@ + source_path@ + " to "@
            + destination@ + ": "@ + message@,
        CopyError::Tags { path, message } => "cannot groom "@ + path@ + ": "@ + message@,
        CopyError::OutsideDestination(path) => "planned track "@ + path@ + " is outside the album destination"@,
        CopyError::Collision(path) => "more than one planned file would use "@ + path@,
        CopyError::MissingArtworkBytes => "the selected archive artwork has no planned bytes"@,
    }
}

impl CopyError {
    /// The path the error is about, if any.
    pub fn path(&self) -> (r: Option<&str>)
        ensures
            match r {
                Some(p) => copy_error_path(*self) == Some(p@),
                None => copy_error_path(*self) is None,
            },
    {
        match self {
            CopyError::Io { path, .. } => Some(path.as_str()),
            CopyError::Tags { path, .. } => Some(path.as_str()),
            CopyError::Copy { destination, .. } => Some(destination.as_str()),
            CopyError::OutsideDestination(path) => Some(path.as_str()),
            CopyError::Collision(path) => Some(path.as_str()),
            CopyError::MissingArtworkBytes => None,
        }
    }

    /// The message shown for this error.
    pub fn describe(&self) -> (r: String)
        ensures
            r@ == copy_error_text(*self),
    {
        match self {
            CopyError::Io { path, message } => {
                let mut out = path.clone();
                append(&mut out, ": ");
                append(&mut out, message.as_str());
                out
            },
            CopyError::Copy { source_path, destination, message } => {
                let mut out = owned("cannot copy ");
                append(&mut out, source_path.as_str());
                append(&mut out, " to ");
                append(&mut out, destination.as_str());
                append(&mut out, ": ");
                append(&mut out, message.as_str());
                out
            },
            CopyError::Tags { path, message } => {
                let mut out = owned("cannot groom ");
                append(&mut out, path.as_str());
                append(&mut out, ": ");
                append(&mut out, message.as_str());
                out
            },
            CopyError::OutsideDestination(path) => {
                let mut out = owned("planned track ");
                append(&mut out, path.as_str());
                append(&mut out, " is outside the album destination");
                out
            },
            CopyError::Collision(path) => {
                let mut out = owned("more than one planned file would use ");
                append(&mut out, path.as_str());
                out
            },
            CopyError::MissingArtworkBytes => owned("the selected archive artwork has no planned bytes"),
        }
    }
}

/// Where grooming writes the planned tags: for each track with planned tags (by
/// index), its place under `stage`, in track order; or the first track that lies
/// outside the release directory.
pub open spec fn tag_targets(tracks: Seq<TrackPlan>, destination: Seq<char>, stage: Seq<char>, n: nat) -> Result<Seq<(usize, Seq<char>)>, Seq<char>>
    decreases n,
{
    if n == 0 {
        Ok(Seq::empty())
    } else {
        match tag_targets(tracks, destination, stage, (n - 1) as nat) {
            Err(path) => Err(path),
            Ok(before) => {
                let t = tracks[n - 1];
                if t.planned_tags is None {
                    Ok(before)
                } else {
                    match relative_spec(t.destination@, destination) {
                        None => Err(t.destination@),
                        Some(rel) => Ok(before.push(((n - 1) as usize, join_spec(stage, rel)))),
                    }
                }
            },
        }
    }
}

/// The files under `stage` whose tags grooming rewrites, with the index of the
/// track whose planned tags each receives.
pub fn tag_write_targets(plan: &GroomingPlan, stage: &str) -> (r: Result<Vec<(usize, String)>, CopyError>)
    ensures
        match tag_targets(plan.tracks@, plan.destination@, stage@, plan.tracks@.len()) {
            Ok(targets) => r matches Ok(v) && v@.len() == targets.len() && forall|k: int|
                0 <= k < targets.len() ==> (#[trigger] v@[k]).0 == targets[k].0 && v@[k].1@ == targets[k].1,
            Err(path) => r matches Err(CopyError::OutsideDestination(p)) && p@ == path,
        },
{
    let mut out: Vec<(usize, String)> = Vec::new();
    let mut i: usize = 0;
    while i < plan.tracks.len()
        invariant
            i <= plan.tracks@.len(),
            tag_targets(plan.tracks@, plan.destination@, stage@, i as nat) matches Ok(targets) && out@.len()
                == targets.len() && forall|k: int| 0 <= k < targets.len() ==> (#[trigger] out@[k]).0 == targets[k].0 && out@[k].1@ == targets[k].1,
        decreases plan.tracks@.len() - i,
    {
        let track = &plan.tracks[i];
        if track.planned_tags.is_some() {
            match relative_to(track.destination.as_str(), plan.destination.as_str()) {
                None => {
                    proof {
                        lemma_tag_targets_err_stays(plan.tracks@, plan.destination@, stage@, (i + 1) as nat, plan.tracks@.len());
                    }
                    return Err(CopyError::OutsideDestination(track.destination.clone()));
                },
                Some(rel) => {
                    let path = join_path(stage, rel.as_str());
                    out.push((i, path));
                },
            }
        }
        i = i + 1;
    }
    Ok(out)
}

proof fn lemma_tag_targets_err_stays(tracks: Seq<TrackPlan>, destination: Seq<char>, stage: Seq<char>, n: nat, m: nat)
    requires
        n <= m,
        tag_targets(tracks, destination, stage, n) is Err,
    ensures
        tag_targets(tracks, destination, stage, m) == tag_targets(tracks, destination, stage, n),
    decreases m - n,
{
    if n < m {
        lemma_tag_targets_err_stays(tracks, destination, stage, n, (m - 1) as nat);
    }
}

} // verus!
