use vstd::prelude::*;

use crate::domain::{clone_opt_string, clone_strings};
use crate::plan::GroomingPlan;
use crate::source::{AudioTags, PlannedTags};
use crate::text::{append, decimal, decimal_string, owned};

verus! {

/// What validation of the staged result checked.
#[derive(Clone, Debug, PartialEq, Eq)]
pub struct ValidationReport {
    pub tracks: usize,
    pub artwork_files: usize,
}

/// An invariant that the staged result breaks, and where.
#[derive(Debug)]
pub struct ValidationError {
    pub path: Option<String>,
    pub invariant: String,
}

pub open spec fn validation_error_text(e: ValidationError) -> Seq<char> {
    match e.path {
        Some(p) => p@ + ": "@ + e.invariant@,
        None => e.invariant@,
    }
}

impl ValidationError {
    /// The message shown for this error.
    pub fn describe(&self) -> (r: String)
        ensures
            r@ == validation_error_text(*self),
    {
        match &self.path {
            Some(p) => {
                let mut out = p.clone();
                append(&mut out, ": ");
                append(&mut out, self.invariant.as_str());
                out
            },
            None => self.invariant.clone(),
        }
    }
}

/// What a successful validation of `plan` reports: every track, and one artwork
/// file when the plan writes one.
pub fn validation_report(plan: &GroomingPlan) -> (r: ValidationReport)
    ensures
        r.tracks == plan.tracks@.len(),
        r.artwork_files == (if plan.artwork.output_name is Some { 1usize } else { 0usize }),
{
    ValidationReport {
        tracks: plan.tracks.len(),
        artwork_files: if plan.artwork.output_name.is_some() { 1 } else { 0 },
    }
}

/// The tags a groomed file must carry: the planned values, with the source's own
/// identifiers, date, recording and release group kept where the plan has none.
pub fn expected_tags(source: &AudioTags, planned: &PlannedTags) -> (r: AudioTags)
    ensures
        r.title.deep_view() == Some(planned.title@),
        r.artist.deep_view() == Some(planned.artist@),
        r.artists.deep_view() == planned.artists.deep_view(),
        r.album.deep_view() == Some(planned.album@),
        r.album_artist.deep_view() == Some(planned.album_artist@),
        r.album_artists.deep_view() == planned.album_artists.deep_view(),
        r.artist_ids.deep_view() == match planned.artist_ids {
            Some(ids) => ids.deep_view(),
            None => source.artist_ids.deep_view(),
        },
        r.album_artist_ids.deep_view() == match planned.album_artist_ids {
            Some(ids) => ids.deep_view(),
            None => source.album_artist_ids.deep_view(),
        },
        r.compilation == Some(planned.compilation),
        r.date.deep_view() == match planned.original_year {
            Some(year) => Some(decimal(year as nat)),
            None => source.date.deep_view(),
        },
        r.track == Some(planned.track),
        r.track_total == Some(planned.track_total),
        r.disc == Some(planned.disc),
        r.disc_total == Some(planned.disc_total),
        r.recording_id.deep_view() == match planned.recording_id {
            Some(id) => Some(id@),
            None => source.recording_id.deep_view(),
        },
        r.release_group_id.deep_view() == match planned.release_group_id {
            Some(id) => Some(id@),
            None => source.release_group_id.deep_view(),
        },
        r.embedded_pictures == source.embedded_pictures,
{
    AudioTags {
        title: Some(planned.title.clone()),
        artist: Some(planned.artist.clone()),
        artists: clone_strings(&planned.artists),
        album: Some(planned.album.clone()),
        album_artist: Some(planned.album_artist.clone()),
        album_artists: clone_strings(&planned.album_artists),
        artist_ids: match &planned.artist_ids {
            Some(ids) => clone_strings(ids),
            None => clone_strings(&source.artist_ids),
        },
        album_artist_ids: match &planned.album_artist_ids {
            Some(ids) => clone_strings(ids),
            None => clone_strings(&source.album_artist_ids),
        },
        compilation: Some(planned.compilation),
        date: match planned.original_year {
            Some(year) => Some(decimal_string(year as u64)),
            None => clone_opt_string(&source.date),
        },
        track: Some(planned.track),
        track_total: Some(planned.track_total),
        disc: Some(planned.disc),
        disc_total: Some(planned.disc_total),
        recording_id: match &planned.recording_id {
            Some(id) => Some(id.clone()),
            None => clone_opt_string(&source.recording_id),
        },
        release_group_id: match &planned.release_group_id {
            Some(id) => Some(id.clone()),
            None => clone_opt_string(&source.release_group_id),
        },
        embedded_pictures: source.embedded_pictures,
    }
}

} // verus!
