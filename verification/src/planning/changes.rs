use vstd::prelude::*;

use crate::domain::{clone_opt_string, InspectedTrack, InspectedTrackV};
use crate::plan::{TagChange, TagChangeV, TagField};
use crate::source::{AudioTags, PlannedTags};
use crate::text::{decimal, decimal_string, join_texts, joined, owned, text_eq};
use crate::matching::strings_eq;

verus! {

/// A change of `field` from `before` to `after`, unless they are already the same text.
pub open spec fn change_if(field: TagField, before: Option<Seq<char>>, after: Seq<char>) -> Seq<TagChangeV> {
    if before == Some(after) {
        Seq::empty()
    } else {
        seq![TagChangeV { field, before, after }]
    }
}

/// A change of a multi-valued `field`, shown joined with `; `, unless the lists are equal;
/// an empty old list shows as no value.
pub open spec fn list_change_if(field: TagField, before: Seq<Seq<char>>, after: Seq<Seq<char>>) -> Seq<TagChangeV> {
    if before == after {
        Seq::empty()
    } else {
        seq![TagChangeV {
            field,
            before: if before.len() > 0 { Some(joined(before, "; "@)) } else { None },
            after: joined(after, "; "@),
        }]
    }
}

pub open spec fn yes_no_text(value: bool) -> Seq<char> {
    if value { "yes"@ } else { "no"@ }
}

pub open spec fn number_text(value: Option<u32>) -> Option<Seq<char>> {
    match value {
        Some(v) => Some(decimal(v as nat)),
        None => None,
    }
}

pub open spec fn flag_text(value: Option<bool>) -> Option<Seq<char>> {
    match value {
        Some(v) => Some(yes_no_text(v)),
        None => None,
    }
}

/// The tag changes grooming makes to one track, in the order they are shown.
pub open spec fn planned_changes(
    source: InspectedTrackV,
    tags: AudioTags,
    release_title: Seq<char>,
    track_title: Seq<char>,
    planned: PlannedTags,
) -> Seq<TagChangeV> {
    change_if(TagField::Artist, source.artist, planned.artist@)
        + list_change_if(TagField::Artists, tags.artists.deep_view(), planned.artists.deep_view())
        + change_if(TagField::AlbumArtist, source.album_artist, planned.album_artist@)
        + list_change_if(TagField::AlbumArtists, tags.album_artists.deep_view(), planned.album_artists.deep_view())
        + change_if(TagField::Album, source.album, release_title)
        + change_if(TagField::Compilation, flag_text(source.compilation), yes_no_text(planned.compilation))
        + (match planned.original_year {
            Some(year) => change_if(TagField::OriginalYear, tags.date.deep_view(), decimal(year as nat)),
            None => Seq::empty(),
        })
        + change_if(TagField::DiscNumber, number_text(tags.disc), decimal(planned.disc as nat))
        + change_if(TagField::DiscTotal, number_text(tags.disc_total), decimal(planned.disc_total as nat))
        + change_if(TagField::TrackNumber, number_text(tags.track), decimal(planned.track as nat))
        + change_if(TagField::TrackTotal, number_text(tags.track_total), decimal(planned.track_total as nat))
        + change_if(TagField::Title, source.title, track_title)
        + (match planned.artist_ids {
            Some(ids) => list_change_if(TagField::ArtistIds, source.artist_ids, ids.deep_view()),
            None => Seq::empty(),
        })
        + (match planned.album_artist_ids {
            Some(ids) => list_change_if(TagField::AlbumArtistIds, source.album_artist_ids, ids.deep_view()),
            None => Seq::empty(),
        })
        + (match planned.recording_id {
            Some(id) => change_if(TagField::MusicBrainzRecordingId, source.recording_id, id@),
            None => Seq::empty(),
        })
        + (match planned.release_group_id {
            Some(id) => change_if(TagField::MusicBrainzReleaseGroupId, source.release_group_id, id@),
            None => Seq::empty(),
        })
}

/// `yes` or `no`.
pub fn yes_no(value: bool) -> (r: String)
    ensures
        r@ == yes_no_text(value),
{
    if value { owned("yes") } else { owned("no") }
}

/// Records a change of `field` unless `before` already reads `after`.
pub fn add_change(changes: &mut Vec<TagChange>, field: TagField, before: Option<String>, after: String)
    ensures
        final(changes).deep_view() == old(changes).deep_view() + change_if(field, before.deep_view(), after@),
{
    let same = match &before {
        Some(b) => text_eq(b.as_str(), after.as_str()),
        None => false,
    };
    let ghost start = changes.deep_view();
    let ghost b = before.deep_view();
    let ghost a = after@;
    if !same {
        changes.push(TagChange { field, before, after });
        assert(changes.deep_view() =~= start + seq![TagChangeV { field, before: b, after: a }]);
    } else {
        assert(changes.deep_view() =~= start + Seq::<TagChangeV>::empty());
    }
}

/// Records a change of a multi-valued `field` unless the lists are equal.
pub fn add_list_change(changes: &mut Vec<TagChange>, field: TagField, before: &Vec<String>, after: &Vec<String>)
    ensures
        final(changes).deep_view() == old(changes).deep_view() + list_change_if(field, before.deep_view(), after.deep_view()),
{
    let ghost start = changes.deep_view();
    if strings_eq(before, after) {
        assert(changes.deep_view() =~= start + Seq::<TagChangeV>::empty());
        return;
    }
    let old_text = if before.len() > 0 {
        Some(join_texts(before, "; "))
    } else {
        None
    };
    let new_text = join_texts(after, "; ");
    proof {
        reveal_strlit("; ");
    }
    let ghost o = old_text.deep_view();
    let ghost n = new_text@;
    changes.push(TagChange { field, before: old_text, after: new_text });
    assert(changes.deep_view() =~= start + seq![TagChangeV { field, before: o, after: n }]);
}

/// Records a change of a multi-valued `field` when the plan sets it.
pub fn add_optional_list_change(changes: &mut Vec<TagChange>, field: TagField, before: &Vec<String>, after: &Option<Vec<String>>)
    ensures
        final(changes).deep_view() == old(changes).deep_view() + match after {
            Some(a) => list_change_if(field, before.deep_view(), a.deep_view()),
            None => Seq::empty(),
        },
{
    match after {
        Some(a) => add_list_change(changes, field, before, a),
        None => {
            assert(changes.deep_view() =~= old(changes).deep_view() + Seq::<TagChangeV>::empty());
        },
    }
}

fn number_string(value: Option<u32>) -> (r: Option<String>)
    ensures
        r.deep_view() == number_text(value),
{
    match value {
        Some(v) => Some(decimal_string(v as u64)),
        None => None,
    }
}

/// The tag changes grooming makes to one track: artist, album and numbering fields,
/// then title and identifiers, each only where the planned value differs.
pub fn changes_for(
    source: &InspectedTrack,
    source_tags: &AudioTags,
    release_title: &str,
    track_title: &str,
    planned: &PlannedTags,
) -> (r: Vec<TagChange>)
    ensures
        r.deep_view() == planned_changes(source.deep_view(), *source_tags, release_title@, track_title@, *planned),
{
    let mut changes: Vec<TagChange> = Vec::new();
    add_change(&mut changes, TagField::Artist, clone_opt_string(&source.artist), planned.artist.clone());
    add_list_change(&mut changes, TagField::Artists, &source_tags.artists, &planned.artists);
    add_change(&mut changes, TagField::AlbumArtist, clone_opt_string(&source.album_artist), planned.album_artist.clone());
    add_list_change(&mut changes, TagField::AlbumArtists, &source_tags.album_artists, &planned.album_artists);
    add_change(&mut changes, TagField::Album, clone_opt_string(&source.album), owned(release_title));
    let compilation_before = match source.compilation {
        Some(v) => Some(yes_no(v)),
        None => None,
    };
    add_change(&mut changes, TagField::Compilation, compilation_before, yes_no(planned.compilation));
    let ghost after_compilation = changes.deep_view();
    match planned.original_year {
        Some(year) => add_change(&mut changes, TagField::OriginalYear, clone_opt_string(&source_tags.date), decimal_string(year as u64)),
        None => {
            assert(changes.deep_view() =~= after_compilation + Seq::<TagChangeV>::empty());
        },
    }
    add_change(&mut changes, TagField::DiscNumber, number_string(source_tags.disc), decimal_string(planned.disc as u64));
    add_change(&mut changes, TagField::DiscTotal, number_string(source_tags.disc_total), decimal_string(planned.disc_total as u64));
    add_change(&mut changes, TagField::TrackNumber, number_string(source_tags.track), decimal_string(planned.track as u64));
    add_change(&mut changes, TagField::TrackTotal, number_string(source_tags.track_total), decimal_string(planned.track_total as u64));
    add_change(&mut changes, TagField::Title, clone_opt_string(&source.title), owned(track_title));
    add_optional_list_change(&mut changes, TagField::ArtistIds, &source.artist_ids, &planned.artist_ids);
    add_optional_list_change(&mut changes, TagField::AlbumArtistIds, &source.album_artist_ids, &planned.album_artist_ids);
    let ghost before_recording = changes.deep_view();
    match &planned.recording_id {
        Some(id) => add_change(&mut changes, TagField::MusicBrainzRecordingId, clone_opt_string(&source.recording_id), id.clone()),
        None => {
            assert(changes.deep_view() =~= before_recording + Seq::<TagChangeV>::empty());
        },
    }
    let ghost before_group = changes.deep_view();
    match &planned.release_group_id {
        Some(id) => add_change(&mut changes, TagField::MusicBrainzReleaseGroupId, clone_opt_string(&source.release_group_id), id.clone()),
        None => {
            assert(changes.deep_view() =~= before_group + Seq::<TagChangeV>::empty());
        },
    }
    assert(changes.deep_view() =~= planned_changes(source.deep_view(), *source_tags, release_title@, track_title@, *planned));
    changes
}

} // verus!
