use vstd::prelude::*;

use crate::domain::Inspection;
use crate::guided_matching::{
    common_release_group_id, same_result, shared_release_group, ArtworkSelection, MetadataProvenance,
};
use crate::matching::MatchDecision;
use crate::matching_ui::{ascii_lowered, MetadataSelection};
use crate::plan::MatchSelection;
use crate::provider::groomed_equivalent;
use crate::text::{text_eq, to_ascii_lowercase};

verus! {

/// How the first metadata selection came about: chosen automatically, chosen by
/// the user among several, or the existing tags when nothing was usable.
pub fn initial_match_selection(decision: &MatchDecision) -> (r: MatchSelection)
    ensures
        r == match *decision {
            MatchDecision::Selected { .. } => MatchSelection::Automatic,
            MatchDecision::NeedsChoice(_) => MatchSelection::UserChosen,
            MatchDecision::NoUsableMatch(_) => MatchSelection::ExistingTags,
        },
{
    match decision {
        MatchDecision::Selected { .. } => MatchSelection::Automatic,
        MatchDecision::NeedsChoice(_) => MatchSelection::UserChosen,
        MatchDecision::NoUsableMatch(_) => MatchSelection::ExistingTags,
    }
}

/// How the selection came about once the user changed the metadata: a provider
/// release the user picked, or the existing tags; a cancelled change keeps the
/// previous answer.
pub fn selection_after_change(metadata: &MetadataSelection, previous: MatchSelection) -> (r: MatchSelection)
    ensures
        r == match *metadata {
            MetadataSelection::Provider(_) => MatchSelection::UserChosen,
            MetadataSelection::ExistingTags => MatchSelection::ExistingTags,
            MetadataSelection::Cancelled => previous,
        },
{
    match metadata {
        MetadataSelection::Provider(_) => MatchSelection::UserChosen,
        MetadataSelection::ExistingTags => MatchSelection::ExistingTags,
        MetadataSelection::Cancelled => previous,
    }
}

/// What an answer at the preview's menu asks for.
#[derive(Clone, Copy, Debug, PartialEq, Eq, Structural)]
pub enum MenuAnswer {
    Review,
    Artwork,
    Refresh,
    /// An empty answer: show the preview again.
    Redisplay,
    Done,
    Unrecognized,
}

/// `r`/`review`, `a`/`artwork`, `f`/`refresh` (only when providers may be
/// contacted), `d`/`done`/`q`/`quit`, letters compared without ASCII case; an
/// empty answer shows the preview again.
pub open spec fn menu_answer(answer: Seq<char>, offline: bool) -> MenuAnswer {
    let word = ascii_lowered(answer);
    if word == "r"@ || word == "review"@ {
        MenuAnswer::Review
    } else if word == "a"@ || word == "artwork"@ {
        MenuAnswer::Artwork
    } else if (word == "f"@ || word == "refresh"@) && !offline {
        MenuAnswer::Refresh
    } else if word.len() == 0 {
        MenuAnswer::Redisplay
    } else if word == "d"@ || word == "done"@ || word == "q"@ || word == "quit"@ {
        MenuAnswer::Done
    } else {
        MenuAnswer::Unrecognized
    }
}

/// How an answer at the preview's menu is read.
pub fn interpret_menu_answer(answer: &str, offline: bool) -> (r: MenuAnswer)
    ensures
        r == menu_answer(answer@, offline),
{
    let word = to_ascii_lowercase(answer);
    proof {
        reveal_strlit("r");
        reveal_strlit("review");
        reveal_strlit("a");
        reveal_strlit("artwork");
        reveal_strlit("f");
        reveal_strlit("refresh");
        reveal_strlit("d");
        reveal_strlit("done");
        reveal_strlit("q");
        reveal_strlit("quit");
    }
    let w = word.as_str();
    if text_eq(w, "r") || text_eq(w, "review") {
        MenuAnswer::Review
    } else if text_eq(w, "a") || text_eq(w, "artwork") {
        MenuAnswer::Artwork
    } else if (text_eq(w, "f") || text_eq(w, "refresh")) && !offline {
        MenuAnswer::Refresh
    } else if w.unicode_len() == 0 {
        MenuAnswer::Redisplay
    } else if text_eq(w, "d") || text_eq(w, "done") || text_eq(w, "q") || text_eq(w, "quit") {
        MenuAnswer::Done
    } else {
        MenuAnswer::Unrecognized
    }
}

/// What to do with the metadata that a refresh found.
#[derive(Clone, Copy, Debug, PartialEq, Eq, Structural)]
pub enum RefreshStep {
    /// The user cancelled the refreshed choice: keep the current preview.
    KeepCurrent,
    /// The refreshed choice grooms alike: take it without asking.
    Replace,
    /// The refreshed choice differs: ask before replacing the preview.
    Confirm,
}

/// A cancelled refresh keeps the preview; one that grooms the source as the
/// current selection does replaces it quietly; any other asks first.
pub fn refreshed_metadata_step(current: &MetadataSelection, refreshed: &MetadataSelection) -> (r: RefreshStep)
    ensures
        r == if *refreshed is Cancelled {
            RefreshStep::KeepCurrent
        } else if (match (*current, *refreshed) {
            (MetadataSelection::Provider(a), MetadataSelection::Provider(b)) => groomed_equivalent(
                a.candidate.deep_view(),
                b.candidate.deep_view(),
            ),
            (MetadataSelection::ExistingTags, MetadataSelection::ExistingTags) => true,
            _ => false,
        }) {
            RefreshStep::Replace
        } else {
            RefreshStep::Confirm
        },
{
    match refreshed {
        MetadataSelection::Cancelled => RefreshStep::KeepCurrent,
        _ => if same_result(current, refreshed) {
            RefreshStep::Replace
        } else {
            RefreshStep::Confirm
        },
    }
}

/// Whether accepting refreshed archive artwork resets the artwork choice: it
/// does when the archive's cover was in use, or when the source offered no
/// artwork of its own.
pub fn artwork_follows_refresh(artwork: &ArtworkSelection, source_artwork_selected: bool) -> (r: bool)
    ensures
        r == (*artwork is CoverArtArchive || !source_artwork_selected),
{
    match artwork {
        ArtworkSelection::CoverArtArchive(_) => true,
        _ => !source_artwork_selected,
    }
}

/// Where the settled metadata came from: MusicBrainz, with or without an
/// AcoustID fingerprint supporting the selected release and a year taken from
/// the source's tags; the existing tags, and whether their shared release group
/// leads to archive artwork; or nothing, when matching was cancelled.
pub open spec fn provenance(
    metadata: MetadataSelection,
    fingerprint_supports_selection: bool,
    source_year: Option<u16>,
    inspection: Inspection,
) -> MetadataProvenance {
    match metadata {
        MetadataSelection::Provider(_) => if fingerprint_supports_selection {
            match source_year {
                Some(year) => MetadataProvenance::MusicBrainzWithFingerprintAndSourceYear(year),
                None => MetadataProvenance::MusicBrainzWithFingerprint,
            }
        } else {
            match source_year {
                Some(year) => MetadataProvenance::MusicBrainzWithSourceYear(year),
                None => MetadataProvenance::MusicBrainz,
            }
        },
        MetadataSelection::ExistingTags => MetadataProvenance::ExistingTags {
            artwork_via_source_id: shared_release_group(inspection.tracks.deep_view()) is Some,
        },
        MetadataSelection::Cancelled => MetadataProvenance::Absent,
    }
}

/// Where the settled metadata came from, given whether the fingerprint
/// evidence supports the selected release and the year taken from the source.
pub fn metadata_provenance(
    metadata: &MetadataSelection,
    fingerprint_supports_selection: bool,
    source_year: Option<u16>,
    inspection: &Inspection,
) -> (r: MetadataProvenance)
    ensures
        r == provenance(*metadata, fingerprint_supports_selection, source_year, *inspection),
{
    match metadata {
        MetadataSelection::Provider(_) => if fingerprint_supports_selection {
            match source_year {
                Some(year) => MetadataProvenance::MusicBrainzWithFingerprintAndSourceYear(year),
                None => MetadataProvenance::MusicBrainzWithFingerprint,
            }
        } else {
            match source_year {
                Some(year) => MetadataProvenance::MusicBrainzWithSourceYear(year),
                None => MetadataProvenance::MusicBrainz,
            }
        },
        MetadataSelection::ExistingTags => {
            let shared = common_release_group_id(inspection);
            MetadataProvenance::ExistingTags { artwork_via_source_id: shared.is_some() }
        },
        MetadataSelection::Cancelled => MetadataProvenance::Absent,
    }
}

/// What an answer at the review menu asks for.
#[derive(Clone, Copy, Debug, PartialEq, Eq, Structural)]
pub enum ReviewAnswer {
    SourceFiles,
    Metadata,
    Identification,
    Warnings,
    Back,
    Unrecognized,
}

/// `s`/`source`, `m`/`metadata`, `i`/`identification` (only when there is
/// fingerprint evidence to show), `w`/`warnings`, and `b`/`back` or nothing,
/// letters compared without ASCII case.
pub open spec fn review_answer(answer: Seq<char>, has_identification: bool) -> ReviewAnswer {
    let word = ascii_lowered(answer);
    if word == "s"@ || word == "source"@ {
        ReviewAnswer::SourceFiles
    } else if word == "m"@ || word == "metadata"@ {
        ReviewAnswer::Metadata
    } else if word == "w"@ || word == "warnings"@ {
        ReviewAnswer::Warnings
    } else if (word == "i"@ || word == "identification"@) && has_identification {
        ReviewAnswer::Identification
    } else if word.len() == 0 || word == "b"@ || word == "back"@ {
        ReviewAnswer::Back
    } else {
        ReviewAnswer::Unrecognized
    }
}

/// How an answer at the review menu is read.
pub fn interpret_review_answer(answer: &str, has_identification: bool) -> (r: ReviewAnswer)
    ensures
        r == review_answer(answer@, has_identification),
{
    let word = to_ascii_lowercase(answer);
    proof {
        reveal_strlit("s");
        reveal_strlit("source");
        reveal_strlit("m");
        reveal_strlit("metadata");
        reveal_strlit("w");
        reveal_strlit("warnings");
        reveal_strlit("i");
        reveal_strlit("identification");
        reveal_strlit("b");
        reveal_strlit("back");
    }
    let w = word.as_str();
    if text_eq(w, "s") || text_eq(w, "source") {
        ReviewAnswer::SourceFiles
    } else if text_eq(w, "m") || text_eq(w, "metadata") {
        ReviewAnswer::Metadata
    } else if text_eq(w, "w") || text_eq(w, "warnings") {
        ReviewAnswer::Warnings
    } else if (text_eq(w, "i") || text_eq(w, "identification")) && has_identification {
        ReviewAnswer::Identification
    } else if w.unicode_len() == 0 || text_eq(w, "b") || text_eq(w, "back") {
        ReviewAnswer::Back
    } else {
        ReviewAnswer::Unrecognized
    }
}

/// What identifies a metadata selection when telling whether it changed: the
/// provider's key for a release, a fixed key for the existing tags, none when
/// cancelled.
pub open spec fn selection_identity(metadata: MetadataSelection) -> Option<Seq<char>> {
    match metadata {
        MetadataSelection::Provider(selected) => Some(selected.candidate.provider_key@),
        MetadataSelection::ExistingTags => Some("existing-tags"@),
        MetadataSelection::Cancelled => None,
    }
}

/// Whether revising the metadata changed the selection.
pub fn selection_changed(revised: &MetadataSelection, current: &MetadataSelection) -> (r: bool)
    ensures
        r == (selection_identity(*revised) != selection_identity(*current)),
{
    proof {
        reveal_strlit("existing-tags");
    }
    match (revised, current) {
        (MetadataSelection::Provider(a), MetadataSelection::Provider(b)) => !text_eq(
            a.candidate.provider_key.as_str(),
            b.candidate.provider_key.as_str(),
        ),
        (MetadataSelection::Provider(a), MetadataSelection::ExistingTags) => !text_eq(
            a.candidate.provider_key.as_str(),
            "existing-tags",
        ),
        (MetadataSelection::ExistingTags, MetadataSelection::Provider(b)) => !text_eq(
            "existing-tags",
            b.candidate.provider_key.as_str(),
        ),
        (MetadataSelection::ExistingTags, MetadataSelection::ExistingTags) => false,
        (MetadataSelection::Cancelled, MetadataSelection::Cancelled) => false,
        _ => true,
    }
}

/// Refreshed data replaces the current choice only on `y` or `yes` (any ASCII
/// case); nothing, `n` or `no` keeps it; anything else is asked again.
pub open spec fn refresh_confirmation(answer: Seq<char>) -> Option<bool> {
    let word = ascii_lowered(answer);
    if word == "y"@ || word == "yes"@ {
        Some(true)
    } else if word.len() == 0 || word == "n"@ || word == "no"@ {
        Some(false)
    } else {
        None
    }
}

/// How an answer to "Use the refreshed metadata/artwork? [y/N]" is read: `None`
/// asks again.
pub fn interpret_refresh_confirmation(answer: &str) -> (r: Option<bool>)
    ensures
        r == refresh_confirmation(answer@),
{
    let word = to_ascii_lowercase(answer);
    proof {
        reveal_strlit("y");
        reveal_strlit("yes");
        reveal_strlit("n");
        reveal_strlit("no");
    }
    let w = word.as_str();
    if text_eq(w, "y") || text_eq(w, "yes") {
        Some(true)
    } else if w.unicode_len() == 0 || text_eq(w, "n") || text_eq(w, "no") {
        Some(false)
    } else {
        None
    }
}

/// Where a guided matching session stands.
#[derive(Clone, Copy, Debug, PartialEq, Eq, Structural)]
pub enum SessionPhase {
    LookingUp,
    Identifying,
    Choosing,
    FetchingArtwork,
    Previewing,
    Reviewing,
    ChoosingArtwork,
    RefreshLookingUp,
    RefreshIdentifying,
    RefreshChoosing,
    ConfirmingMetadata,
    RefreshFetchingArtwork,
    ConfirmingArtwork,
    Finished,
}

/// A guided matching session: its phase, and whether providers may be contacted.
#[derive(Clone, Copy, Debug, PartialEq, Eq, Structural)]
pub struct MatchSession {
    pub phase: SessionPhase,
    pub offline: bool,
}

/// What happened since the session's last action.
#[derive(Debug)]
pub enum SessionEvent {
    /// The metadata lookup finished.
    LookedUp,
    /// Identification (with the fingerprint, where it was needed) finished.
    Identified,
    /// The user settled the metadata, or cancelled.
    Chose { cancelled: bool },
    /// After a refresh, how the refreshed choice compares with the current one.
    RefreshChose(RefreshStep),
    /// Archive artwork was fetched; whether it differs from what was shown.
    Fetched { archive_artwork_changed: bool },
    /// The user answered the pending question.
    Answered(String),
    /// The review finished; whether the metadata changed.
    Reviewed { changed: bool },
    /// The user settled the artwork.
    ArtworkChosen,
}

/// What the session does next.
#[derive(Debug, PartialEq, Eq)]
pub enum SessionAction {
    LookUpMetadata { force_refresh: bool },
    Identify { force_refresh: bool },
    ChooseMetadata,
    /// Fetch archive artwork, taking the refreshed metadata first when `adopt_refreshed_metadata`.
    FetchArtwork { force_refresh: bool, adopt_refreshed_metadata: bool },
    /// Show the preview and its menu, taking the refreshed artwork first when `adopt_refreshed_artwork`.
    ShowPreview { adopt_refreshed_artwork: bool },
    ComplainThenShowPreview,
    Review,
    ChooseArtwork,
    AskToUseRefreshedMetadata,
    ComplainThenAskToUseRefreshedMetadata,
    AskToUseRefreshedArtwork,
    ComplainThenAskToUseRefreshedArtwork,
    Finish { cancelled: bool },
}

/// The events a phase waits for.
pub open spec fn accepts(phase: SessionPhase, event: SessionEvent) -> bool {
    match phase {
        SessionPhase::LookingUp | SessionPhase::RefreshLookingUp => event is LookedUp,
        SessionPhase::Identifying | SessionPhase::RefreshIdentifying => event is Identified,
        SessionPhase::Choosing => event is Chose,
        SessionPhase::RefreshChoosing => event is RefreshChose,
        SessionPhase::FetchingArtwork | SessionPhase::RefreshFetchingArtwork => event is Fetched,
        SessionPhase::Previewing | SessionPhase::ConfirmingMetadata | SessionPhase::ConfirmingArtwork => event is Answered,
        SessionPhase::Reviewing => event is Reviewed,
        SessionPhase::ChoosingArtwork => event is ArtworkChosen,
        SessionPhase::Finished => false,
    }
}

/// A session in `phase`, as offline as `s`.
pub open spec fn at(s: MatchSession, phase: SessionPhase) -> MatchSession {
    MatchSession { phase, offline: s.offline }
}

/// How a guided matching session goes on: it looks metadata up, identifies the
/// source, lets the user settle the metadata (a cancelled choice ends it), fetches
/// archive artwork and shows the preview. At the preview's menu the user reviews
/// (fetching artwork again when the metadata changed), chooses artwork, refreshes
/// (never offline), or is done. A refresh looks up and identifies again with
/// forced refresh and lets the user choose again: a cancelled choice keeps the
/// current metadata, one that grooms alike replaces it without asking, any other
/// is asked about; then artwork is fetched again, and changed artwork is asked
/// about. Unrecognised answers are complained about and asked again.
pub open spec fn session_transition(s: MatchSession, event: SessionEvent) -> (MatchSession, SessionAction) {
    match (s.phase, event) {
        (SessionPhase::LookingUp, SessionEvent::LookedUp) => (at(s, SessionPhase::Identifying), SessionAction::Identify { force_refresh: false }),
        (SessionPhase::Identifying, SessionEvent::Identified) => (at(s, SessionPhase::Choosing), SessionAction::ChooseMetadata),
        (SessionPhase::Choosing, SessionEvent::Chose { cancelled }) => if cancelled {
            (at(s, SessionPhase::Finished), SessionAction::Finish { cancelled: true })
        } else {
            (at(s, SessionPhase::FetchingArtwork), SessionAction::FetchArtwork { force_refresh: false, adopt_refreshed_metadata: false })
        },
        (SessionPhase::FetchingArtwork, SessionEvent::Fetched { .. }) => (
            at(s, SessionPhase::Previewing),
            SessionAction::ShowPreview { adopt_refreshed_artwork: false },
        ),
        (SessionPhase::Previewing, SessionEvent::Answered(answer)) => match menu_answer(answer@, s.offline) {
            MenuAnswer::Review => (at(s, SessionPhase::Reviewing), SessionAction::Review),
            MenuAnswer::Artwork => (at(s, SessionPhase::ChoosingArtwork), SessionAction::ChooseArtwork),
            MenuAnswer::Refresh => (at(s, SessionPhase::RefreshLookingUp), SessionAction::LookUpMetadata { force_refresh: true }),
            MenuAnswer::Redisplay => (s, SessionAction::ShowPreview { adopt_refreshed_artwork: false }),
            MenuAnswer::Done => (at(s, SessionPhase::Finished), SessionAction::Finish { cancelled: false }),
            MenuAnswer::Unrecognized => (s, SessionAction::ComplainThenShowPreview),
        },
        (SessionPhase::Reviewing, SessionEvent::Reviewed { changed }) => if changed {
            (at(s, SessionPhase::FetchingArtwork), SessionAction::FetchArtwork { force_refresh: false, adopt_refreshed_metadata: false })
        } else {
            (at(s, SessionPhase::Previewing), SessionAction::ShowPreview { adopt_refreshed_artwork: false })
        },
        (SessionPhase::ChoosingArtwork, SessionEvent::ArtworkChosen) => (
            at(s, SessionPhase::Previewing),
            SessionAction::ShowPreview { adopt_refreshed_artwork: false },
        ),
        (SessionPhase::RefreshLookingUp, SessionEvent::LookedUp) => (
            at(s, SessionPhase::RefreshIdentifying),
            SessionAction::Identify { force_refresh: true },
        ),
        (SessionPhase::RefreshIdentifying, SessionEvent::Identified) => (at(s, SessionPhase::RefreshChoosing), SessionAction::ChooseMetadata),
        (SessionPhase::RefreshChoosing, SessionEvent::RefreshChose(step)) => match step {
            RefreshStep::KeepCurrent => (
                at(s, SessionPhase::RefreshFetchingArtwork),
                SessionAction::FetchArtwork { force_refresh: true, adopt_refreshed_metadata: false },
            ),
            RefreshStep::Replace => (
                at(s, SessionPhase::RefreshFetchingArtwork),
                SessionAction::FetchArtwork { force_refresh: true, adopt_refreshed_metadata: true },
            ),
            RefreshStep::Confirm => (at(s, SessionPhase::ConfirmingMetadata), SessionAction::AskToUseRefreshedMetadata),
        },
        (SessionPhase::ConfirmingMetadata, SessionEvent::Answered(answer)) => match refresh_confirmation(answer@) {
            Some(adopt) => (
                at(s, SessionPhase::RefreshFetchingArtwork),
                SessionAction::FetchArtwork { force_refresh: true, adopt_refreshed_metadata: adopt },
            ),
            None => (s, SessionAction::ComplainThenAskToUseRefreshedMetadata),
        },
        (SessionPhase::RefreshFetchingArtwork, SessionEvent::Fetched { archive_artwork_changed }) => if archive_artwork_changed {
            (at(s, SessionPhase::ConfirmingArtwork), SessionAction::AskToUseRefreshedArtwork)
        } else {
            (at(s, SessionPhase::Previewing), SessionAction::ShowPreview { adopt_refreshed_artwork: false })
        },
        (SessionPhase::ConfirmingArtwork, SessionEvent::Answered(answer)) => match refresh_confirmation(answer@) {
            Some(adopt) => (at(s, SessionPhase::Previewing), SessionAction::ShowPreview { adopt_refreshed_artwork: adopt }),
            None => (s, SessionAction::ComplainThenAskToUseRefreshedArtwork),
        },
        _ => (s, SessionAction::Finish { cancelled: true }),
    }
}

/// A session starts by looking the metadata up, without forcing a refresh.
pub fn session_start(offline: bool) -> (r: (MatchSession, SessionAction))
    ensures
        r.0 == (MatchSession { phase: SessionPhase::LookingUp, offline }),
        r.1 == (SessionAction::LookUpMetadata { force_refresh: false }),
{
    (MatchSession { phase: SessionPhase::LookingUp, offline }, SessionAction::LookUpMetadata { force_refresh: false })
}

/// Advances a guided matching session by what happened.
pub fn session_step(s: MatchSession, event: SessionEvent) -> (r: (MatchSession, SessionAction))
    requires
        accepts(s.phase, event),
    ensures
        r == session_transition(s, event),
{
    let offline = s.offline;
    match (s.phase, event) {
        (SessionPhase::LookingUp, SessionEvent::LookedUp) => (
            MatchSession { phase: SessionPhase::Identifying, offline },
            SessionAction::Identify { force_refresh: false },
        ),
        (SessionPhase::Identifying, SessionEvent::Identified) => (MatchSession { phase: SessionPhase::Choosing, offline }, SessionAction::ChooseMetadata),
        (SessionPhase::Choosing, SessionEvent::Chose { cancelled }) => if cancelled {
            (MatchSession { phase: SessionPhase::Finished, offline }, SessionAction::Finish { cancelled: true })
        } else {
            (
                MatchSession { phase: SessionPhase::FetchingArtwork, offline },
                SessionAction::FetchArtwork { force_refresh: false, adopt_refreshed_metadata: false },
            )
        },
        (SessionPhase::FetchingArtwork, SessionEvent::Fetched { .. }) => (
            MatchSession { phase: SessionPhase::Previewing, offline },
            SessionAction::ShowPreview { adopt_refreshed_artwork: false },
        ),
        (SessionPhase::Previewing, SessionEvent::Answered(answer)) => match interpret_menu_answer(answer.as_str(), offline) {
            MenuAnswer::Review => (MatchSession { phase: SessionPhase::Reviewing, offline }, SessionAction::Review),
            MenuAnswer::Artwork => (MatchSession { phase: SessionPhase::ChoosingArtwork, offline }, SessionAction::ChooseArtwork),
            MenuAnswer::Refresh => (
                MatchSession { phase: SessionPhase::RefreshLookingUp, offline },
                SessionAction::LookUpMetadata { force_refresh: true },
            ),
            MenuAnswer::Redisplay => (s, SessionAction::ShowPreview { adopt_refreshed_artwork: false }),
            MenuAnswer::Done => (MatchSession { phase: SessionPhase::Finished, offline }, SessionAction::Finish { cancelled: false }),
            MenuAnswer::Unrecognized => (s, SessionAction::ComplainThenShowPreview),
        },
        (SessionPhase::Reviewing, SessionEvent::Reviewed { changed }) => if changed {
            (
                MatchSession { phase: SessionPhase::FetchingArtwork, offline },
                SessionAction::FetchArtwork { force_refresh: false, adopt_refreshed_metadata: false },
            )
        } else {
            (MatchSession { phase: SessionPhase::Previewing, offline }, SessionAction::ShowPreview { adopt_refreshed_artwork: false })
        },
        (SessionPhase::ChoosingArtwork, SessionEvent::ArtworkChosen) => (
            MatchSession { phase: SessionPhase::Previewing, offline },
            SessionAction::ShowPreview { adopt_refreshed_artwork: false },
        ),
        (SessionPhase::RefreshLookingUp, SessionEvent::LookedUp) => (
            MatchSession { phase: SessionPhase::RefreshIdentifying, offline },
            SessionAction::Identify { force_refresh: true },
        ),
        (SessionPhase::RefreshIdentifying, SessionEvent::Identified) => (
            MatchSession { phase: SessionPhase::RefreshChoosing, offline },
            SessionAction::ChooseMetadata,
        ),
        (SessionPhase::RefreshChoosing, SessionEvent::RefreshChose(step)) => match step {
            RefreshStep::KeepCurrent => (
                MatchSession { phase: SessionPhase::RefreshFetchingArtwork, offline },
                SessionAction::FetchArtwork { force_refresh: true, adopt_refreshed_metadata: false },
            ),
            RefreshStep::Replace => (
                MatchSession { phase: SessionPhase::RefreshFetchingArtwork, offline },
                SessionAction::FetchArtwork { force_refresh: true, adopt_refreshed_metadata: true },
            ),
            RefreshStep::Confirm => (
                MatchSession { phase: SessionPhase::ConfirmingMetadata, offline },
                SessionAction::AskToUseRefreshedMetadata,
            ),
        },
        (SessionPhase::ConfirmingMetadata, SessionEvent::Answered(answer)) => match interpret_refresh_confirmation(answer.as_str()) {
            Some(adopt) => (
                MatchSession { phase: SessionPhase::RefreshFetchingArtwork, offline },
                SessionAction::FetchArtwork { force_refresh: true, adopt_refreshed_metadata: adopt },
            ),
            None => (s, SessionAction::ComplainThenAskToUseRefreshedMetadata),
        },
        (SessionPhase::RefreshFetchingArtwork, SessionEvent::Fetched { archive_artwork_changed }) => if archive_artwork_changed {
            (MatchSession { phase: SessionPhase::ConfirmingArtwork, offline }, SessionAction::AskToUseRefreshedArtwork)
        } else {
            (MatchSession { phase: SessionPhase::Previewing, offline }, SessionAction::ShowPreview { adopt_refreshed_artwork: false })
        },
        (SessionPhase::ConfirmingArtwork, SessionEvent::Answered(answer)) => match interpret_refresh_confirmation(answer.as_str()) {
            Some(adopt) => (MatchSession { phase: SessionPhase::Previewing, offline }, SessionAction::ShowPreview { adopt_refreshed_artwork: adopt }),
            None => (s, SessionAction::ComplainThenAskToUseRefreshedArtwork),
        },
        (_, _) => (s, SessionAction::Finish { cancelled: true }),
    }
}

/// The phases of a refresh.
pub open spec fn refreshing(phase: SessionPhase) -> bool {
    match phase {
        SessionPhase::RefreshLookingUp | SessionPhase::RefreshIdentifying | SessionPhase::RefreshChoosing
        | SessionPhase::ConfirmingMetadata | SessionPhase::RefreshFetchingArtwork | SessionPhase::ConfirmingArtwork => true,
        _ => false,
    }
}

/// An offline session never refreshes: from any phase outside a refresh, no
/// step enters one or asks for a forced refresh of metadata, identification or
/// artwork.
pub proof fn law_offline_session_never_refreshes(s: MatchSession, event: SessionEvent)
    requires
        s.offline,
        !refreshing(s.phase),
    ensures
        ({
            let (next, action) = session_transition(s, event);
            &&& next.offline
            &&& !refreshing(next.phase)
            &&& action != SessionAction::LookUpMetadata { force_refresh: true }
            &&& action != SessionAction::Identify { force_refresh: true }
            &&& !(action matches SessionAction::FetchArtwork { force_refresh: true, .. })
        }),
{
    match event {
        SessionEvent::Answered(answer) => {
            law_offline_menu_never_refreshes(answer@);
        },
        _ => {},
    }
}

/// Refreshed metadata replaces the current choice without asking only when it
/// grooms the source alike; a cancelled refreshed choice never replaces it.
pub proof fn law_refresh_replaces_quietly_only_alike(s: MatchSession, step: RefreshStep)
    requires
        s.phase == SessionPhase::RefreshChoosing,
    ensures
        session_transition(s, SessionEvent::RefreshChose(step)).1 == (SessionAction::FetchArtwork {
            force_refresh: true,
            adopt_refreshed_metadata: true,
        }) <==> step == RefreshStep::Replace,
{
}

/// Offline, no answer at the preview's menu asks for a refresh from the providers.
pub proof fn law_offline_menu_never_refreshes(answer: Seq<char>)
    ensures
        menu_answer(answer, true) != MenuAnswer::Refresh,
{
}

} // verus!
