use vstd::prelude::*;

use crate::domain::{clone_opt_string, clone_strings, SourceKind};
use crate::fingerprint::{fingerprint_error_text, FingerprintError};
use crate::provider::search::ProviderSearch;
use crate::text::{append, owned};

verus! {

/// How far identification by audio fingerprint has come.
#[derive(Clone, Copy, Debug, PartialEq, Eq, Structural)]
pub enum IdentifyStage {
    Fingerprinting,
    LookingUpAcoustId,
    ReadingEvidence,
    ResolvingRecordings,
    Finished,
}

/// Identification under way: its stage, whether it refreshes, the metadata
/// search it started from, the recordings the evidence named, and the warnings so far.
pub struct Identification {
    pub stage: IdentifyStage,
    pub force_refresh: bool,
    pub search: ProviderSearch,
    pub recording_ids: Vec<String>,
    pub warnings: Vec<String>,
}

/// What happened since identification's last action.
#[derive(Debug)]
pub enum IdentifyEvent {
    /// The fingerprint was calculated, or could not be.
    Fingerprinted(Result<(), FingerprintError>),
    /// AcoustID was asked (or its cache read): whether an answer came, and the lookup's warnings.
    AcoustIdAnswered { answered: bool, warnings: Vec<String> },
    /// The answer was read as evidence: the recordings it names, and whether more
    /// than five qualified.
    EvidenceRead { recording_ids: Vec<String>, unusually_ambiguous: bool },
    /// The recordings' releases were looked up, with the lookup's warnings.
    RecordingsResolved { warnings: Vec<String> },
}

/// What identification does next.
#[derive(Debug)]
pub enum IdentifyAction {
    /// Calculate the source's audio fingerprint.
    Fingerprint,
    /// Look the fingerprint up at AcoustID, through the cache.
    LookUpAcoustId,
    /// Read AcoustID's answer as evidence.
    ReadEvidence,
    /// Look up the releases of the recordings with this search.
    ResolveRecordings(ProviderSearch),
    /// Keep the decision made from the metadata search alone; `keep_evidence`
    /// says whether the evidence read stays with it, `evidence_replaced` whether
    /// it replaces any earlier evidence.
    KeepBaseDecision { keep_evidence: bool, evidence_replaced: bool },
    /// Decide again over the base and the recordings' candidates, with these recordings as evidence.
    DecideWithRecordings(Vec<String>),
}

/// The warning given when fingerprinting failed: a refresh keeps the current
/// identification; a first identification keeps provider and source metadata.
pub open spec fn fingerprint_failure_warning(error: FingerprintError, force_refresh: bool) -> Seq<char> {
    if force_refresh {
        "Audio fingerprint refresh failed ("@ + fingerprint_error_text(error) + "); keeping the current identification"@
    } else {
        "Audio fingerprint identification is unavailable ("@ + fingerprint_error_text(error)
            + "); keeping provider and source metadata"@
    }
}

/// The warning given when the evidence named more than five recordings.
pub open spec fn ambiguity_warning() -> Seq<char> {
    "Audio fingerprint produced more than five qualifying MusicBrainz recordings; only the five strongest were resolved"@
}

/// The search for the releases of `recording_ids`: the source's search, as a loose
/// file, without a release group, by those recordings.
pub open spec fn recording_search_of(s: ProviderSearch, recording_ids: Seq<Seq<char>>, r: ProviderSearch) -> bool {
    &&& r.kind == SourceKind::LooseFile
    &&& r.album.deep_view() == s.album.deep_view()
    &&& r.artist.deep_view() == s.artist.deep_view()
    &&& r.artist_ids.deep_view() == s.artist_ids.deep_view()
    &&& r.album_artist_ids.deep_view() == s.album_artist_ids.deep_view()
    &&& r.title.deep_view() == s.title.deep_view()
    &&& r.release_group_id is None
    &&& r.recording_ids.deep_view() == recording_ids
    &&& r.track_count == s.track_count
}

/// The search for the releases of `recording_ids`.
pub fn recording_search(search: &ProviderSearch, recording_ids: &Vec<String>) -> (r: ProviderSearch)
    ensures
        recording_search_of(*search, recording_ids.deep_view(), r),
{
    ProviderSearch {
        kind: SourceKind::LooseFile,
        album: clone_opt_string(&search.album),
        artist: clone_opt_string(&search.artist),
        artist_ids: clone_strings(&search.artist_ids),
        album_artist_ids: clone_strings(&search.album_artist_ids),
        title: clone_opt_string(&search.title),
        release_group_id: None,
        recording_ids: clone_strings(recording_ids),
        track_count: search.track_count,
    }
}

/// Identification starts: without need of a fingerprint, or without the means to
/// take one, the base decision stands (evidence is replaced only when none was
/// needed); otherwise the fingerprint is calculated.
pub fn identify_start(search: ProviderSearch, needs_fingerprint: bool, can_fingerprint: bool, force_refresh: bool) -> (r: (
    Identification,
    IdentifyAction,
))
    ensures
        r.0.search == search,
        r.0.force_refresh == force_refresh,
        r.0.warnings@.len() == 0,
        r.0.recording_ids@.len() == 0,
        !needs_fingerprint ==> r.0.stage == IdentifyStage::Finished && r.1 == (IdentifyAction::KeepBaseDecision {
            keep_evidence: false,
            evidence_replaced: true,
        }),
        needs_fingerprint && !can_fingerprint ==> r.0.stage == IdentifyStage::Finished && r.1 == (
        IdentifyAction::KeepBaseDecision { keep_evidence: false, evidence_replaced: false }),
        needs_fingerprint && can_fingerprint ==> r.0.stage == IdentifyStage::Fingerprinting && r.1
            == IdentifyAction::Fingerprint,
{
    let (stage, action) = if !needs_fingerprint {
        (IdentifyStage::Finished, IdentifyAction::KeepBaseDecision { keep_evidence: false, evidence_replaced: true })
    } else if !can_fingerprint {
        (IdentifyStage::Finished, IdentifyAction::KeepBaseDecision { keep_evidence: false, evidence_replaced: false })
    } else {
        (IdentifyStage::Fingerprinting, IdentifyAction::Fingerprint)
    };
    (Identification { stage, force_refresh, search, recording_ids: Vec::new(), warnings: Vec::new() }, action)
}

/// The events each stage waits for.
pub open spec fn identify_accepts(stage: IdentifyStage, event: IdentifyEvent) -> bool {
    match stage {
        IdentifyStage::Fingerprinting => event is Fingerprinted,
        IdentifyStage::LookingUpAcoustId => event is AcoustIdAnswered,
        IdentifyStage::ReadingEvidence => event is EvidenceRead,
        IdentifyStage::ResolvingRecordings => event is RecordingsResolved,
        IdentifyStage::Finished => false,
    }
}

/// Advances identification: a failed fingerprint keeps the base decision with a
/// warning; a fingerprint is looked up at AcoustID; no answer keeps the base
/// decision; an answer is read as evidence, warning when it was unusually
/// ambiguous; evidence naming no recording keeps the base decision with the
/// evidence; otherwise the recordings' releases are looked up, and then the
/// decision is made again with them.
pub fn identify_step(state: Identification, event: IdentifyEvent) -> (r: (Identification, IdentifyAction))
    requires
        identify_accepts(state.stage, event),
    ensures
        r.0.force_refresh == state.force_refresh,
        r.0.search == state.search,
        match event {
            IdentifyEvent::Fingerprinted(Err(e)) => r.0.stage == IdentifyStage::Finished
                && r.0.warnings.deep_view() == state.warnings.deep_view().push(fingerprint_failure_warning(e, state.force_refresh))
                && r.1 == (IdentifyAction::KeepBaseDecision { keep_evidence: false, evidence_replaced: false }),
            IdentifyEvent::Fingerprinted(Ok(())) => r.0.stage == IdentifyStage::LookingUpAcoustId
                && r.0.warnings.deep_view() == state.warnings.deep_view() && r.1 == IdentifyAction::LookUpAcoustId,
            IdentifyEvent::AcoustIdAnswered { answered, warnings } => r.0.warnings.deep_view() == state.warnings.deep_view()
                + warnings.deep_view() && if answered {
                r.0.stage == IdentifyStage::ReadingEvidence && r.1 == IdentifyAction::ReadEvidence
            } else {
                r.0.stage == IdentifyStage::Finished && r.1 == (IdentifyAction::KeepBaseDecision {
                    keep_evidence: false,
                    evidence_replaced: false,
                })
            },
            IdentifyEvent::EvidenceRead { recording_ids, unusually_ambiguous } => {
                &&& r.0.warnings.deep_view() == if unusually_ambiguous {
                    state.warnings.deep_view().push(ambiguity_warning())
                } else {
                    state.warnings.deep_view()
                }
                &&& r.0.recording_ids.deep_view() == recording_ids.deep_view()
                &&& if recording_ids@.len() == 0 {
                    r.0.stage == IdentifyStage::Finished && r.1 == (IdentifyAction::KeepBaseDecision {
                        keep_evidence: true,
                        evidence_replaced: true,
                    })
                } else {
                    r.0.stage == IdentifyStage::ResolvingRecordings && (r.1 matches IdentifyAction::ResolveRecordings(s)
                        && recording_search_of(state.search, recording_ids.deep_view(), s))
                }
            },
            IdentifyEvent::RecordingsResolved { warnings } => {
                &&& r.0.stage == IdentifyStage::Finished
                &&& r.0.warnings.deep_view() == state.warnings.deep_view() + warnings.deep_view()
                &&& (r.1 matches IdentifyAction::DecideWithRecordings(ids) && ids.deep_view() == state.recording_ids.deep_view())
            },
        },
{
    let Identification { stage, force_refresh, search, recording_ids, warnings } = state;
    let mut warnings = warnings;
    match event {
        IdentifyEvent::Fingerprinted(Err(error)) => {
            let mut text = if force_refresh {
                owned("Audio fingerprint refresh failed (")
            } else {
                owned("Audio fingerprint identification is unavailable (")
            };
            let described = error.describe();
            append(&mut text, described.as_str());
            if force_refresh {
                append(&mut text, "); keeping the current identification");
            } else {
                append(&mut text, "); keeping provider and source metadata");
            }
            let ghost before = warnings.deep_view();
            let ghost t = text@;
            warnings.push(text);
            assert(warnings.deep_view() =~= before.push(t));
            (
                Identification { stage: IdentifyStage::Finished, force_refresh, search, recording_ids, warnings },
                IdentifyAction::KeepBaseDecision { keep_evidence: false, evidence_replaced: false },
            )
        },
        IdentifyEvent::Fingerprinted(Ok(())) => (
            Identification { stage: IdentifyStage::LookingUpAcoustId, force_refresh, search, recording_ids, warnings },
            IdentifyAction::LookUpAcoustId,
        ),
        IdentifyEvent::AcoustIdAnswered { answered, warnings: found } => {
            let ghost before = warnings.deep_view();
            append_warnings(&mut warnings, &found);
            if answered {
                (
                    Identification { stage: IdentifyStage::ReadingEvidence, force_refresh, search, recording_ids, warnings },
                    IdentifyAction::ReadEvidence,
                )
            } else {
                (
                    Identification { stage: IdentifyStage::Finished, force_refresh, search, recording_ids, warnings },
                    IdentifyAction::KeepBaseDecision { keep_evidence: false, evidence_replaced: false },
                )
            }
        },
        IdentifyEvent::EvidenceRead { recording_ids: ids, unusually_ambiguous } => {
            if unusually_ambiguous {
                let text = owned(
                    "Audio fingerprint produced more than five qualifying MusicBrainz recordings; only the five strongest were resolved",
                );
                let ghost before = warnings.deep_view();
                let ghost t = text@;
                warnings.push(text);
                assert(warnings.deep_view() =~= before.push(t));
            }
            if ids.len() == 0 {
                (
                    Identification { stage: IdentifyStage::Finished, force_refresh, search, recording_ids: ids, warnings },
                    IdentifyAction::KeepBaseDecision { keep_evidence: true, evidence_replaced: true },
                )
            } else {
                let next = recording_search(&search, &ids);
                (
                    Identification { stage: IdentifyStage::ResolvingRecordings, force_refresh, search, recording_ids: ids, warnings },
                    IdentifyAction::ResolveRecordings(next),
                )
            }
        },
        IdentifyEvent::RecordingsResolved { warnings: found } => {
            append_warnings(&mut warnings, &found);
            let ids = clone_strings(&recording_ids);
            (
                Identification { stage: IdentifyStage::Finished, force_refresh, search, recording_ids, warnings },
                IdentifyAction::DecideWithRecordings(ids),
            )
        },
    }
}

/// Appends `more` to `warnings`.
fn append_warnings(warnings: &mut Vec<String>, more: &Vec<String>)
    ensures
        final(warnings).deep_view() == old(warnings).deep_view() + more.deep_view(),
{
    let ghost start = warnings.deep_view();
    let mut k: usize = 0;
    while k < more.len()
        invariant
            k <= more@.len(),
            warnings.deep_view() =~= start + more.deep_view().take(k as int),
        decreases more@.len() - k,
    {
        let ghost w = warnings.deep_view();
        warnings.push(more[k].clone());
        assert(warnings.deep_view() =~= w.push(more.deep_view()[k as int]));
        assert(more.deep_view().take(k + 1) =~= more.deep_view().take(k as int).push(more.deep_view()[k as int]));
        k = k + 1;
    }
    assert(more.deep_view().take(more@.len() as int) =~= more.deep_view());
}

} // verus!
