use vstd::prelude::*;

use crate::guided_matching::ArtworkSelection;
use crate::guided_recovery::answer_word;
use crate::matching_ui::{number_value, read_number};
use crate::provider::cover_art_archive::ProviderArtwork;
use crate::text::{text_eq, to_ascii_lowercase, trim_whitespace};

verus! {

/// How many artwork choices there are: each source image, then the archive's
/// front cover when there is one.
pub open spec fn artwork_choice_count(source_images: nat, has_archive: bool) -> nat {
    source_images + if has_archive { 1nat } else { 0nat }
}

/// The number of artwork choices.
pub fn choice_count(source_images: usize, archive: Option<&ProviderArtwork>) -> (r: usize)
    requires
        source_images < usize::MAX,
    ensures
        r == artwork_choice_count(source_images as nat, archive is Some),
{
    if archive.is_some() {
        source_images + 1
    } else {
        source_images
    }
}

/// The listed choice a trimmed answer names: a number from one to `count`.
pub open spec fn listed_choice(word: Seq<char>, count: nat) -> Option<nat> {
    match number_value(word) {
        Some(n) => if 1 <= n <= count { Some(n) } else { None },
        None => None,
    }
}

fn read_listed_choice(word: &str, count: usize) -> (r: Option<usize>)
    ensures
        match listed_choice(word@, count as nat) {
            Some(n) => r == Some(n as usize),
            None => r is None,
        },
{
    match read_number(word, count as u64) {
        Some((n, over)) => if !over && n >= 1 {
            Some(n as usize)
        } else {
            None
        },
        None => None,
    }
}

/// What an answer at the artwork choices asks for.
#[derive(Clone, Copy, Debug, PartialEq, Eq, Structural)]
pub enum ChooserAnswer {
    View,
    Back,
    Redisplay,
    /// The listed choice with this number, from one.
    Select(usize),
    Unrecognized,
}

/// `v`/`view` asks to view a choice; `b`/`back` keeps the current choice and
/// leaves; nothing shows the choices again; a listed number selects that choice.
pub open spec fn chooser_answer(answer: Seq<char>, count: nat) -> ChooserAnswer {
    let word = answer_word(answer);
    if word == "v"@ || word == "view"@ {
        ChooserAnswer::View
    } else if word == "b"@ || word == "back"@ {
        ChooserAnswer::Back
    } else if answer.len() == 0 {
        ChooserAnswer::Redisplay
    } else {
        match listed_choice(word, count) {
            Some(n) => ChooserAnswer::Select(n as usize),
            None => ChooserAnswer::Unrecognized,
        }
    }
}

/// How an answer at the artwork choices, `count` of them, is read.
pub fn interpret_chooser_answer(answer: &str, count: usize) -> (r: ChooserAnswer)
    ensures
        r == chooser_answer(answer@, count as nat),
{
    let trimmed = trim_whitespace(answer);
    let word = to_ascii_lowercase(trimmed.as_str());
    proof {
        reveal_strlit("v");
        reveal_strlit("view");
        reveal_strlit("b");
        reveal_strlit("back");
    }
    let w = word.as_str();
    if text_eq(w, "v") || text_eq(w, "view") {
        ChooserAnswer::View
    } else if text_eq(w, "b") || text_eq(w, "back") {
        ChooserAnswer::Back
    } else if answer.unicode_len() == 0 {
        ChooserAnswer::Redisplay
    } else {
        match read_listed_choice(w, count) {
            Some(n) => ChooserAnswer::Select(n),
            None => ChooserAnswer::Unrecognized,
        }
    }
}

/// The choice an answer to "View which artwork?" names: nothing or `b`/`back`
/// views none (`Some(None)`); a listed number views that choice; anything else
/// is asked again (`None`).
pub open spec fn view_answer(answer: Seq<char>, count: nat) -> Option<Option<nat>> {
    let word = answer_word(answer);
    if answer.len() == 0 || word == "b"@ || word == "back"@ {
        Some(None)
    } else {
        match listed_choice(word, count) {
            Some(n) => Some(Some(n)),
            None => None,
        }
    }
}

/// How an answer to "View which artwork?", among `count` choices, is read.
pub fn interpret_view_answer(answer: &str, count: usize) -> (r: Option<Option<usize>>)
    ensures
        match view_answer(answer@, count as nat) {
            Some(Some(n)) => r == Some(Some(n as usize)),
            Some(None) => r == Some(None::<usize>),
            None => r is None,
        },
{
    let trimmed = trim_whitespace(answer);
    let word = to_ascii_lowercase(trimmed.as_str());
    proof {
        reveal_strlit("b");
        reveal_strlit("back");
    }
    let w = word.as_str();
    if answer.unicode_len() == 0 || text_eq(w, "b") || text_eq(w, "back") {
        Some(None)
    } else {
        match read_listed_choice(w, count) {
            Some(n) => Some(Some(n)),
            None => None,
        }
    }
}

/// The selection a listed choice stands for: a source image by its place, or
/// the archive's front cover after them.
pub fn artwork_selection_for(source_images: usize, archive: Option<&ProviderArtwork>, choice: usize) -> (r:
    ArtworkSelection)
    requires
        1 <= choice <= artwork_choice_count(source_images as nat, archive is Some),
    ensures
        choice <= source_images ==> r == ArtworkSelection::Source((choice - 1) as usize),
        choice > source_images ==> (r matches ArtworkSelection::CoverArtArchive(a) && a.bytes@ == archive->0.bytes@
            && a.format == archive->0.format && a.dimensions == archive->0.dimensions),
{
    if choice <= source_images {
        ArtworkSelection::Source(choice - 1)
    } else {
        match archive {
            Some(a) => ArtworkSelection::CoverArtArchive(a.clone()),
            None => ArtworkSelection::Source(choice - 1),
        }
    }
}

/// Where the artwork chooser stands.
#[derive(Clone, Copy, Debug, PartialEq, Eq, Structural)]
pub enum ChooserPhase {
    Choosing,
    ChoosingView,
    Done,
}

/// What the artwork chooser does next.
#[derive(Clone, Copy, Debug, PartialEq, Eq, Structural)]
pub enum ChooserAction {
    /// There is no artwork to choose from: say so and keep the current choice.
    NothingToChoose,
    /// Show the choices, marking the current one, and ask.
    ShowChoices,
    ComplainThenShowChoices,
    /// Make this listed choice (from one) the current one, then show the choices.
    Select(usize),
    /// Ask which choice to view.
    AskView,
    ComplainThenAskView,
    /// Open this listed choice (from one) in the image viewer, then show the choices.
    View(usize),
    /// Leave with the current choice.
    Finish,
}

/// The chooser starts by showing the choices, when there are any.
pub fn chooser_start(count: usize) -> (r: (ChooserPhase, ChooserAction))
    ensures
        count == 0 ==> r == (ChooserPhase::Done, ChooserAction::NothingToChoose),
        count > 0 ==> r == (ChooserPhase::Choosing, ChooserAction::ShowChoices),
{
    if count == 0 {
        (ChooserPhase::Done, ChooserAction::NothingToChoose)
    } else {
        (ChooserPhase::Choosing, ChooserAction::ShowChoices)
    }
}

/// How the chooser goes on after an answer.
pub open spec fn chooser_transition(phase: ChooserPhase, count: nat, answer: Seq<char>) -> (ChooserPhase, ChooserAction) {
    match phase {
        ChooserPhase::Choosing => match chooser_answer(answer, count) {
            ChooserAnswer::View => (ChooserPhase::ChoosingView, ChooserAction::AskView),
            ChooserAnswer::Back => (ChooserPhase::Done, ChooserAction::Finish),
            ChooserAnswer::Redisplay => (ChooserPhase::Choosing, ChooserAction::ShowChoices),
            ChooserAnswer::Select(n) => (ChooserPhase::Choosing, ChooserAction::Select(n)),
            ChooserAnswer::Unrecognized => (ChooserPhase::Choosing, ChooserAction::ComplainThenShowChoices),
        },
        ChooserPhase::ChoosingView => match view_answer(answer, count) {
            Some(Some(n)) => (ChooserPhase::Choosing, ChooserAction::View(n as usize)),
            Some(None) => (ChooserPhase::Choosing, ChooserAction::ShowChoices),
            None => (ChooserPhase::ChoosingView, ChooserAction::ComplainThenAskView),
        },
        ChooserPhase::Done => (ChooserPhase::Done, ChooserAction::Finish),
    }
}

/// Advances the chooser by the user's answer, among `count` choices.
pub fn chooser_step(phase: ChooserPhase, count: usize, answer: &str) -> (r: (ChooserPhase, ChooserAction))
    ensures
        r == chooser_transition(phase, count as nat, answer@),
        r.1 matches ChooserAction::Select(n) ==> 1 <= n <= count,
        r.1 matches ChooserAction::View(n) ==> 1 <= n <= count,
{
    match phase {
        ChooserPhase::Choosing => match interpret_chooser_answer(answer, count) {
            ChooserAnswer::View => (ChooserPhase::ChoosingView, ChooserAction::AskView),
            ChooserAnswer::Back => (ChooserPhase::Done, ChooserAction::Finish),
            ChooserAnswer::Redisplay => (ChooserPhase::Choosing, ChooserAction::ShowChoices),
            ChooserAnswer::Select(n) => (ChooserPhase::Choosing, ChooserAction::Select(n)),
            ChooserAnswer::Unrecognized => (ChooserPhase::Choosing, ChooserAction::ComplainThenShowChoices),
        },
        ChooserPhase::ChoosingView => match interpret_view_answer(answer, count) {
            Some(Some(n)) => (ChooserPhase::Choosing, ChooserAction::View(n)),
            Some(None) => (ChooserPhase::Choosing, ChooserAction::ShowChoices),
            None => (ChooserPhase::ChoosingView, ChooserAction::ComplainThenAskView),
        },
        ChooserPhase::Done => (ChooserPhase::Done, ChooserAction::Finish),
    }
}

/// Law: the chooser never changes the selection except by a listed number the
/// user gave, and it only leaves on `b`/`back` (or when there is nothing to choose).
pub proof fn law_chooser_selects_only_listed_choices(phase: ChooserPhase, count: usize, answer: Seq<char>)
    ensures
        chooser_transition(phase, count as nat, answer).1 matches ChooserAction::Select(n) ==> phase == ChooserPhase::Choosing
            && listed_choice(answer_word(answer), count as nat) == Some(n as nat),
        phase == ChooserPhase::Choosing && chooser_transition(phase, count as nat, answer).0 == ChooserPhase::Done
            ==> (answer_word(answer) == "b"@ || answer_word(answer) == "back"@),
{
}

} // verus!
