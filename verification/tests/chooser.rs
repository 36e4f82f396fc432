use music_groomer::apply::snapshot::source_path;
use music_groomer::domain::SourceKind;
use music_groomer::guided_matching::chooser::{
    artwork_selection_for, choice_count, chooser_start, chooser_step, interpret_chooser_answer, interpret_view_answer,
    ChooserAction, ChooserAnswer, ChooserPhase,
};
use music_groomer::guided_matching::ArtworkSelection;
use music_groomer::provider::cover_art_archive::ProviderArtwork;
use music_groomer::source::{AncillaryFile, ArtworkCandidate, ArtworkFormat, SourceInspection};

fn source() -> SourceInspection {
    SourceInspection {
        source: "incoming/album".into(),
        kind: SourceKind::AlbumDirectory,
        audio: Vec::new(),
        ancillary: vec![
            AncillaryFile { relative_path: "cover.jpg".into(), bytes: 4096 },
            AncillaryFile { relative_path: "folder.png".into(), bytes: 8192 },
        ],
        artwork: vec![
            ArtworkCandidate {
                relative_path: "cover.jpg".into(),
                format: ArtworkFormat::Jpeg,
                dimensions: (400, 400),
                name_priority: 0,
            },
            ArtworkCandidate {
                relative_path: "folder.png".into(),
                format: ArtworkFormat::Png,
                dimensions: (800, 600),
                name_priority: 1,
            },
        ],
        selected_artwork: Some(0),
        notices: Vec::new(),
        snapshot: Vec::new(),
    }
}

#[test]
fn artwork_chooser_lists_selects_and_views_every_available_choice() {
    let source = source();
    let archive = ProviderArtwork { bytes: vec![0; 2048], format: ArtworkFormat::Jpeg, dimensions: (1200, 1000) };
    let count = choice_count(source.artwork.len(), Some(&archive));
    assert_eq!(count, 3);

    let mut current = ArtworkSelection::Source(0);
    let mut viewed_paths = Vec::new();
    let mut downloads = 0;
    let (mut phase, mut action) = chooser_start(count);
    assert_eq!(action, ChooserAction::ShowChoices);
    for answer in ["v", "2", "v", "3", "2", "b"] {
        (phase, action) = chooser_step(phase, count, answer);
        match action {
            ChooserAction::Select(choice) => current = artwork_selection_for(source.artwork.len(), Some(&archive), choice),
            ChooserAction::View(choice) => match artwork_selection_for(source.artwork.len(), Some(&archive), choice) {
                ArtworkSelection::Source(index) => {
                    viewed_paths.push(source_path(&source, &source.artwork[index].relative_path))
                }
                ArtworkSelection::CoverArtArchive(_) => downloads += 1,
                ArtworkSelection::Absent => panic!("nothing to view"),
            },
            _ => {}
        }
    }

    assert_eq!(phase, ChooserPhase::Done);
    assert_eq!(action, ChooserAction::Finish);
    assert!(matches!(current, ArtworkSelection::Source(1)));
    assert_eq!(viewed_paths, vec!["incoming/album/folder.png".to_string()]);
    assert_eq!(downloads, 1);
}

#[test]
fn chooser_answers_are_listed_numbers_view_back_or_nothing() {
    assert_eq!(interpret_chooser_answer(" 3 ", 3), ChooserAnswer::Select(3));
    assert_eq!(interpret_chooser_answer("4", 3), ChooserAnswer::Unrecognized);
    assert_eq!(interpret_chooser_answer("0", 3), ChooserAnswer::Unrecognized);
    assert_eq!(interpret_chooser_answer("View", 3), ChooserAnswer::View);
    assert_eq!(interpret_chooser_answer("B", 3), ChooserAnswer::Back);
    assert_eq!(interpret_chooser_answer("", 3), ChooserAnswer::Redisplay);
    assert_eq!(interpret_view_answer("", 3), Some(None));
    assert_eq!(interpret_view_answer("back", 3), Some(None));
    assert_eq!(interpret_view_answer("2", 3), Some(Some(2)));
    assert_eq!(interpret_view_answer("9", 3), None);
    assert_eq!(chooser_start(0), (ChooserPhase::Done, ChooserAction::NothingToChoose));
}
