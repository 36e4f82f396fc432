use music_groomer::guided_recovery::{
    interpret_destructive_confirmation, interpret_entry_answer, interpret_preferences_answer,
    interpret_recovery_answer, EntryAnswer, PreferencesAnswer, RecoveryAnswer,
};

#[test]
fn overview_answers_pick_displayed_copies_or_menus() {
    assert_eq!(interpret_recovery_answer(" P ", 2), RecoveryAnswer::Preferences);
    assert_eq!(interpret_recovery_answer("", 2), RecoveryAnswer::Done);
    assert_eq!(interpret_recovery_answer("Done", 0), RecoveryAnswer::Done);
    assert_eq!(interpret_recovery_answer("1", 2), RecoveryAnswer::Entry(0));
    assert_eq!(interpret_recovery_answer(" 2\n", 2), RecoveryAnswer::Entry(1));
    assert_eq!(interpret_recovery_answer("+2", 2), RecoveryAnswer::Entry(1));
    assert_eq!(interpret_recovery_answer("3", 2), RecoveryAnswer::Unrecognized);
    assert_eq!(interpret_recovery_answer("0", 2), RecoveryAnswer::Unrecognized);
    assert_eq!(interpret_recovery_answer("1", 0), RecoveryAnswer::Unrecognized);
    assert_eq!(interpret_recovery_answer("x", 2), RecoveryAnswer::Unrecognized);
}

#[test]
fn retained_copy_answers() {
    assert_eq!(interpret_entry_answer("R"), EntryAnswer::Restore);
    assert_eq!(interpret_entry_answer("delete"), EntryAnswer::Remove);
    assert_eq!(interpret_entry_answer("remove"), EntryAnswer::Remove);
    assert_eq!(interpret_entry_answer(""), EntryAnswer::Back);
    assert_eq!(interpret_entry_answer("x"), EntryAnswer::Unrecognized);
}

#[test]
fn preference_menu_answers() {
    assert_eq!(interpret_preferences_answer("g"), PreferencesAnswer::GracePeriod);
    assert_eq!(interpret_preferences_answer("Storage"), PreferencesAnswer::StorageLimit);
    assert_eq!(interpret_preferences_answer("  "), PreferencesAnswer::Back);
    assert_eq!(interpret_preferences_answer("z"), PreferencesAnswer::Unrecognized);
}

#[test]
fn restoring_and_removing_need_an_explicit_yes() {
    assert_eq!(interpret_destructive_confirmation("YES"), Some(true));
    assert_eq!(interpret_destructive_confirmation(""), Some(false));
    assert_eq!(interpret_destructive_confirmation("no"), Some(false));
    assert_eq!(interpret_destructive_confirmation("maybe"), None);
}
