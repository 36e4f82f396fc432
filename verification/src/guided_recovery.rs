use vstd::prelude::*;

use crate::config::{config_error_text, AppConfig, ConfigError, DEFAULT_RECOVERY_GRACE_DAYS, DEFAULT_RECOVERY_MAX_MIB, MEBIBYTE};
use crate::matching_ui::{ascii_lowered, number_value, read_number};
use crate::text::{append, owned, text_eq, to_ascii_lowercase, trim_by, trim_whitespace, ws_sep};

verus! {

/// Why the guided recovery flow stopped.
#[derive(Debug)]
pub enum GuidedRecoveryError {
    Io(String),
    Operation(String),
}

pub open spec fn guided_recovery_error_text(e: GuidedRecoveryError) -> Seq<char> {
    match e {
        GuidedRecoveryError::Io(message) => "terminal interaction failed: "@ + message@,
        GuidedRecoveryError::Operation(message) => message@,
    }
}

impl GuidedRecoveryError {
    /// The message shown for this error.
    pub fn describe(&self) -> (r: String)
        ensures
            r@ == guided_recovery_error_text(*self),
    {
        match self {
            GuidedRecoveryError::Io(message) => {
                let mut out = owned("terminal interaction failed: ");
                append(&mut out, message.as_str());
                out
            },
            GuidedRecoveryError::Operation(message) => message.clone(),
        }
    }
}

/// Seconds in a day.
pub const SECONDS_PER_DAY: u64 = 86400;

/// When a version retained `now` stops being protected, `grace_days` later; an
/// error when that moment does not fit in 64 bits.
pub fn protection_deadline(now: u64, grace_days: u64) -> (r: Result<u64, GuidedRecoveryError>)
    ensures
        now + grace_days * SECONDS_PER_DAY <= u64::MAX ==> r == Ok::<u64, GuidedRecoveryError>(
            (now + grace_days * SECONDS_PER_DAY) as u64,
        ),
        now + grace_days * SECONDS_PER_DAY > u64::MAX ==> (r matches Err(GuidedRecoveryError::Operation(m)) && m@
            == "the configured recovery grace period is too large to schedule safely"@),
{
    let deadline = match grace_days.checked_mul(SECONDS_PER_DAY) {
        Some(seconds) => now.checked_add(seconds),
        None => None,
    };
    match deadline {
        Some(d) => Ok(d),
        None => {
            assert(now + grace_days * SECONDS_PER_DAY > u64::MAX) by (nonlinear_arith)
                requires
                    grace_days * SECONDS_PER_DAY > u64::MAX || now + grace_days * SECONDS_PER_DAY > u64::MAX,
            ;
            Err(GuidedRecoveryError::Operation(owned("the configured recovery grace period is too large to schedule safely")))
        },
    }
}

/// The configured grace period, or the configuration's error as this flow's.
pub fn recovery_grace_days(config: &AppConfig) -> (r: Result<u64, GuidedRecoveryError>)
    ensures
        match config.recovery_grace_days {
            None => r == Ok::<u64, GuidedRecoveryError>(DEFAULT_RECOVERY_GRACE_DAYS),
            Some(d) => if d == 0 {
                r matches Err(GuidedRecoveryError::Operation(m)) && m@ == config_error_text(ConfigError::InvalidRecoveryGraceDays)
            } else {
                r == Ok::<u64, GuidedRecoveryError>(d)
            },
        },
{
    match config.recovery_grace_days() {
        Ok(days) => Ok(days),
        Err(error) => Err(GuidedRecoveryError::Operation(error.describe())),
    }
}

/// The configured storage limit in bytes, or the configuration's error as this flow's.
pub fn recovery_max_bytes(config: &AppConfig) -> (r: Result<u64, GuidedRecoveryError>)
    ensures
        ({
            let m = match config.recovery_max_mib {
                Some(m) => m,
                None => DEFAULT_RECOVERY_MAX_MIB,
            };
            if m == 0 || m * MEBIBYTE > u64::MAX {
                r matches Err(GuidedRecoveryError::Operation(e)) && e@ == config_error_text(ConfigError::InvalidRecoveryLimit)
            } else {
                r == Ok::<u64, GuidedRecoveryError>((m * MEBIBYTE) as u64)
            }
        }),
{
    match config.recovery_max_bytes() {
        Ok(bytes) => Ok(bytes),
        Err(error) => Err(GuidedRecoveryError::Operation(error.describe())),
    }
}

/// What an answer to a preference prompt asks for.
#[derive(Clone, Copy, Debug, PartialEq, Eq)]
pub enum PreferenceAnswer {
    Cancel,
    Invalid,
    Value(u64),
}

/// How a preference answer is read: blank cancels; a positive whole number that
/// fits in 64 bits is the new value; anything else is invalid.
pub open spec fn preference_answer(answer: Seq<char>) -> PreferenceAnswer {
    let t = trim_by(answer, ws_sep());
    if t.len() == 0 {
        PreferenceAnswer::Cancel
    } else {
        match number_value(t) {
            Some(n) => if 0 < n <= u64::MAX { PreferenceAnswer::Value(n as u64) } else { PreferenceAnswer::Invalid },
            None => PreferenceAnswer::Invalid,
        }
    }
}

/// Reads an answer to a grace-period or storage-limit prompt.
pub fn read_preference_answer(answer: &str) -> (r: PreferenceAnswer)
    ensures
        r == preference_answer(answer@),
{
    let trimmed = trim_whitespace(answer);
    if trimmed.unicode_len() == 0 {
        return PreferenceAnswer::Cancel;
    }
    match read_number(trimmed.as_str(), u64::MAX) {
        Some((value, over)) => if !over && value > 0 { PreferenceAnswer::Value(value) } else { PreferenceAnswer::Invalid },
        None => PreferenceAnswer::Invalid,
    }
}

/// Checks preferences before they are saved: both the grace period and the storage
/// limit must be usable.
pub fn checked_preferences(candidate: &AppConfig) -> (r: Result<(), GuidedRecoveryError>)
    ensures
        r is Ok <==> (candidate.recovery_grace_days != Some(0u64) && {
            let m = match candidate.recovery_max_mib {
                Some(m) => m,
                None => DEFAULT_RECOVERY_MAX_MIB,
            };
            m != 0 && m * MEBIBYTE <= u64::MAX
        }),
{
    match recovery_grace_days(candidate) {
        Ok(_) => {},
        Err(error) => return Err(error),
    }
    match recovery_max_bytes(candidate) {
        Ok(_) => Ok(()),
        Err(error) => Err(error),
    }
}

/// What an answer at the recovery overview asks for.
#[derive(Clone, Copy, Debug, PartialEq, Eq, Structural)]
pub enum RecoveryAnswer {
    Preferences,
    Done,
    /// The retained copy at this position of the list (from zero).
    Entry(usize),
    Unrecognized,
}

/// The answer trimmed of whitespace, letters lowered in ASCII.
pub open spec fn answer_word(answer: Seq<char>) -> Seq<char> {
    ascii_lowered(trim_by(answer, ws_sep()))
}

/// `p`/`preferences`; `q`/`quit`/`done` or nothing ends; a displayed number,
/// one to `count`, picks that retained copy.
pub open spec fn recovery_answer(answer: Seq<char>, count: nat) -> RecoveryAnswer {
    let word = answer_word(answer);
    if word == "p"@ || word == "preferences"@ {
        RecoveryAnswer::Preferences
    } else if word == "q"@ || word == "quit"@ || word == "done"@ || word.len() == 0 {
        RecoveryAnswer::Done
    } else {
        match number_value(word) {
            Some(n) => if 1 <= n <= count { RecoveryAnswer::Entry((n - 1) as usize) } else { RecoveryAnswer::Unrecognized },
            None => RecoveryAnswer::Unrecognized,
        }
    }
}

/// How an answer at the recovery overview, listing `count` retained copies, is read.
pub fn interpret_recovery_answer(answer: &str, count: usize) -> (r: RecoveryAnswer)
    ensures
        r == recovery_answer(answer@, count as nat),
{
    let trimmed = trim_whitespace(answer);
    let word = to_ascii_lowercase(trimmed.as_str());
    proof {
        reveal_strlit("p");
        reveal_strlit("preferences");
        reveal_strlit("q");
        reveal_strlit("quit");
        reveal_strlit("done");
    }
    let w = word.as_str();
    if text_eq(w, "p") || text_eq(w, "preferences") {
        RecoveryAnswer::Preferences
    } else if text_eq(w, "q") || text_eq(w, "quit") || text_eq(w, "done") || w.unicode_len() == 0 {
        RecoveryAnswer::Done
    } else {
        match read_number(w, count as u64) {
            Some((n, over)) => if !over && n >= 1 {
                RecoveryAnswer::Entry((n - 1) as usize)
            } else {
                RecoveryAnswer::Unrecognized
            },
            None => RecoveryAnswer::Unrecognized,
        }
    }
}

/// What an answer about one retained copy asks for.
#[derive(Clone, Copy, Debug, PartialEq, Eq, Structural)]
pub enum EntryAnswer {
    Restore,
    Remove,
    Back,
    Unrecognized,
}

/// `r`/`restore`; `d`/`delete`/`remove`; `b`/`back` or nothing goes back.
pub open spec fn entry_answer(answer: Seq<char>) -> EntryAnswer {
    let word = answer_word(answer);
    if word == "r"@ || word == "restore"@ {
        EntryAnswer::Restore
    } else if word == "d"@ || word == "delete"@ || word == "remove"@ {
        EntryAnswer::Remove
    } else if word == "b"@ || word == "back"@ || word.len() == 0 {
        EntryAnswer::Back
    } else {
        EntryAnswer::Unrecognized
    }
}

/// How an answer about one retained copy is read.
pub fn interpret_entry_answer(answer: &str) -> (r: EntryAnswer)
    ensures
        r == entry_answer(answer@),
{
    let trimmed = trim_whitespace(answer);
    let word = to_ascii_lowercase(trimmed.as_str());
    proof {
        reveal_strlit("r");
        reveal_strlit("restore");
        reveal_strlit("d");
        reveal_strlit("delete");
        reveal_strlit("remove");
        reveal_strlit("b");
        reveal_strlit("back");
    }
    let w = word.as_str();
    if text_eq(w, "r") || text_eq(w, "restore") {
        EntryAnswer::Restore
    } else if text_eq(w, "d") || text_eq(w, "delete") || text_eq(w, "remove") {
        EntryAnswer::Remove
    } else if text_eq(w, "b") || text_eq(w, "back") || w.unicode_len() == 0 {
        EntryAnswer::Back
    } else {
        EntryAnswer::Unrecognized
    }
}

/// What an answer at the preferences menu asks for.
#[derive(Clone, Copy, Debug, PartialEq, Eq, Structural)]
pub enum PreferencesAnswer {
    GracePeriod,
    StorageLimit,
    Back,
    Unrecognized,
}

/// `g`/`grace`; `s`/`storage`; `b`/`back` or nothing goes back.
pub open spec fn preferences_answer(answer: Seq<char>) -> PreferencesAnswer {
    let word = answer_word(answer);
    if word == "g"@ || word == "grace"@ {
        PreferencesAnswer::GracePeriod
    } else if word == "s"@ || word == "storage"@ {
        PreferencesAnswer::StorageLimit
    } else if word == "b"@ || word == "back"@ || word.len() == 0 {
        PreferencesAnswer::Back
    } else {
        PreferencesAnswer::Unrecognized
    }
}

/// How an answer at the preferences menu is read.
pub fn interpret_preferences_answer(answer: &str) -> (r: PreferencesAnswer)
    ensures
        r == preferences_answer(answer@),
{
    let trimmed = trim_whitespace(answer);
    let word = to_ascii_lowercase(trimmed.as_str());
    proof {
        reveal_strlit("g");
        reveal_strlit("grace");
        reveal_strlit("s");
        reveal_strlit("storage");
        reveal_strlit("b");
        reveal_strlit("back");
    }
    let w = word.as_str();
    if text_eq(w, "g") || text_eq(w, "grace") {
        PreferencesAnswer::GracePeriod
    } else if text_eq(w, "s") || text_eq(w, "storage") {
        PreferencesAnswer::StorageLimit
    } else if text_eq(w, "b") || text_eq(w, "back") || w.unicode_len() == 0 {
        PreferencesAnswer::Back
    } else {
        PreferencesAnswer::Unrecognized
    }
}

/// Restoring or removing a retained copy goes ahead only on `y` or `yes`
/// (trimmed, any ASCII case); nothing, `n` or `no` declines; anything else is
/// asked again.
pub open spec fn destructive_confirmation(answer: Seq<char>) -> Option<bool> {
    let word = answer_word(answer);
    if word == "y"@ || word == "yes"@ {
        Some(true)
    } else if word.len() == 0 || word == "n"@ || word == "no"@ {
        Some(false)
    } else {
        None
    }
}

/// How an answer to "Restore it? [y/N]" or "Remove it? [y/N]" is read: `None`
/// asks again.
pub fn interpret_destructive_confirmation(answer: &str) -> (r: Option<bool>)
    ensures
        r == destructive_confirmation(answer@),
{
    let trimmed = trim_whitespace(answer);
    let word = to_ascii_lowercase(trimmed.as_str());
    proof {
        reveal_strlit("y");
        reveal_strlit("yes");
        reveal_strlit("n");
        reveal_strlit("no");
    }
    let w = word.as_str();
    if text_eq(w, "y") || text_eq(w, "yes") {
        Some(true)
    } else if w.unicode_len() == 0 || text_eq(w, "n") || text_eq(w, "no") {
        Some(false)
    } else {
        None
    }
}

/// Nothing is restored or removed unless the answer says yes: an empty answer
/// declines.
pub proof fn law_destructive_actions_need_an_explicit_yes(answer: Seq<char>)
    ensures
        destructive_confirmation(answer) == Some(true) ==> answer_word(answer) == "y"@ || answer_word(answer) == "yes"@,
        answer_word(answer).len() == 0 ==> destructive_confirmation(answer) == Some(false),
{
    reveal_strlit("y");
    reveal_strlit("yes");
}

} // verus!
