use music_groomer::config::{AppConfig, ConfigError};
use music_groomer::destination::{destination_input, expand_home_with, push_path, DestinationError};

#[test]
fn missing_configuration_uses_bounded_default() {
    let config = AppConfig::default();

    assert_eq!(config.cache_max_bytes().unwrap(), 256 * 1024 * 1024);
    assert_eq!(config.recovery_grace_days().unwrap(), 30);
    assert_eq!(config.recovery_max_bytes().unwrap(), 10 * 1024 * 1024 * 1024);
}

#[test]
fn cache_limit_is_configurable_in_mebibytes() {
    let config = AppConfig { cache_max_mib: Some(12), ..AppConfig::default() };

    assert_eq!(config.cache_max_bytes().unwrap(), 12 * 1024 * 1024);
}

#[test]
fn recovery_preferences_are_configurable() {
    let config = AppConfig { recovery_grace_days: Some(90), recovery_max_mib: Some(20480), ..AppConfig::default() };

    assert_eq!(config.recovery_grace_days().unwrap(), 90);
    assert_eq!(config.recovery_max_bytes().unwrap(), 20 * 1024 * 1024 * 1024);
}

#[test]
fn zero_recovery_preferences_are_rejected() {
    let grace = AppConfig { recovery_grace_days: Some(0), ..AppConfig::default() };
    assert!(matches!(grace.recovery_grace_days(), Err(ConfigError::InvalidRecoveryGraceDays)));

    let limit = AppConfig { recovery_max_mib: Some(0), ..AppConfig::default() };
    assert!(matches!(limit.recovery_max_bytes(), Err(ConfigError::InvalidRecoveryLimit)));
}

#[test]
fn overflowing_recovery_limit_is_rejected() {
    let config = AppConfig { recovery_max_mib: Some(u64::MAX), ..AppConfig::default() };

    assert!(matches!(config.recovery_max_bytes(), Err(ConfigError::InvalidRecoveryLimit)));
}

#[test]
fn zero_and_overflowing_cache_limits_are_rejected() {
    let zero = AppConfig { cache_max_mib: Some(0), ..AppConfig::default() };
    let huge = AppConfig { cache_max_mib: Some(u64::MAX / 1024), ..AppConfig::default() };
    let largest = AppConfig { cache_max_mib: Some(u64::MAX / (1024 * 1024)), ..AppConfig::default() };

    assert!(matches!(zero.cache_max_bytes(), Err(ConfigError::InvalidCacheLimit)));
    assert!(matches!(huge.cache_max_bytes(), Err(ConfigError::InvalidCacheLimit)));
    assert_eq!(largest.cache_max_bytes().unwrap(), (u64::MAX / (1024 * 1024)) * 1024 * 1024);
}

#[test]
fn configuration_errors_explain_themselves() {
    assert_eq!(ConfigError::InvalidCacheLimit.describe(), "cache_max_mib must be a positive whole number");
    assert_eq!(
        ConfigError::Parse("/home/u/config.toml".into(), "expected `=`".into()).describe(),
        "cannot parse /home/u/config.toml: expected `=`"
    );
    assert_eq!(
        ConfigError::InvalidPath("config.toml".into()).describe(),
        "configuration path has no parent directory: config.toml"
    );
}

#[test]
fn non_empty_home_environment_wins_over_platform_home() {
    let expanded = expand_home_with("~/Music", Some("E:/home".into()), Some("C:/Users/cark".into())).unwrap();

    assert_eq!(expanded, "E:/home/Music");
}

#[test]
fn empty_home_environment_uses_platform_home() {
    let expanded = expand_home_with("~", Some(String::new()), Some("C:/Users/cark".into())).unwrap();

    assert_eq!(expanded, "C:/Users/cark");
}

#[test]
fn paths_without_tilde_do_not_require_a_home() {
    let expanded = expand_home_with("relative/music", None, None).unwrap();

    assert_eq!(expanded, "relative/music");
}

#[test]
fn tilde_without_any_home_is_refused() {
    assert!(matches!(expand_home_with("~/Music", None, None), Err(DestinationError::HomeUnavailable)));
    assert!(matches!(expand_home_with("~", Some(String::new()), None), Err(DestinationError::HomeUnavailable)));
    assert_eq!(expand_home_with("~user/Music", None, None).unwrap(), "~user/Music");
}

#[test]
fn destination_input_is_trimmed_and_must_not_be_empty() {
    assert!(matches!(destination_input("   ", None, None), Err(DestinationError::Empty)));
    assert_eq!(destination_input("  ~/Music \n", Some("/home/u".into()), None).unwrap(), "/home/u/Music");
}

#[test]
fn paths_join_like_path_push() {
    assert_eq!(push_path("/home/u", "Music"), "/home/u/Music");
    assert_eq!(push_path("/home/u/", "Music"), "/home/u/Music");
    assert_eq!(push_path("/home/u", "/media"), "/media");
    assert_eq!(push_path("", "Music"), "Music");
}

#[test]
fn destination_errors_explain_themselves() {
    assert_eq!(DestinationError::Empty.describe(), "enter an existing destination directory");
    assert_eq!(DestinationError::NotDirectory("/m".into()).describe(), "/m is not a directory");
    assert_eq!(
        DestinationError::Unavailable { path: "/m".into(), message: "gone".into() }.describe(),
        "/m is not available: gone"
    );
}

use music_groomer::guided_recovery::{
    checked_preferences, protection_deadline, read_preference_answer, recovery_grace_days, recovery_max_bytes,
    GuidedRecoveryError, PreferenceAnswer,
};

#[test]
fn protection_lasts_the_grace_period_in_whole_days() {
    assert_eq!(protection_deadline(1_000, 30).unwrap(), 1_000 + 30 * 86_400);
    match protection_deadline(u64::MAX - 10, 1) {
        Err(GuidedRecoveryError::Operation(message)) => {
            assert_eq!(message, "the configured recovery grace period is too large to schedule safely")
        }
        other => panic!("unexpected {other:?}"),
    }
    assert!(protection_deadline(0, u64::MAX).is_err());
}

#[test]
fn preference_answers_are_positive_whole_numbers_or_blank() {
    assert_eq!(read_preference_answer("  "), PreferenceAnswer::Cancel);
    assert_eq!(read_preference_answer(" 45 "), PreferenceAnswer::Value(45));
    assert_eq!(read_preference_answer("0"), PreferenceAnswer::Invalid);
    assert_eq!(read_preference_answer("-3"), PreferenceAnswer::Invalid);
    assert_eq!(read_preference_answer("18446744073709551615"), PreferenceAnswer::Value(u64::MAX));
    assert_eq!(read_preference_answer("18446744073709551616"), PreferenceAnswer::Invalid);
    assert_eq!(read_preference_answer("ten"), PreferenceAnswer::Invalid);
}

#[test]
fn preferences_are_checked_before_saving() {
    assert!(checked_preferences(&AppConfig::default()).is_ok());
    let zero = AppConfig { recovery_grace_days: Some(0), ..AppConfig::default() };
    match checked_preferences(&zero) {
        Err(GuidedRecoveryError::Operation(message)) => {
            assert_eq!(message, "recovery_grace_days must be a positive whole number")
        }
        other => panic!("unexpected {other:?}"),
    }
    let huge = AppConfig { recovery_max_mib: Some(u64::MAX), ..AppConfig::default() };
    assert!(checked_preferences(&huge).is_err());
    assert_eq!(recovery_grace_days(&AppConfig::default()).unwrap(), 30);
    assert_eq!(recovery_max_bytes(&AppConfig::default()).unwrap(), 10 * 1024 * 1024 * 1024);
}
