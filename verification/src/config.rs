use vstd::prelude::*;

use crate::provider::DEFAULT_CACHE_MAX_BYTES;
use crate::text::{append, owned};

verus! {

/// Days a replaced release is protected when the configuration sets none.
pub const DEFAULT_RECOVERY_GRACE_DAYS: u64 = 30;

/// Mebibytes of replaced releases kept when the configuration sets none.
pub const DEFAULT_RECOVERY_MAX_MIB: u64 = 10240;

/// Bytes in a mebibyte.
pub const MEBIBYTE: u64 = 1048576;

/// The user's saved preferences; every field may be absent.
#[derive(Clone, Debug, PartialEq, Eq)]
pub struct AppConfig {
    pub destination: Option<String>,
    pub cache_max_mib: Option<u64>,
    pub recovery_grace_days: Option<u64>,
    pub recovery_max_mib: Option<u64>,
}

impl Default for AppConfig {
    fn default() -> (r: Self)
        ensures
            r.destination is None,
            r.cache_max_mib is None,
            r.recovery_grace_days is None,
            r.recovery_max_mib is None,
    {
        AppConfig { destination: None, cache_max_mib: None, recovery_grace_days: None, recovery_max_mib: None }
    }
}

/// Why the configuration cannot be used.
#[derive(Debug)]
pub enum ConfigError {
    NoPlatformConfigDirectory,
    Read(String, String),
    Parse(String, String),
    InvalidCacheLimit,
    InvalidRecoveryGraceDays,
    InvalidRecoveryLimit,
    InvalidPath(String),
    Write(String, String),
}

pub open spec fn config_error_text(e: ConfigError) -> Seq<char> {
    match e {
        ConfigError::NoPlatformConfigDirectory => "this platform has no user configuration directory"@,
        ConfigError::Read(path, message) => "cannot read "@ + path@ + ": "@ + message@,
        ConfigError::Parse(path, message) => "cannot parse "@ + path@ + ": "@ + message@,
        ConfigError::InvalidCacheLimit => "cache_max_mib must be a positive whole number"@,
        ConfigError::InvalidRecoveryGraceDays => "recovery_grace_days must be a positive whole number"@,
        ConfigError::InvalidRecoveryLimit => "recovery_max_mib must be a positive whole number that fits in bytes"@,
        ConfigError::InvalidPath(path) => "configuration path has no parent directory: "@ + path@,
        ConfigError::Write(path, message) => "cannot save "@ + path@ + ": "@ + message@,
    }
}

impl ConfigError {
    /// The message shown for this error.
    pub fn describe(&self) -> (r: String)
        ensures
            r@ == config_error_text(*self),
    {
        match self {
            ConfigError::NoPlatformConfigDirectory => owned("this platform has no user configuration directory"),
            ConfigError::Read(path, message) => {
                let mut out = owned("cannot read ");
                append(&mut out, path.as_str());
                append(&mut out, ": ");
                append(&mut out, message.as_str());
                out
            },
            ConfigError::Parse(path, message) => {
                let mut out = owned("cannot parse ");
                append(&mut out, path.as_str());
                append(&mut out, ": ");
                append(&mut out, message.as_str());
                out
            },
            ConfigError::InvalidCacheLimit => owned("cache_max_mib must be a positive whole number"),
            ConfigError::InvalidRecoveryGraceDays => owned("recovery_grace_days must be a positive whole number"),
            ConfigError::InvalidRecoveryLimit => owned("recovery_max_mib must be a positive whole number that fits in bytes"),
            ConfigError::InvalidPath(path) => {
                let mut out = owned("configuration path has no parent directory: ");
                append(&mut out, path.as_str());
                out
            },
            ConfigError::Write(path, message) => {
                let mut out = owned("cannot save ");
                append(&mut out, path.as_str());
                append(&mut out, ": ");
                append(&mut out, message.as_str());
                out
            },
        }
    }
}

impl AppConfig {
    /// The provider cache limit in bytes: the default when unset; an error for zero
    /// or for a value whose bytes do not fit in 64 bits.
    pub fn cache_max_bytes(&self) -> (r: Result<u64, ConfigError>)
        ensures
            match self.cache_max_mib {
                None => r == Ok::<u64, ConfigError>(DEFAULT_CACHE_MAX_BYTES),
                Some(m) => if m == 0 || m * MEBIBYTE > u64::MAX {
                    r matches Err(ConfigError::InvalidCacheLimit)
                } else {
                    r == Ok::<u64, ConfigError>((m * MEBIBYTE) as u64)
                },
            },
    {
        match self.cache_max_mib {
            None => Ok(DEFAULT_CACHE_MAX_BYTES),
            Some(mebibytes) => if mebibytes == 0 {
                Err(ConfigError::InvalidCacheLimit)
            } else {
                match mebibytes.checked_mul(MEBIBYTE) {
                    Some(bytes) => Ok(bytes),
                    None => Err(ConfigError::InvalidCacheLimit),
                }
            },
        }
    }

    /// Days a replaced release stays protected: the default when unset; zero is an error.
    pub fn recovery_grace_days(&self) -> (r: Result<u64, ConfigError>)
        ensures
            match self.recovery_grace_days {
                None => r == Ok::<u64, ConfigError>(DEFAULT_RECOVERY_GRACE_DAYS),
                Some(d) => if d == 0 { r matches Err(ConfigError::InvalidRecoveryGraceDays) } else { r == Ok::<u64, ConfigError>(d) },
            },
    {
        match self.recovery_grace_days {
            None => Ok(DEFAULT_RECOVERY_GRACE_DAYS),
            Some(days) => if days == 0 { Err(ConfigError::InvalidRecoveryGraceDays) } else { Ok(days) },
        }
    }

    /// Bytes of replaced releases kept: the configured (or default) mebibytes in
    /// bytes; zero, or a count whose bytes do not fit in 64 bits, is an error.
    pub fn recovery_max_bytes(&self) -> (r: Result<u64, ConfigError>)
        ensures
            ({
                let m = match self.recovery_max_mib {
                    Some(m) => m,
                    None => DEFAULT_RECOVERY_MAX_MIB,
                };
                if m == 0 || m * MEBIBYTE > u64::MAX {
                    r matches Err(ConfigError::InvalidRecoveryLimit)
                } else {
                    r == Ok::<u64, ConfigError>((m * MEBIBYTE) as u64)
                }
            }),
    {
        let mebibytes = match self.recovery_max_mib {
            Some(m) => m,
            None => DEFAULT_RECOVERY_MAX_MIB,
        };
        if mebibytes == 0 {
            return Err(ConfigError::InvalidRecoveryLimit);
        }
        match mebibytes.checked_mul(MEBIBYTE) {
            Some(bytes) => Ok(bytes),
            None => Err(ConfigError::InvalidRecoveryLimit),
        }
    }
}

} // verus!
