use vstd::prelude::*;

use crate::text::{append, owned};

verus! {

/// A publication partial left behind by an interrupted Apply, and its size.
#[derive(Clone, Debug, PartialEq, Eq)]
pub struct AbandonedPartial {
    pub path: String,
    pub bytes: u64,
}

/// Why abandoned partials could not be listed or removed.
#[derive(Debug)]
pub enum CleanupError {
    Io { path: String, message: String },
    Unowned(String),
}

pub open spec fn cleanup_error_text(e: CleanupError) -> Seq<char> {
    match e {
        CleanupError::Io { path, message } => path@ + ": "@ + message@,
        CleanupError::Unowned(path) => "refusing to remove unmarked publication data at "@ + path@,
    }
}

impl CleanupError {
    /// The message shown for this error.
    pub fn describe(&self) -> (r: String)
        ensures
            r@ == cleanup_error_text(*self),
    {
        match self {
            CleanupError::Io { path, message } => {
                let mut out = path.clone();
                append(&mut out, ": ");
                append(&mut out, message.as_str());
                out
            },
            CleanupError::Unowned(path) => {
                let mut out = owned("refusing to remove unmarked publication data at ");
                append(&mut out, path.as_str());
                out
            },
        }
    }
}

} // verus!
