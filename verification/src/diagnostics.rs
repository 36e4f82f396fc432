use vstd::prelude::*;

use crate::text::{append, owned};

verus! {

/// Why diagnostics could not be started.
#[derive(Debug)]
pub enum DiagnosticsError {
    NoPlatformDirectory,
    InvalidPath(String),
    CreateDirectory { path: String, message: String },
    Open { path: String, message: String },
    Lock { path: String, message: String },
    Truncate { path: String, message: String },
    Install(String),
}

pub open spec fn diagnostics_error_text(e: DiagnosticsError) -> Seq<char> {
    match e {
        DiagnosticsError::NoPlatformDirectory => "this platform has no application diagnostics directory"@,
        DiagnosticsError::InvalidPath(p) => "diagnostics path has no parent directory: "@ + p@,
        DiagnosticsError::CreateDirectory { path, message } => "cannot create diagnostics directory "@ + path@ + ": "@ + message@,
        DiagnosticsError::Open { path, message } => "cannot open diagnostics file "@ + path@ + ": "@ + message@,
        DiagnosticsError::Lock { path, message } => "another diagnostic run is using "@ + path@ + ": "@ + message@,
        DiagnosticsError::Truncate { path, message } => "cannot replace diagnostics file "@ + path@ + ": "@ + message@,
        DiagnosticsError::Install(m) => "cannot start diagnostics: "@ + m@,
    }
}

fn joined_message(prefix: &str, path: &String, message: &String) -> (r: String)
    ensures
        r@ == prefix@ + path@ + ": "@ + message@,
{
    let mut out = owned(prefix);
    append(&mut out, path.as_str());
    append(&mut out, ": ");
    append(&mut out, message.as_str());
    out
}

impl DiagnosticsError {
    /// The message shown for this error.
    pub fn describe(&self) -> (r: String)
        ensures
            r@ == diagnostics_error_text(*self),
    {
        match self {
            DiagnosticsError::NoPlatformDirectory => owned("this platform has no application diagnostics directory"),
            DiagnosticsError::InvalidPath(p) => {
                let mut out = owned("diagnostics path has no parent directory: ");
                append(&mut out, p.as_str());
                out
            },
            DiagnosticsError::CreateDirectory { path, message } => joined_message("cannot create diagnostics directory ", path, message),
            DiagnosticsError::Open { path, message } => joined_message("cannot open diagnostics file ", path, message),
            DiagnosticsError::Lock { path, message } => joined_message("another diagnostic run is using ", path, message),
            DiagnosticsError::Truncate { path, message } => joined_message("cannot replace diagnostics file ", path, message),
            DiagnosticsError::Install(m) => {
                let mut out = owned("cannot start diagnostics: ");
                append(&mut out, m.as_str());
                out
            },
        }
    }
}

} // verus!
