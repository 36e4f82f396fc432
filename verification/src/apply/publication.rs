use vstd::prelude::*;

use crate::text::{append, owned};

verus! {

/// The directory, under a destination root, that holds publication partials.
pub const PARTIAL_DIRECTORY: &'static str = ".music-groomer-partials";

/// The marker file that identifies a publication partial.
pub const PARTIAL_MARKER: &'static str = ".music-groomer-partial";

/// How the staged result reached the destination.
#[derive(Clone, Copy, Debug, PartialEq, Eq)]
pub enum PublicationRoute {
    DirectRename,
    DestinationCopy,
}

/// How publication went, with any cleanup that remained incomplete.
#[derive(Debug)]
pub struct PublicationResult {
    pub route: PublicationRoute,
    pub cleanup_warning: Option<String>,
}

/// Why publication failed.
#[derive(Debug)]
pub enum PublicationError {
    Collision(String),
    Io { path: String, message: String },
    Cleanup { original: Box<PublicationError>, path: String, message: String },
    OutsideRoot(String),
    UnsafeObject(String),
    CannotAllocatePartial(String),
    Validation { path: String, cause: String },
}

/// The path a publication error is about.
pub open spec fn publication_error_path(e: PublicationError) -> Seq<char> {
    match e {
        PublicationError::Collision(path) => path@,
        PublicationError::Io { path, .. } => path@,
        PublicationError::Cleanup { path, .. } => path@,
        PublicationError::OutsideRoot(path) => path@,
        PublicationError::UnsafeObject(path) => path@,
        PublicationError::CannotAllocatePartial(path) => path@,
        PublicationError::Validation { path, .. } => path@,
    }
}

pub open spec fn publication_error_text(e: PublicationError) -> Seq<char>
    decreases e,
{
    match e {
        PublicationError::Collision(path) => "the final release path already exists and was not overwritten: "@ + path@,
        PublicationError::Io { path, message } => path@ + ": "@ + message@,
        PublicationError::Cleanup { original, path, message } => publication_error_text(*original)
            + "; also could not clean publication partial "@ + path@ + ": "@ + message@,
        PublicationError::OutsideRoot(path) => "destination "@ + path@ + " is outside the selected destination root"@,
        PublicationError::UnsafeObject(path) => "staging contains an unsafe filesystem object: "@ + path@,
        PublicationError::CannotAllocatePartial(path) => "cannot allocate a unique publication partial under "@ + path@,
        PublicationError::Validation { path, cause } => "destination-side publication copy failed validation at "@ + path@
            + ": "@ + cause@,
    }
}

impl PublicationError {
    /// The path the error is about.
    pub fn path(&self) -> (r: &str)
        ensures
            r@ == publication_error_path(*self),
    {
        match self {
            PublicationError::Collision(path) => path.as_str(),
            PublicationError::Io { path, .. } => path.as_str(),
            PublicationError::Cleanup { path, .. } => path.as_str(),
            PublicationError::OutsideRoot(path) => path.as_str(),
            PublicationError::UnsafeObject(path) => path.as_str(),
            PublicationError::CannotAllocatePartial(path) => path.as_str(),
            PublicationError::Validation { path, .. } => path.as_str(),
        }
    }

    /// For a failed cleanup of a publication partial, what remains and why.
    pub fn cleanup_failure(&self) -> (r: Option<String>)
        ensures
            match *self {
                PublicationError::Cleanup { path, message, .. } => r matches Some(text) && text@
                    == "publication partial remains at "@ + path@ + ": "@ + message@,
                _ => r is None,
            },
    {
        match self {
            PublicationError::Cleanup { path, message, .. } => {
                let mut out = owned("publication partial remains at ");
                append(&mut out, path.as_str());
                append(&mut out, ": ");
                append(&mut out, message.as_str());
                Some(out)
            },
            _ => None,
        }
    }

    /// The message shown for this error.
    pub fn describe(&self) -> (r: String)
        ensures
            r@ == publication_error_text(*self),
        decreases self,
    {
        match self {
            PublicationError::Collision(path) => {
                let mut out = owned("the final release path already exists and was not overwritten: ");
                append(&mut out, path.as_str());
                out
            },
            PublicationError::Io { path, message } => {
                let mut out = path.clone();
                append(&mut out, ": ");
                append(&mut out, message.as_str());
                out
            },
            PublicationError::Cleanup { original, path, message } => {
                let mut out = original.describe();
                append(&mut out, "; also could not clean publication partial ");
                append(&mut out, path.as_str());
                append(&mut out, ": ");
                append(&mut out, message.as_str());
                out
            },
            PublicationError::OutsideRoot(path) => {
                let mut out = owned("destination ");
                append(&mut out, path.as_str());
                append(&mut out, " is outside the selected destination root");
                out
            },
            PublicationError::UnsafeObject(path) => {
                let mut out = owned("staging contains an unsafe filesystem object: ");
                append(&mut out, path.as_str());
                out
            },
            PublicationError::CannotAllocatePartial(path) => {
                let mut out = owned("cannot allocate a unique publication partial under ");
                append(&mut out, path.as_str());
                out
            },
            PublicationError::Validation { path, cause } => {
                let mut out = owned("destination-side publication copy failed validation at ");
                append(&mut out, path.as_str());
                append(&mut out, ": ");
                append(&mut out, cause.as_str());
                out
            },
        }
    }
}

} // verus!
