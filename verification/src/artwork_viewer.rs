use vstd::prelude::*;

use crate::provider::cover_art_archive::ProviderArtwork;
use crate::text::{append, owned};

verus! {

/// Shows artwork to the user.
pub trait ArtworkViewer {
    fn view_path(&mut self, path: &str) -> Result<(), ViewerError>;

    fn view_download(&mut self, artwork: &ProviderArtwork) -> Result<(), ViewerError>;
}

/// Why artwork could not be shown.
#[derive(Debug)]
pub enum ViewerError {
    Temporary(String),
    Write(String, String),
    Launch(String, String),
}

pub open spec fn viewer_error_text(e: ViewerError) -> Seq<char> {
    match e {
        ViewerError::Temporary(m) => "cannot prepare temporary artwork: "@ + m@,
        ViewerError::Write(path, m) => "cannot prepare "@ + path@ + " for viewing: "@ + m@,
        ViewerError::Launch(path, m) => "cannot open "@ + path@ + " in an image viewer: "@ + m@,
    }
}

impl ViewerError {
    /// The message shown for this error.
    pub fn describe(&self) -> (r: String)
        ensures
            r@ == viewer_error_text(*self),
    {
        match self {
            ViewerError::Temporary(m) => {
                let mut out = owned("cannot prepare temporary artwork: ");
                append(&mut out, m.as_str());
                out
            },
            ViewerError::Write(path, m) => {
                let mut out = owned("cannot prepare ");
                append(&mut out, path.as_str());
                append(&mut out, " for viewing: ");
                append(&mut out, m.as_str());
                out
            },
            ViewerError::Launch(path, m) => {
                let mut out = owned("cannot open ");
                append(&mut out, path.as_str());
                append(&mut out, " in an image viewer: ");
                append(&mut out, m.as_str());
                out
            },
        }
    }
}

} // verus!
