use vstd::prelude::*;

use crate::plan::ApplyReport;
use crate::text::{append, owned, text_eq};

pub mod planning;
pub mod session;

verus! {

/// A simulated source and matching situation.
#[derive(Clone, Copy, Debug, PartialEq, Eq)]
pub enum DemoScenario {
    ConfidentAlbum,
    AmbiguousCollaboration,
    MatchedSingle,
    StandaloneTrack,
}

pub open spec fn scenario_named(value: Seq<char>) -> Option<DemoScenario> {
    if value == "confident"@ {
        Some(DemoScenario::ConfidentAlbum)
    } else if value == "ambiguous"@ {
        Some(DemoScenario::AmbiguousCollaboration)
    } else if value == "matched-single"@ {
        Some(DemoScenario::MatchedSingle)
    } else if value == "standalone"@ {
        Some(DemoScenario::StandaloneTrack)
    } else {
        None
    }
}

impl DemoScenario {
    /// The scenario with this command-line name.
    pub fn parse(value: &str) -> (r: Option<Self>)
        ensures
            r == scenario_named(value@),
    {
        if text_eq(value, "confident") {
            Some(DemoScenario::ConfidentAlbum)
        } else if text_eq(value, "ambiguous") {
            Some(DemoScenario::AmbiguousCollaboration)
        } else if text_eq(value, "matched-single") {
            Some(DemoScenario::MatchedSingle)
        } else if text_eq(value, "standalone") {
            Some(DemoScenario::StandaloneTrack)
        } else {
            None
        }
    }
}

/// How a demo ended.
#[derive(Clone, Debug, PartialEq, Eq)]
pub enum DemoOutcome {
    Cancelled,
    Applied(ApplyReport),
}

/// Why a demo stopped.
#[derive(Debug)]
pub enum DemoError {
    Io(String),
    InvalidDemoData(String),
}

pub open spec fn demo_error_text(e: DemoError) -> Seq<char> {
    match e {
        DemoError::Io(m) => "terminal interaction failed: "@ + m@,
        DemoError::InvalidDemoData(m) => "invalid demo data: "@ + m@,
    }
}

impl DemoError {
    /// The message shown for this error.
    pub fn describe(&self) -> (r: String)
        ensures
            r@ == demo_error_text(*self),
    {
        match self {
            DemoError::Io(m) => {
                let mut out = owned("terminal interaction failed: ");
                append(&mut out, m.as_str());
                out
            },
            DemoError::InvalidDemoData(m) => {
                let mut out = owned("invalid demo data: ");
                append(&mut out, m.as_str());
                out
            },
        }
    }
}

} // verus!
