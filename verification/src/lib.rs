use vstd::prelude::*;

pub mod apply;
pub mod text;
pub mod domain;
pub mod matching;
pub mod layout;
pub mod paths;
pub mod source;
pub mod plan;
pub mod provider;
pub mod identification;
pub mod matching_ui;
pub mod config;
pub mod destination;
pub mod planning;
pub mod guided_matching;
pub mod fingerprint;
pub mod cli;
pub mod demo;
pub mod diagnostics;
pub mod artwork_viewer;
pub mod guided_apply;
pub mod guided_recovery;

verus! {

} // verus!
