use vstd::prelude::*;

verus! {

/// The command line: a source to groom with its options, or a subcommand.
#[derive(Debug)]
pub struct Cli {
    pub diagnostics: bool,
    pub cache_dir: Option<String>,
    pub offline: bool,
    pub output: Option<String>,
    pub source: Option<String>,
    pub command: Option<CliCommand>,
}

/// A subcommand.
#[derive(Debug)]
pub enum CliCommand {
    Cache { action: Option<CacheAction> },
    Demo { scenario: Option<DemoScenarioArgument>, output: Option<String> },
}

/// What to do with the provider cache.
#[derive(Clone, Copy, Debug)]
pub enum CacheAction {
    Status,
    Clear,
}

/// A demo scenario named on the command line.
#[derive(Clone, Copy, Debug)]
pub enum DemoScenarioArgument {
    Confident,
    Ambiguous,
    MatchedSingle,
    Standalone,
}

pub open spec fn scenario_argument_name(a: DemoScenarioArgument) -> Seq<char> {
    match a {
        DemoScenarioArgument::Confident => "confident"@,
        DemoScenarioArgument::Ambiguous => "ambiguous"@,
        DemoScenarioArgument::MatchedSingle => "matched-single"@,
        DemoScenarioArgument::Standalone => "standalone"@,
    }
}

impl DemoScenarioArgument {
    /// The name the scenario is given on the command line.
    pub fn name(self) -> (r: &'static str)
        ensures
            r@ == scenario_argument_name(self),
    {
        match self {
            DemoScenarioArgument::Confident => "confident",
            DemoScenarioArgument::Ambiguous => "ambiguous",
            DemoScenarioArgument::MatchedSingle => "matched-single",
            DemoScenarioArgument::Standalone => "standalone",
        }
    }
}

} // verus!
