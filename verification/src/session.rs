//! The decisions of one run: which model, which prompt, how statistics are
//! printed, whether the run is profiled and whether the answer is copied.
use crate::cli::{Cli, Command};
use crate::config::{ModelConfig, Output, Prompt};
use crate::llm::Stats;
use vstd::prelude::*;

verus! {

/// The model to ask: the one given with `--model`, else the configured one.
pub fn model_name<'a>(cli: &'a Cli, model: &'a ModelConfig) -> (r: &'a str)
    ensures
        r@ == match cli.model {
            Some(m) => m@,
            None => model.name_setting(),
        },
{
    match &cli.model {
        Some(m) => m.as_str(),
        None => model.model_name(),
    }
}

/// Whether the run writes a commit message rather than answering a query.
pub fn writes_commit_message(cli: &Cli) -> (r: bool)
    ensures
        r == (cli.command == Some(Command::Commit)),
{
    matches!(cli.command, Some(Command::Commit))
}

/// The system prompt of the run: the commit prompt for `commit`, the query
/// prompt otherwise.
pub fn system_prompt<'a>(cli: &Cli, prompt: &'a Prompt) -> (r: &'a str)
    ensures
        r@ == (if cli.command == Some(Command::Commit) {
            prompt.commit@
        } else {
            prompt.system@
        }),
{
    if writes_commit_message(cli) {
        prompt.commit.as_str()
    } else {
        prompt.system.as_str()
    }
}

/// How statistics are printed: as JSON with `--stats-json`, for people with
/// `--stats` or when the configuration asks for them, not at all otherwise.
pub fn stats_mode(cli: &Cli, output: &Output) -> (r: Stats)
    ensures
        r == (if cli.stats_json {
            Stats::Json
        } else if output.stats || cli.stats {
            Stats::Human
        } else {
            Stats::Off
        }),
{
    if cli.stats_json {
        Stats::Json
    } else if output.stats || cli.stats {
        Stats::Human
    } else {
        Stats::Off
    }
}

/// Whether the run is profiled.
pub fn profiled(cli: &Cli) -> (r: bool)
    ensures
        r == (cli.profile || cli.profile_json),
{
    cli.profile || cli.profile_json
}

/// Whether the answer is copied: when the configuration allows it, `--no-copy`
/// is not given and there is an answer.
pub fn copies_answer(cli: &Cli, output: &Output, answer: &str) -> (r: bool)
    ensures
        r == (output.copy && !cli.no_copy && answer@.len() > 0),
{
    output.copy && !cli.no_copy && !answer.is_empty()
}

} // verus!
