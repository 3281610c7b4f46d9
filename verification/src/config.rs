//! What one run of the search is asked to do, and the run itself.

use crate::case::CasePolicy;
use crate::search::{matching_lines, search};
use vstd::prelude::*;

verus! {

/// The settings of one run.
#[derive(Debug)]
pub struct Config {
    /// The text to look for.
    pub query: String,
    /// The path of the file to look in.
    pub file_path: String,
    /// Whether the case of letters is ignored.
    pub ignore_case: bool,
}

impl Config {
    /// The case policy that these settings select.
    pub open spec fn policy(self) -> CasePolicy {
        CasePolicy::of_ignore_case(self.ignore_case)
    }

    /// What `build` makes of the arguments `args` and the ignore-case
    /// switch: the argument after the program's name is the query and the
    /// one after that the file path; further arguments are ignored.
    pub open spec fn parse(args: Seq<String>, ignore_case: bool) -> Result<Config, &'static str> {
        if args.len() < 2 {
            Err("Didn't get a query string")
        } else if args.len() < 3 {
            Err("Didn't get a file path")
        } else {
            Ok(Config { query: args[1], file_path: args[2], ignore_case })
        }
    }

    /// Builds the settings from the program's arguments, the program's name
    /// first, and from the ignore-case switch.
    pub fn build(args: Vec<String>, ignore_case: bool) -> (built: Result<Config, &'static str>)
        ensures
            built == Self::parse(args@, ignore_case),
    {
        let mut args = args;
        if args.len() < 2 {
            return Err("Didn't get a query string");
        }
        if args.len() < 3 {
            return Err("Didn't get a file path");
        }
        let file_path = args.remove(2);
        let query = args.remove(1);
        Ok(Config { query, file_path, ignore_case })
    }
}

/// Searches `contents`, the text of the file that `config` names, for the
/// query of `config`, under the case policy that `config` selects.
pub fn run(config: Config, contents: &str) -> (found: Vec<String>)
    ensures
        found.deep_view() == matching_lines(config.query@, contents@, config.policy()),
{
    let policy = CasePolicy::from_ignore_case(config.ignore_case);
    search(config.query.as_str(), contents, policy)
}

} // verus!
