//! Run configuration: the raw command-line arguments and the compiled
//! configuration built from them.

use vstd::prelude::*;
use vstd::string::*;

use crate::pattern::{pattern_compiles, CompiledPattern, PatternError};
use crate::resolver::is_stdin_path;

verus! {

/// The raw command-line inputs, as the shell around the library parses them:
/// the pattern text, the input paths, and the four flags.
pub struct Args {
    pub pattern: String,
    pub files: Vec<String>,
    pub insensitive: bool,
    pub recursive: bool,
    pub count: bool,
    pub invert_match: bool,
}

/// A ready-to-run configuration: the compiled pattern and the run's flags.
pub struct Config {
    pub pattern: CompiledPattern,
    pub files: Vec<String>,
    pub recursive: bool,
    pub count: bool,
    pub invert_match: bool,
}

impl Config {
    /// Builds a configuration from raw arguments: compiles the pattern with
    /// the chosen case sensitivity, failing exactly when the pattern is not a
    /// valid regular expression; keeps the flags; and defaults an empty file
    /// list to the single standard-input sentinel.
    pub fn from_args(args: Args) -> (r: Result<Config, PatternError>)
        ensures
            r is Ok <==> pattern_compiles(args.pattern@, args.insensitive),
            r is Ok ==> ({
                let c = r->Ok_0;
                &&& c.pattern.spec_pattern() == args.pattern@
                &&& c.pattern.spec_insensitive() == args.insensitive
                &&& args.files@.len() > 0 ==> c.files@ == args.files@
                &&& args.files@.len() == 0 ==> c.files@.len() == 1 && is_stdin_path(c.files@[0]@)
                &&& c.recursive == args.recursive
                &&& c.count == args.count
                &&& c.invert_match == args.invert_match
            }),
            r is Err ==> r->Err_0.pattern@ == args.pattern@,
    {
        let pattern = match CompiledPattern::compile(args.pattern.as_str(), args.insensitive) {
            Ok(p) => p,
            Err(e) => {
                return Err(e);
            },
        };
        let mut files = args.files;
        if files.len() == 0 {
            let dash = "-".to_owned();
            proof {
                reveal_strlit("-");
                assert(is_stdin_path(dash@));
            }
            files.push(dash);
        }
        Ok(
            Config {
                pattern,
                files,
                recursive: args.recursive,
                count: args.count,
                invert_match: args.invert_match,
            },
        )
    }
}

} // verus!
