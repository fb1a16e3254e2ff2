//! Selection of the two input file paths from a command line.

use vstd::prelude::*;

verus! {

/// Why the argument list was rejected: a required path is missing.
#[derive(Clone, Copy, Debug, PartialEq, Eq, Structural)]
pub enum ArgError {
    MissingStatesPath,
    MissingTapePath,
}

/// The two file paths the caller runs on: the rule table, then the tape.
#[derive(Debug)]
pub struct Config {
    pub states_file_path: String,
    pub tape_file_path: String,
}

impl Config {
    /// Selects the two paths from an argument list.  The first argument is
    /// the caller's own name and is skipped; then come the rule-table path
    /// and the tape path, in that order.  Arguments past the third are
    /// ignored.
    pub fn build(args: Vec<String>) -> (r: Result<Config, ArgError>)
        ensures
            match r {
                Ok(c) => args@.len() >= 3 && c.states_file_path@ == args@[1]@
                    && c.tape_file_path@ == args@[2]@,
                Err(ArgError::MissingStatesPath) => args@.len() < 2,
                Err(ArgError::MissingTapePath) => args@.len() == 2,
            },
    {
        if args.len() < 2 {
            return Err(ArgError::MissingStatesPath);
        }
        if args.len() < 3 {
            return Err(ArgError::MissingTapePath);
        }
        let states_file_path = args[1].clone();
        let tape_file_path = args[2].clone();
        Ok(Config { states_file_path, tape_file_path })
    }
}

impl ArgError {
    /// A human-readable description naming the missing argument.
    pub fn message(&self) -> (r: String)
        ensures
            self is MissingStatesPath ==> r@ == "requires a state table file"@,
            self is MissingTapePath ==> r@ == "requires a tape file"@,
    {
        match self {
            ArgError::MissingStatesPath => "requires a state table file".to_owned(),
            ArgError::MissingTapePath => "requires a tape file".to_owned(),
        }
    }
}

} // verus!
