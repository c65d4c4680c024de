//! Validated inputs of one search invocation.
//!
//! A [`Config`] holds the query, the name of the file to search, and the
//! case-sensitivity flag.  [`Config::new`] consumes the first two positional
//! tokens after the program name and rejects an argument list that lacks
//! either; further tokens are ignored.  Case sensitivity is the default and
//! is switched off by the mere presence of an environment override, whatever
//! its value: the caller reports that presence as a boolean.

use vstd::prelude::*;

verus! {

/// Why an argument list could not be turned into a [`Config`].
#[derive(Clone, Copy, Debug, PartialEq, Eq)]
pub enum ConfigError {
    /// No query token followed the program name.
    MissingQuery,
    /// No file-name token followed the query.
    MissingFilename,
}

impl ConfigError {
    /// A human-readable message; the two variants yield different text.
    pub fn message(&self) -> (r: &'static str)
        ensures
            *self == ConfigError::MissingQuery ==> r@ == "Didn't get a query string"@,
            *self == ConfigError::MissingFilename ==> r@ == "Didn't get a file name"@,
    {
        match self {
            ConfigError::MissingQuery => "Didn't get a query string",
            ConfigError::MissingFilename => "Didn't get a file name",
        }
    }
}

/// A fully validated search command: what to look for, where, and whether
/// case matters.
pub struct Config {
    /// The query to search for.
    pub query: String,
    /// The name of the file to search within.
    pub filename: String,
    /// Whether the search distinguishes case.
    pub case_sensitive: bool,
}

impl Config {
    /// Builds a `Config` from the raw argument list, whose first token is
    /// the program name, and from whether the case-insensitivity override is
    /// present in the environment.
    ///
    /// The query is the second token and the file name the third; tokens
    /// beyond those are ignored.  A list with no second token yields
    /// [`ConfigError::MissingQuery`], one with no third token
    /// [`ConfigError::MissingFilename`].
    pub fn new(args: Vec<String>, case_insensitive_set: bool) -> (r: Result<Config, ConfigError>)
        ensures
            args@.len() < 2 ==> r == Err::<Config, ConfigError>(ConfigError::MissingQuery),
            args@.len() == 2 ==> r == Err::<Config, ConfigError>(ConfigError::MissingFilename),
            args@.len() > 2 ==> {
                &&& r is Ok
                &&& r->Ok_0.query@ == args@[1]@
                &&& r->Ok_0.filename@ == args@[2]@
                &&& r->Ok_0.case_sensitive == !case_insensitive_set
            },
    {
        if args.len() < 2 {
            return Err(ConfigError::MissingQuery);
        }
        if args.len() < 3 {
            return Err(ConfigError::MissingFilename);
        }
        let query = args[1].clone();
        let filename = args[2].clone();
        let case_sensitive = !case_insensitive_set;
        Ok(Config { query, filename, case_sensitive })
    }
}

} // verus!
