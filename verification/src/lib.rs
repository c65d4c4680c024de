//! A small line-oriented text search library.
//!
//! Given a query string and the full contents of a text file, the library
//! returns the lines of the contents that contain the query, in their
//! original order, either case-sensitively or case-insensitively.  A
//! [`Config`](config::Config) gathers the validated inputs of one search.

pub mod chars;
pub mod config;
pub mod laws;
pub mod lines;
pub mod matching;
pub mod search;

pub use config::Config;
pub use config::ConfigError;
pub use search::search;
pub use search::search_case_insensitive;
pub use search::search_with_config;
