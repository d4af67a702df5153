//! A minimal line-oriented text search library: resolve a configuration from
//! positional arguments and an environment-derived flag, then return every
//! line of a text that contains a query string, case-sensitively or not.

pub mod config;
pub mod search;

pub use config::Config;
pub use config::ConfigError;
pub use search::search;
pub use search::search_case_insensitive;
