//! Configuration resolution: positional arguments plus an environment-derived
//! flag become a validated, immutable `Config`.

use vstd::prelude::*;

verus! {

/// Why configuration resolution failed.
#[derive(Clone, Copy, Debug, PartialEq, Eq, Structural)]
pub enum ConfigError {
    /// Fewer than the two required positional arguments were supplied.
    MissingArguments,
    /// The optional case-sensitivity argument was not `true` or `false`.
    InvalidFlag,
}

/// A validated parameter bundle: what to search for, where, and how.
/// Immutable once constructed.
pub struct Config {
    pub query: String,
    pub filename: String,
    pub case_sensitive: bool,
}

/// What parsing a boolean flag yields: `Some` exactly for the two literal
/// spellings `true` and `false`.
pub open spec fn parse_bool(s: Seq<char>) -> Option<bool> {
    if s == "true"@ {
        Some(true)
    } else if s == "false"@ {
        Some(false)
    } else {
        None
    }
}

/// Parses a boolean flag, accepting exactly `true` and `false`.
fn parse_flag(s: &String) -> (r: Option<bool>)
    ensures
        r == parse_bool(s@),
{
    let t: String = "true".to_owned();
    let f: String = "false".to_owned();
    if *s == t {
        Some(true)
    } else if *s == f {
        Some(false)
    } else {
        None
    }
}

impl ConfigError {
    /// The user-facing description of this error.
    pub fn message(&self) -> (r: String)
        ensures
            (match self {
                ConfigError::MissingArguments => r@ == "expected 2 arguments: <query> <filename>"@,
                ConfigError::InvalidFlag => r@
                    == "failed to parse the case sensitivity flag: expected true or false"@,
            }),
    {
        match self {
            ConfigError::MissingArguments => "expected 2 arguments: <query> <filename>".to_owned(),
            ConfigError::InvalidFlag => "failed to parse the case sensitivity flag: expected true or false".to_owned(),
        }
    }
}

impl Config {
    /// Resolves a configuration from the positional arguments and the
    /// environment. `args[0]` is the program name, `args[1]` the query,
    /// `args[2]` the filename; an optional `args[3]` overrides the
    /// environment-derived case-sensitivity default. `case_insensitive_env`
    /// says whether the `CASE_INSENSITIVE` environment variable is set;
    /// the caller performs that one lookup, so resolution itself is pure.
    pub fn new(args: &Vec<String>, case_insensitive_env: bool) -> (r: Result<Config, ConfigError>)
        ensures
            r is Err <==> (args@.len() < 3 || (args@.len() > 3 && parse_bool(
                args.deep_view()[3],
            ) is None)),
            args@.len() < 3 ==> (r matches Err(e) && e == ConfigError::MissingArguments),
            args@.len() > 3 && parse_bool(args.deep_view()[3]) is None ==> (r matches Err(e) && e
                == ConfigError::InvalidFlag),
            r matches Ok(c) ==> ({
                &&& c.query@ == args.deep_view()[1]
                &&& c.filename@ == args.deep_view()[2]
                &&& (args@.len() == 3 ==> c.case_sensitive == !case_insensitive_env)
                &&& (args@.len() > 3 ==> Some(c.case_sensitive) == parse_bool(args.deep_view()[3]))
            }),
    {
        if args.len() < 3 {
            return Err(ConfigError::MissingArguments);
        }
        let query = args[1].clone();
        let filename = args[2].clone();

        // The environment supplies the default; a fourth argument overrides it.
        let mut case_sensitive: bool = !case_insensitive_env;
        if args.len() > 3 {
            match parse_flag(&args[3]) {
                Some(v) => {
                    case_sensitive = v;
                },
                None => {
                    return Err(ConfigError::InvalidFlag);
                },
            }
        }
        Ok(Config { query, filename, case_sensitive })
    }
}

} // verus!
