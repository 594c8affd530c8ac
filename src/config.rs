//! Resolving a command line into a search configuration.

use vstd::prelude::*;

verus! {

/// What to search for, where, and whether case matters.
#[derive(Debug, PartialEq, Eq)]
pub struct Config {
    pub query: String,
    pub file_path: String,
    pub ignore_case: bool,
}

/// Why a command line gives no configuration.
#[derive(Clone, Copy, Debug, PartialEq, Eq, Structural)]
pub enum ConfigError {
    /// Nothing follows the program name.
    MissingFilePath,
    /// Only the file path follows the program name.
    MissingQuery,
}

impl ConfigError {
    /// A short description of the error, for the user.
    pub fn message(&self) -> (r: &'static str)
        ensures
            *self == ConfigError::MissingFilePath ==> r@ == "Didn't get a file path"@,
            *self == ConfigError::MissingQuery ==> r@ == "Didn't get a query string"@,
    {
        match self {
            ConfigError::MissingFilePath => "Didn't get a file path",
            ConfigError::MissingQuery => "Didn't get a query string",
        }
    }
}

/// The flag that asks for a search without regard to case.
pub open spec fn ignore_case_flag() -> Seq<char> {
    "--ignore-case"@
}

/// Some argument after the program name and before the query is the flag
/// `--ignore-case`.
pub open spec fn flag_given(args: Seq<String>) -> bool {
    exists|i: int| 1 <= i < args.len() - 2 && (#[trigger] args[i])@ == ignore_case_flag()
}

impl Config {
    /// Reads a configuration from `args`, whose first element is the program
    /// name: the last argument is the file path, the one before it the query,
    /// and any earlier `--ignore-case` asks for a search without regard to
    /// case, as does `env_ignore_case` (the environment asked for it).
    /// Other arguments are ignored.
    pub fn build(args: Vec<String>, env_ignore_case: bool) -> (r: Result<Config, ConfigError>)
        ensures
            args@.len() <= 1 ==> r == Err::<Config, ConfigError>(ConfigError::MissingFilePath),
            args@.len() == 2 ==> r == Err::<Config, ConfigError>(ConfigError::MissingQuery),
            args@.len() >= 3 ==> r is Ok,
            r is Ok ==> r->Ok_0.file_path@ == args@[args@.len() - 1]@,
            r is Ok ==> r->Ok_0.query@ == args@[args@.len() - 2]@,
            r is Ok ==> r->Ok_0.ignore_case == (env_ignore_case || flag_given(args@)),
    {
        let n = args.len();
        if n < 2 {
            return Err(ConfigError::MissingFilePath);
        }
        if n < 3 {
            return Err(ConfigError::MissingQuery);
        }
        let ghost all = args@;
        let mut rest = args;
        let file_path = match rest.pop() {
            Some(a) => a,
            None => return Err(ConfigError::MissingFilePath),
        };
        let query = match rest.pop() {
            Some(a) => a,
            None => return Err(ConfigError::MissingQuery),
        };
        assert(rest@ =~= all.take(n - 2));
        let flag = String::from_str("--ignore-case");
        let mut ignore_case = env_ignore_case;
        let mut i: usize = 1;
        while i < rest.len()
            invariant
                rest@ == all.take(n - 2),
                all.len() == n,
                n >= 3,
                flag@ == ignore_case_flag(),
                1 <= i <= rest.len(),
                ignore_case == (env_ignore_case || exists|j: int|
                    1 <= j < i && (#[trigger] all[j])@ == ignore_case_flag()),
            decreases rest.len() - i,
        {
            if rest[i] == flag {
                ignore_case = true;
            }
            i = i + 1;
        }
        Ok(Config { query, file_path, ignore_case })
    }
}

} // verus!
