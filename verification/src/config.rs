//! Configuration data: the credentials the session is constructed with.
//! Reading and writing the on-disk file is the surrounding program's
//! concern; this crate only owns the value and its error taxonomy.

use vstd::prelude::*;

verus! {

/// Why loading the configuration failed.
#[derive(Debug, Clone, PartialEq, Eq, Structural)]
pub enum LoadError {
    FileAccess,
    SerdeFmt,
    WriteDefault,
}

/// Why saving the configuration failed.
#[derive(Debug, Clone, PartialEq, Eq, Structural)]
pub enum SaveError {
    FileAccess,
    Write,
    SerdeFmt,
}

/// The persisted configuration.
#[derive(Debug, Clone)]
pub struct Config {
    pub discord_key: String,
}

impl Config {
    /// A configuration holding the given credential.
    pub fn new(discord_key: String) -> (config: Config)
        ensures
            config.discord_key@ == discord_key@,
    {
        Config { discord_key }
    }
}

} // verus!
