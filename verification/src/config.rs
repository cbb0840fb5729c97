//! Process configuration values.

use vstd::prelude::*;

verus! {

/// Where the measurement records are kept and which port the service
/// listens on.
#[derive(Debug, Clone)]
pub struct Config {
    pub database_url: String,
    pub port: usize,
}

impl Default for Config {
    /// The local single-file store and the default service port.
    fn default() -> (c: Config)
        ensures
            c.port == 8000,
    {
        Config { database_url: String::from_str("sqlite:./xavier.db?mode=rwc"), port: 8000 }
    }
}

} // verus!
