//! Runtime configuration.
use vstd::prelude::*;
use vstd::string::*;

verus! {

/// Where the database lives when nothing else is configured.
pub const DEFAULT_DATABASE_URL: &'static str = "sqlite:///./ml_release_platform.db";

/// The environment variable that overrides the database location.
pub const DATABASE_URL_VARIABLE: &'static str = "ML_RELEASE_DATABASE_URL";

#[derive(Clone, Debug, PartialEq, Eq)]
pub struct Settings {
    pub database_url: String,
}

impl Settings {
    /// The settings for the value that the database variable holds, if it
    /// is set; otherwise the default location.
    pub fn from_variable(value: Option<String>) -> (settings: Settings)
        ensures
            match value {
                Some(url) => settings.database_url@ == url@,
                None => settings.database_url@ == DEFAULT_DATABASE_URL@,
            },
    {
        match value {
            Some(url) => Settings { database_url: url },
            None => Settings { database_url: String::from_str(DEFAULT_DATABASE_URL) },
        }
    }
}

} // verus!
