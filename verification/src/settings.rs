//! What can be set from outside, and what holds where it is not.
use vstd::prelude::*;

verus! {

/// The port to listen on, where none is set.
pub const DEFAULT_PORT: &'static str = "8080";

/// Where the snapshot is kept, where no place is set.
pub const DEFAULT_SNAPSHOT_LOCATION: &'static str = "cache-snapshot.rmp";

/// How many megabytes of values the cache holds at most.
pub const MAX_CAPACITY_MB: u64 = 2_048;

/// What the service runs with.
#[derive(Debug)]
pub struct Settings {
    /// The port to listen on.
    pub port: String,
    /// Where the snapshot is kept.
    pub snapshot_path: String,
}

/// The value where there is one, and else the text.
pub open spec fn value_or(value: Option<String>, text: Seq<char>) -> Seq<char> {
    match value {
        Some(value) => value@,
        None => text,
    }
}

impl Settings {
    /// The settings from the values of the two variables, as far as they are set.
    pub fn from_vars(port: Option<String>, snapshot_location: Option<String>) -> (settings: Settings)
        ensures
            settings.port@ == value_or(port, "8080"@),
            settings.snapshot_path@ == value_or(snapshot_location, "cache-snapshot.rmp"@),
    {
        Settings {
            port: match port {
                Some(port) => port,
                None => DEFAULT_PORT.to_owned(),
            },
            snapshot_path: match snapshot_location {
                Some(location) => location,
                None => DEFAULT_SNAPSHOT_LOCATION.to_owned(),
            },
        }
    }
}

} // verus!
