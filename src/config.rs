//! User settings: where the daemon listens and how often to poll it.

use vstd::prelude::*;

verus! {

/// The user's settings.
#[derive(Clone, Debug)]
pub struct UserConfig {
    pub transmission_url: String,
    pub poll_frequency_ms: usize,
}

/// The daemon's endpoint when none is configured: the local machine.
pub open spec fn default_url() -> Seq<char> {
    "http://localhost:9091/transmission/rpc"@
}

/// The polling interval in milliseconds when none is configured.
pub const DEFAULT_POLL_FREQUENCY_MS: usize = 2000;

impl Default for UserConfig {
    /// The settings used when the user has written none.
    fn default() -> (r: UserConfig)
        ensures
            r.transmission_url@ == default_url(),
            r.poll_frequency_ms == DEFAULT_POLL_FREQUENCY_MS,
    {
        UserConfig {
            transmission_url: "http://localhost:9091/transmission/rpc".to_owned(),
            poll_frequency_ms: DEFAULT_POLL_FREQUENCY_MS,
        }
    }
}

} // verus!
