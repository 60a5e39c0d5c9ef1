//! User preferences. Everything has a default, so the file is optional;
//! reading and writing it is the shell's business.

use vstd::prelude::*;

verus! {

/// The preferences a user may set.
#[derive(Debug, Clone)]
pub struct Config {
    /// Background sync cadence in minutes (default 360 = 6h).
    pub sync_interval_minutes: Option<u64>,
    /// Subscription poll hour, local time (default 18 = 18:00).
    pub subscription_poll_hour: Option<u8>,
    /// EOD pull hour, local time (default 19 = 19:30).
    pub eod_pull_hour: Option<u8>,
    /// Theme name; only "one-dark" exists.
    pub theme: Option<String>,
}

impl Default for Config {
    /// Six-hourly sync, the poll at 18:00, the EOD pull at 19:30 and the
    /// "one-dark" theme.
    fn default() -> (c: Config)
        ensures
            c.sync_interval_minutes == Some(360u64),
            c.subscription_poll_hour == Some(18u8),
            c.eod_pull_hour == Some(19u8),
            c.theme matches Some(t) && t@ == "one-dark"@,
    {
        Config {
            sync_interval_minutes: Some(360),
            subscription_poll_hour: Some(18),
            eod_pull_hour: Some(19),
            theme: Some("one-dark".to_owned()),
        }
    }
}

} // verus!
