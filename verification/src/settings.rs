use std::time::Duration;
use vstd::prelude::*;

verus! {

/// The whole seconds that a duration spans.
pub uninterp spec fn duration_secs(d: Duration) -> u64;

/// `Duration::as_secs` of the standard library returns the number of whole
/// seconds that the duration spans. The contract gives that number a name.
pub assume_specification[ Duration::as_secs ](d: &Duration) -> (r: u64)
    ensures
        r == duration_secs(*d),
;

/// `Duration::from_secs` of the standard library makes the duration of the
/// given number of whole seconds.
pub assume_specification[ Duration::from_secs ](secs: u64) -> (d: Duration)
    ensures
        duration_secs(d) == secs,
;

/// How long answers and cache files stay good.
#[derive(Debug, PartialEq, Eq)]
pub struct SyncSettings {
    /// How long the kernel may cache an answer.
    time_to_live: Duration,
    /// How long the cached files stay unchecked before the remote is asked
    /// for changes again.
    cache_time: Duration,
}

impl SyncSettings {
    /// How long the kernel may cache an answer.
    pub closed spec fn ttl(&self) -> Duration {
        self.time_to_live
    }

    /// How long the cached files stay unchecked.
    pub closed spec fn cache_window(&self) -> Duration {
        self.cache_time
    }

    /// The whole seconds for which the cached files stay unchecked.
    pub open spec fn cache_secs(&self) -> u64 {
        duration_secs(self.cache_window())
    }

    pub fn new(time_to_live: Duration, cache_time: Duration) -> (r: Self)
        ensures
            r.ttl() == time_to_live,
            r.cache_window() == cache_time,
    {
        Self { time_to_live, cache_time }
    }

    pub fn time_to_live(&self) -> (r: Duration)
        ensures
            r == self.ttl(),
    {
        self.time_to_live
    }

    pub fn cache_time(&self) -> (r: Duration)
        ensures
            r == self.cache_window(),
    {
        self.cache_time
    }
}

impl Clone for SyncSettings {
    fn clone(&self) -> (r: SyncSettings)
        ensures
            r.ttl() == self.ttl(),
            r.cache_window() == self.cache_window(),
    {
        SyncSettings { time_to_live: self.time_to_live, cache_time: self.cache_time }
    }
}

} // verus!
