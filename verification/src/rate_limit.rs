//! Request spacing for one source: the next request may go out once
//! `min_interval` has passed since the previous one.

use vstd::prelude::*;

use std::time::{Duration, Instant};

use crate::timing::{duration_nanos, elapsed_since, instant_now, minus, nanos};

verus! {

/// Throttle for one source: how far apart requests must be, and when the
/// last one went out.
#[derive(Debug, Clone, Copy)]
pub struct RateLimiter {
    pub min_interval: Duration,
    pub last_request: Option<Instant>,
}

/// How long to wait before the next request, `elapsed` after the previous
/// one: the rest of the interval, or nothing once it has passed.
pub open spec fn remaining_wait(min_interval: Duration, elapsed: Duration) -> Option<nat> {
    if duration_nanos(elapsed) < duration_nanos(min_interval) {
        Some((duration_nanos(min_interval) - duration_nanos(elapsed)) as nat)
    } else {
        None
    }
}

/// The wait before a request made `elapsed` after the previous one.
pub fn wait_after(min_interval: Duration, elapsed: Duration) -> (r: Option<Duration>)
    ensures
        match remaining_wait(min_interval, elapsed) {
            Some(n) => r matches Some(d) && duration_nanos(d) == n,
            None => r is None,
        },
{
    if nanos(elapsed) < nanos(min_interval) {
        Some(minus(min_interval, elapsed))
    } else {
        None
    }
}

/// The nanoseconds a request `elapsed` nanoseconds after the previous one
/// waits: the rest of `min` nanoseconds, or nothing once they have passed.
pub open spec fn gap_wait(min: nat, elapsed: nat) -> nat {
    if elapsed < min {
        (min - elapsed) as nat
    } else {
        0
    }
}

/// Successive requests are spaced: a request that starts `start`
/// nanoseconds on the monotonic clock after the previous one went out at
/// `prev`, waits what `wait_after` asks (`gap_wait` of the elapsed time)
/// and goes out at `sent`, goes out at least `min` after the previous
/// one, and waits no longer than that needs.
pub proof fn lemma_requests_spaced(min_interval: Duration, elapsed: Duration, prev: int, start: int, sent: int)
    requires
        prev <= start,
        start - prev == duration_nanos(elapsed),
        sent >= start + gap_wait(duration_nanos(min_interval), duration_nanos(elapsed)),
    ensures
        sent - prev >= duration_nanos(min_interval),
        match remaining_wait(min_interval, elapsed) {
            Some(n) => n == gap_wait(duration_nanos(min_interval), duration_nanos(elapsed)) && n > 0
                && duration_nanos(elapsed) + n == duration_nanos(min_interval),
            None => gap_wait(duration_nanos(min_interval), duration_nanos(elapsed)) == 0,
        },
{
}

/// Successive requests through one limiter are spaced. Read the monotonic
/// clock in nanoseconds: request `k` starts at `starts[k]`, no earlier
/// than request `k - 1` went out, and goes out at `sent[k]` after waiting
/// what the limiter asks: nothing for the first (`pending_wait` is `None`
/// before any request), and for a later one `gap_wait` of the time since
/// the previous request went out, which is what `pending_wait` gives
/// (`wait_after`, `lemma_requests_spaced`). Then each request goes out at
/// least `min` after the one before it, and no wait is longer than needed:
/// a wait that is asked for ends exactly `min` after the previous request.
pub proof fn lemma_successive_requests_spaced(min: nat, starts: Seq<int>, sent: Seq<int>)
    requires
        starts.len() == sent.len(),
        forall|k: int| 0 <= k < sent.len() ==> sent[k] >= #[trigger] starts[k],
        forall|k: int|
            #![trigger sent[k]]
            1 <= k < sent.len() ==> starts[k] >= sent[k - 1] && sent[k] >= starts[k] + gap_wait(
                min,
                (starts[k] - sent[k - 1]) as nat,
            ),
    ensures
        forall|k: int| #![trigger sent[k]] 1 <= k < sent.len() ==> sent[k] - sent[k - 1] >= min,
        forall|k: int|
            #![trigger sent[k]]
            1 <= k < sent.len() ==> gap_wait(min, (starts[k] - sent[k - 1]) as nat) == 0 || (starts[k]
                - sent[k - 1]) + gap_wait(min, (starts[k] - sent[k - 1]) as nat) == min,
{
}

impl RateLimiter {
    /// A limiter that has not seen a request yet.
    pub fn new(min_interval: Duration) -> (r: RateLimiter)
        ensures
            r.min_interval == min_interval,
            r.last_request is None,
    {
        RateLimiter { min_interval, last_request: None }
    }

    /// How long the caller must sleep before the next request: nothing
    /// before the first request; otherwise the rest of the interval since
    /// the previous one, as the clock reads now.
    pub fn pending_wait(&self) -> (r: Option<Duration>)
        ensures
            self.last_request is None ==> r is None,
            r matches Some(d) ==> 0 < duration_nanos(d) <= duration_nanos(self.min_interval),
    {
        match self.last_request {
            Some(last) => {
                let elapsed = elapsed_since(last);
                wait_after(self.min_interval, elapsed)
            },
            None => None,
        }
    }

    /// Record that a request goes out now.
    pub fn mark_request(&mut self)
        ensures
            final(self).min_interval == old(self).min_interval,
            final(self).last_request is Some,
    {
        self.last_request = Some(instant_now());
    }
}

} // verus!
