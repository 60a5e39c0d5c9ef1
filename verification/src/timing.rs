//! Spans of time (`std::time::Duration`, measured in nanoseconds) and
//! instants of the monotonic clock.

use vstd::prelude::*;

use std::time::{Duration, Instant};

verus! {

#[verifier::external_type_specification]
#[verifier::external_body]
pub struct ExInstant(Instant);

/// The length of a `Duration` in nanoseconds (`Duration::as_nanos`).
pub uninterp spec fn duration_nanos(d: Duration) -> nat;

/// Nanoseconds in a second.
pub open spec fn second() -> nat {
    1_000_000_000
}

/// The longest `Duration`: `u64::MAX` seconds and 999 999 999 nanoseconds.
pub open spec fn duration_limit() -> nat {
    18446744073709551615 * second() + 999_999_999
}

/// `Duration::as_nanos`: the total length in nanoseconds, which never
/// exceeds the longest representable duration.
#[verifier::external_body]
pub(crate) fn nanos(d: Duration) -> (r: u128)
    ensures
        r == duration_nanos(d),
        r <= duration_limit(),
{
    d.as_nanos()
}

/// `Duration::from_secs`: a duration of `secs` whole seconds.
#[verifier::external_body]
pub(crate) fn from_secs(secs: u64) -> (d: Duration)
    ensures
        duration_nanos(d) == secs * second(),
{
    Duration::from_secs(secs)
}

/// `Duration * u32`: the duration scaled by `k`; `std` panics when the
/// result overflows, which `requires` rules out.
#[verifier::external_body]
pub(crate) fn scaled(d: Duration, k: u32) -> (r: Duration)
    requires
        duration_nanos(d) * k <= duration_limit(),
    ensures
        duration_nanos(r) == duration_nanos(d) * k,
{
    d * k
}

/// `Duration - Duration`: the difference; `std` panics when it would be
/// negative, which `requires` rules out.
#[verifier::external_body]
pub(crate) fn minus(a: Duration, b: Duration) -> (r: Duration)
    requires
        duration_nanos(b) <= duration_nanos(a),
    ensures
        duration_nanos(r) == duration_nanos(a) - duration_nanos(b),
{
    a - b
}

/// `Instant::now`: the current instant of the monotonic clock. Nothing is
/// stated of which instant it is.
#[verifier::external_body]
pub(crate) fn instant_now() -> (r: Instant) {
    Instant::now()
}

/// `Instant::elapsed`: the time since `since`, as the clock reads now.
/// Nothing is stated of its length, which depends on when it is called.
#[verifier::external_body]
pub(crate) fn elapsed_since(since: Instant) -> (r: Duration) {
    since.elapsed()
}

} // verus!
