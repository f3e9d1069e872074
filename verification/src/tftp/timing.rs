//! Durations, as the retransmission logic computes with them.

use std::time::Duration;
use vstd::prelude::*;

verus! {

/// `Duration::MAX` in nanoseconds.
pub open spec fn max_duration_nanos() -> nat {
    18446744073709551615 * 1000000000 + 999999999
}

/// What `Duration::as_nanos` returns: the length of the duration in nanoseconds.
pub uninterp spec fn spec_as_nanos(d: Duration) -> u128;

/// Calls `Duration::from_secs`.
#[verifier::external_body]
pub(crate) fn duration_from_secs(secs: u64) -> (r: Duration)
    ensures
        spec_as_nanos(r) as int == secs * 1000000000,
{
    Duration::from_secs(secs)
}

/// Calls `Duration::saturating_mul`, which multiplies and saturates at `Duration::MAX`.
#[verifier::external_body]
pub(crate) fn duration_saturating_mul(d: Duration, k: u32) -> (r: Duration)
    ensures
        spec_as_nanos(r) as int == if spec_as_nanos(d) * k <= max_duration_nanos() {
            spec_as_nanos(d) * k
        } else {
            max_duration_nanos() as int
        },
{
    d.saturating_mul(k)
}

/// Calls `Ord::min` on durations, which are ordered by length; on a tie the
/// first argument is returned.
#[verifier::external_body]
pub(crate) fn duration_min(a: Duration, b: Duration) -> (r: Duration)
    ensures
        r == if spec_as_nanos(a) <= spec_as_nanos(b) {
            a
        } else {
            b
        },
{
    a.min(b)
}

/// Calls `Duration::as_secs`: the number of whole seconds in the duration.
#[verifier::external_body]
pub(crate) fn duration_as_secs(d: Duration) -> (r: u64)
    ensures
        r as int == spec_as_nanos(d) / 1000000000,
{
    d.as_secs()
}

} // verus!
