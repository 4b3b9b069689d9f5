//! The wall clock and fresh identifiers, which only the outside world can give.
use vstd::prelude::*;

verus! {

/// Calls `chrono::Utc::now().timestamp_millis()`: milliseconds since the
/// Unix epoch on this machine's clock. Which value comes back depends on the
/// time of the call; what is promised is its range, as chrono's source
/// shows it: `Utc::now` panics on a clock set before the epoch, and builds
/// its `DateTime` with `from_timestamp(..).unwrap()`, which panics past
/// chrono's last year (262142), whose end lies below 10^16 ms. Those panics
/// depend on the machine's clock alone, so no `requires` can exclude them.
#[verifier::external_body]
pub(crate) fn now_millis() -> (t: i64)
    ensures
        0 <= t < 10_000_000_000_000_000,
{
    chrono::Utc::now().timestamp_millis()
}

/// Calls `uuid::Uuid::new_v4()` and renders it with `to_string()`: a random
/// UUID in its lower-case hyphenated form, which the crate writes as 36
/// ASCII characters. Which UUID comes back is left open.
#[verifier::external_body]
pub(crate) fn new_uuid() -> (r: String)
    ensures
        r@.len() == 36,
{
    uuid::Uuid::new_v4().to_string()
}

#[verifier::external_type_specification]
#[verifier::external_body]
pub struct ExInstant(std::time::Instant);

/// Calls `std::time::Instant::now()`: a reading of the monotonic clock.
/// Nothing is promised of it.
#[verifier::external_body]
pub(crate) fn instant_now() -> std::time::Instant {
    std::time::Instant::now()
}

/// Calls `Instant::elapsed`: the time since the reading. Nothing is
/// promised of it.
#[verifier::external_body]
pub(crate) fn elapsed_since(i: &std::time::Instant) -> std::time::Duration {
    i.elapsed()
}

/// Calls `Instant::elapsed` and `Duration::as_millis`, narrowed to `u64`:
/// the whole milliseconds since the reading. Nothing is promised of it.
#[verifier::external_body]
pub(crate) fn elapsed_millis(i: &std::time::Instant) -> u64 {
    i.elapsed().as_millis() as u64
}

} // verus!
