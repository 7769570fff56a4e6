use vstd::prelude::*;

verus! {

/// Reads the hardware counter.
///
/// Relies on `axplat::time::current_ticks`, which returns the platform's
/// counter value; nothing is known of the value.
#[verifier::external_body]
pub(crate) fn current_ticks() -> u64 {
    axplat::time::current_ticks()
}

/// Converts counter ticks to nanoseconds at the platform's frequency.
///
/// Relies on `axplat::time::ticks_to_nanos`; the rate is the platform's, so
/// nothing is known of the value.
#[verifier::external_body]
pub(crate) fn ticks_to_nanos(ticks: u64) -> u64 {
    axplat::time::ticks_to_nanos(ticks)
}

/// Nanoseconds since boot.
///
/// Relies on `axplat::time::monotonic_time_nanos`; the value depends on the
/// moment of the call.
#[verifier::external_body]
pub(crate) fn monotonic_time_nanos() -> u64 {
    axplat::time::monotonic_time_nanos()
}

/// Nanoseconds since the epoch.
///
/// Relies on `axplat::time::wall_time_nanos`; the value depends on the moment
/// of the call.
#[verifier::external_body]
pub(crate) fn wall_time_nanos() -> u64 {
    axplat::time::wall_time_nanos()
}

} // verus!
