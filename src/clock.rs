use vstd::prelude::*;

verus! {

/// A reading of the monotonic clock, used to time task executions.
#[verifier::external_type_specification]
#[verifier::external_body]
pub struct ExInstant(std::time::Instant);

/// Relies on `std::time::Instant::now`: the current reading of the monotonic clock.
#[verifier::external_body]
pub(crate) fn instant_now() -> std::time::Instant {
    std::time::Instant::now()
}

/// The current time in milliseconds since the Unix epoch.
///
/// Relies on `chrono::Utc::now` and `DateTime::timestamp_millis`.
#[verifier::external_body]
pub(crate) fn now_millis() -> i64 {
    chrono::Utc::now().timestamp_millis()
}

} // verus!
