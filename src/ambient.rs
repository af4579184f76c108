use vstd::prelude::*;

verus! {

/// A fresh random identifier.
///
/// Relies on `uuid::Uuid::new_v4` and `uuid::Uuid::as_u128`. The value is random, so
/// nothing is promised of it.
#[verifier::external_body]
pub(crate) fn random_id() -> (r: u128) {
    uuid::Uuid::new_v4().as_u128()
}

/// The current time in microseconds since the Unix epoch.
///
/// Relies on `chrono::Utc::now` and `chrono::DateTime::timestamp_micros`. The reading
/// depends on the machine's clock, so nothing is promised of it. `chrono::Utc::now`
/// panics when the system clock reads a time before the Unix epoch.
#[verifier::external_body]
pub(crate) fn now_micros() -> (r: i64) {
    chrono::Utc::now().timestamp_micros()
}

} // verus!
