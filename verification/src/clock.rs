//! The wall clock.

use vstd::prelude::*;

verus! {

/// The present instant, in milliseconds since the Unix epoch.
///
/// Calls `chrono::Utc::now` and reads the instant with
/// `DateTime::timestamp_millis`. The instant is whatever the system clock
/// says, and two calls may go backwards, so nothing is claimed of it.
/// `Utc::now` does not return where the system clock is set before the
/// epoch.
#[verifier::external_body]
pub(crate) fn now_millis() -> (now: i64) {
    chrono::Utc::now().timestamp_millis()
}

/// The present instant as a date and time of RFC 3339, in UTC.
///
/// Calls `chrono::Utc::now` and `DateTime::to_rfc3339`. The text is whatever
/// the system clock says, so nothing is claimed of it.
#[verifier::external_body]
pub(crate) fn now_rfc3339() -> (text: String) {
    chrono::Utc::now().to_rfc3339()
}

} // verus!
