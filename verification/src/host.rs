//! Calls into the host environment: fresh identifiers, the wall
//! clock, randomness, and calendar arithmetic.
//!
//! Each function wraps a single call into an outside crate; nothing is
//! promised of results that depend on chance or on the clock.

use vstd::prelude::*;

verus! {

/// Relies on uuid::Uuid::new_v4 for a fresh random identifier; the
/// 128-bit value is the UUID's bits. Nothing is promised of the value.
#[verifier::external_body]
pub fn new_id() -> (r: u128) {
    uuid::Uuid::new_v4().as_u128()
}

/// Relies on chrono::Utc::now for the current wall-clock time in epoch
/// milliseconds. Nothing is promised of the value.
#[verifier::external_body]
pub fn now_millis() -> (r: i64) {
    chrono::Utc::now().timestamp_millis()
}

/// Relies on rand::random for a uniformly distributed 32-bit value.
/// Nothing is promised of the value.
#[verifier::external_body]
pub fn random_u32() -> (r: u32) {
    rand::random::<u32>()
}

/// Relies on chrono::Timelike::hour of the UTC datetime at the given
/// epoch millisecond: the hour is the millisecond count divided into
/// hours, modulo a day.
#[verifier::external_body]
pub fn utc_hour(ts_millis: i64) -> (r: u32)
    requires
        0 <= ts_millis <= 253402300799999,
    ensures
        r == ((ts_millis as int) / 3600000) % 24,
{
    chrono::DateTime::<chrono::Utc>::from_timestamp_millis(ts_millis)
        .map(|t| chrono::Timelike::hour(&t))
        .unwrap_or(0)
}

/// Relies on chrono::Datelike::weekday of the UTC datetime at the
/// given epoch millisecond: the epoch day count starts on a Thursday,
/// so days 0 and 6 of each week (counted from the Sunday before the
/// epoch) are the weekend.
#[verifier::external_body]
pub fn is_weekend(ts_millis: i64) -> (r: bool)
    requires
        0 <= ts_millis <= 253402300799999,
    ensures
        r == ({
            let d = ((ts_millis as int) / 86400000 + 4) % 7;
            d == 0 || d == 6
        }),
{
    match chrono::DateTime::<chrono::Utc>::from_timestamp_millis(ts_millis) {
        Some(t) => {
            let w = chrono::Datelike::weekday(&t);
            w == chrono::Weekday::Sat || w == chrono::Weekday::Sun
        },
        None => false,
    }
}

} // verus!
