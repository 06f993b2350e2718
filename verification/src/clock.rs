//! Wall-clock time, read through chrono.
use vstd::prelude::*;

verus! {

/// Milliseconds since the epoch of the earliest instant a `chrono::DateTime<Utc>`
/// holds (the start of year -262143).
pub const MIN_MILLIS: i64 = -8_334_601_228_800_000;

/// Milliseconds since the epoch of the last millisecond a `chrono::DateTime<Utc>`
/// holds (the end of year 262142).
pub const MAX_MILLIS: i64 = 8_210_266_876_799_999;

/// Seconds since the epoch of the earliest instant a `chrono::DateTime<Utc>` holds.
pub const MIN_SECS: i64 = -8_334_601_228_800;

/// Seconds since the epoch of the last second a `chrono::DateTime<Utc>` holds.
pub const MAX_SECS: i64 = 8_210_266_876_799;

/// Whether a timestamp in seconds lies in the range of `chrono::DateTime<Utc>`.
pub open spec fn valid_secs(t: int) -> bool {
    MIN_SECS <= t <= MAX_SECS
}

/// Whether a timestamp in milliseconds lies in the range of `chrono::DateTime<Utc>`.
pub open spec fn valid_millis(t: int) -> bool {
    MIN_MILLIS <= t <= MAX_MILLIS
}

/// Milliseconds since the Unix epoch (`chrono::Utc::now().timestamp_millis()`).
///
/// Trusted: the value depends on the system clock. `Utc::now` stops with a
/// panic on a system clock set before 1970, so a reading that comes back is
/// not negative; it lies in the range of a `DateTime<Utc>`, as every value of
/// that type does.
#[verifier::external_body]
pub(crate) fn now_millis() -> (t: i64)
    ensures
        valid_millis(t as int),
        t >= 0,
{
    chrono::Utc::now().timestamp_millis()
}

/// Milliseconds since the Unix epoch, as an unsigned value.
pub fn now_millis_u64() -> (t: u64)
    ensures
        t <= MAX_MILLIS,
{
    let t = now_millis();
    t as u64
}

/// `std::time::Instant`, a reading of the monotonic clock.
#[verifier::external_type_specification]
#[verifier::external_body]
pub struct ExInstant(std::time::Instant);

/// A reading of the monotonic clock (`std::time::Instant::now`).
///
/// Trusted, and nothing is claimed of the reading: it depends on the clock.
#[verifier::external_body]
pub(crate) fn monotonic_now() -> std::time::Instant {
    std::time::Instant::now()
}

/// Whole milliseconds elapsed since `start` on the monotonic clock
/// (`Instant::elapsed`, taken in milliseconds).
///
/// Trusted, and nothing is claimed of the value: it depends on the clock. That
/// clock never goes back, so later readings from one start never decrease;
/// no contract here can say so, as each call is judged on its own.
#[verifier::external_body]
pub(crate) fn millis_since(start: &std::time::Instant) -> u64 {
    start.elapsed().as_millis() as u64
}

/// A character of the RFC 3339 text chrono writes: a digit or one of `-+T:.`.
pub open spec fn rfc3339_char(c: char) -> bool {
    ('0' <= c && c <= '9') || c == '-' || c == '+' || c == 'T' || c == ':' || c == '.'
}

/// Text in the shape chrono gives RFC 3339 times: not empty, and made of
/// digits and the separators `-+T:.` alone (so no space and no `]`).
pub open spec fn rfc3339_shaped(s: Seq<char>) -> bool {
    s.len() > 0 && forall|i: int| 0 <= i < s.len() ==> #[trigger] rfc3339_char(s[i])
}

/// The current time as an RFC 3339 string (`chrono::Utc::now().to_rfc3339()`).
///
/// Trusted. Which time it shows depends on the system clock; its shape does
/// not: chrono's `write_rfc3339` writes the year (signed outside 0..=9999),
/// `-`, month, `-`, day, `T`, hours, `:`, minutes, `:`, seconds, a `.` and
/// digits when there is a fraction, and the offset `+00:00`.
#[verifier::external_body]
pub(crate) fn now_rfc3339() -> (r: String)
    ensures
        rfc3339_shaped(r@),
{
    chrono::Utc::now().to_rfc3339()
}

/// The RFC 3339 text that chrono writes for a timestamp in milliseconds.
pub uninterp spec fn rfc3339_spec(millis: int) -> Seq<char>;

/// `chrono::DateTime::from_timestamp_millis`, written with `to_rfc3339`.
///
/// Trusted: chrono gives no instant, so `None`, exactly outside the range of a
/// `DateTime<Utc>` (its documentation: "Returns `None` on out-of-range
/// number of milliseconds"); the text itself is named, and of its form only
/// the shape is stated (see [`now_rfc3339`]).
#[verifier::external_body]
pub(crate) fn rfc3339_at(millis: i64) -> (r: Option<String>)
    ensures
        match r {
            Some(s) => valid_millis(millis as int) && s@ == rfc3339_spec(millis as int) && rfc3339_shaped(s@),
            None => !valid_millis(millis as int),
        },
{
    match chrono::DateTime::from_timestamp_millis(millis) {
        Some(d) => Some(d.to_rfc3339()),
        None => None,
    }
}

/// The text that chrono writes for a timestamp in milliseconds with the
/// pattern `%Y-%m-%d %H:%M UTC`.
pub uninterp spec fn utc_minute_text_spec(millis: int) -> Seq<char>;

/// `chrono::DateTime::from_timestamp_millis`, formatted with `%Y-%m-%d %H:%M UTC`.
///
/// Trusted: chrono gives no instant, so `None`, exactly outside the range of a
/// `DateTime<Utc>` (its documentation: "Returns `None` on out-of-range
/// number of milliseconds"); the text itself is named, not described.
#[verifier::external_body]
pub(crate) fn utc_minute_text(millis: i64) -> (r: Option<String>)
    ensures
        match r {
            Some(s) => valid_millis(millis as int) && s@ == utc_minute_text_spec(millis as int),
            None => !valid_millis(millis as int),
        },
{
    match chrono::DateTime::from_timestamp_millis(millis) {
        Some(d) => Some(d.format("%Y-%m-%d %H:%M UTC").to_string()),
        None => None,
    }
}

} // verus!
