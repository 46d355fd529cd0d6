//! Timestamps. The library models an instant as whole seconds since the Unix
//! epoch, kept inside a fixed range; the textual wire encoding is delegated
//! to chrono behind trusted wrappers.

use vstd::prelude::*;

verus! {

/// Largest timestamp the library handles: the last second of the year 9999,
/// UTC. Every timestamp a task carries lies in `0 ..= TS_MAX`.
pub const TS_MAX: i64 = 253_402_300_799;

/// A timestamp the library accepts.
pub open spec fn ts_in_range(t: i64) -> bool {
    0 <= t <= TS_MAX
}

/// The textual timestamp encoding of the instant `t` seconds after the Unix
/// epoch. The text is a function of `t` alone; the library never states what
/// it looks like, only that `parse_timestamp` reads it back.
pub uninterp spec fn ts_text_of(t: i64) -> Seq<char>;

/// What the textual timestamp decoder reads out of a text: the instant, in
/// whole seconds, when the text is a parseable timestamp, and nothing
/// otherwise. A function of the text alone.
pub uninterp spec fn ts_parse_of(s: Seq<char>) -> Option<i64>;

/// `t` forced into the accepted timestamp range.
pub open spec fn clamp_ts(t: i64) -> i64 {
    if t < 0 {
        0
    } else if t > TS_MAX {
        TS_MAX
    } else {
        t
    }
}

/// Force a timestamp into the accepted range.
pub fn clamp_timestamp(t: i64) -> (r: i64)
    ensures
        r == clamp_ts(t),
{
    if t < 0 {
        0
    } else if t > TS_MAX {
        TS_MAX
    } else {
        t
    }
}

/// Relies on chrono's `Utc::now` and `DateTime::timestamp`: the machine
/// clock's current time in whole seconds since the Unix epoch. Nothing is
/// assumed of the value.
#[verifier::external_body]
fn now_timestamp_raw() -> i64 {
    chrono::Utc::now().timestamp()
}

/// The current time, forced into the accepted timestamp range.
pub fn now_timestamp() -> (t: i64)
    ensures
        ts_in_range(t),
{
    clamp_timestamp(now_timestamp_raw())
}

/// Relies on chrono's `DateTime::from_timestamp` (total on the accepted
/// range) and `DateTime::to_rfc3339`: the RFC 3339 text of the instant `t`
/// seconds after the Unix epoch, a function of `t` alone.
#[verifier::external_body]
pub(crate) fn format_timestamp(t: i64) -> (r: String)
    requires
        ts_in_range(t),
    ensures
        r@ == ts_text_of(t),
{
    chrono::DateTime::from_timestamp(t, 0).unwrap().to_rfc3339()
}

/// Relies on chrono's `DateTime::parse_from_rfc3339` and
/// `DateTime::timestamp`: the instant a text names, a function of the text
/// alone, present exactly when the text parses; and parsing the text that
/// `format_timestamp` wrote for `t` yields the instant `t` back (chrono
/// documents the timestamp round trip, and `to_rfc3339` writes the instant
/// in full).
#[verifier::external_body]
pub(crate) fn parse_timestamp(s: &str) -> (r: Option<i64>)
    ensures
        r == ts_parse_of(s@),
        forall|t: i64| #![auto] ts_in_range(t) && s@ == ts_text_of(t) ==> r == Some(t),
{
    match chrono::DateTime::parse_from_rfc3339(s) {
        Ok(dt) => Some(dt.timestamp()),
        Err(_) => None,
    }
}

} // verus!
