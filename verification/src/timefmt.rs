//! Timestamp reading and writing, through chrono.
//!
//! Epoch seconds are the library's own representation of a point in time;
//! chrono does the calendar work behind two trusted wrappers.

use vstd::prelude::*;

verus! {

/// The text chrono prints for an epoch second under the format
/// `%Y-%m-%dT%H:%M:%S.00Z`, or `None` when the second is out of chrono's
/// range.  The text depends on the epoch second alone.
pub uninterp spec fn fmt_00z(t: int) -> Option<Seq<char>>;

/// The epoch second chrono reads from an RFC 3339 timestamp, or `None` when
/// the text is not one.  The result depends on the text alone.
pub uninterp spec fn rfc3339_epoch(s: Seq<char>) -> Option<i64>;

/// Relies on chrono's `DateTime::<Utc>::from_timestamp_secs`, which is `None`
/// exactly on out-of-range seconds, and on `DateTime::format` with
/// `%Y-%m-%dT%H:%M:%S.00Z`, whose text is a function of the instant alone.
#[verifier::external_body]
pub fn format_epoch(t: i64) -> (r: Option<String>)
    ensures
        match r {
            Some(s) => fmt_00z(t as int) == Some(s@),
            None => fmt_00z(t as int) is None,
        },
{
    match chrono::DateTime::<chrono::Utc>::from_timestamp_secs(t) {
        Some(d) => Some(d.format("%Y-%m-%dT%H:%M:%S.00Z").to_string()),
        None => None,
    }
}

/// Relies on chrono's `DateTime::parse_from_rfc3339` and `timestamp`: the
/// outcome is a function of the text alone.
#[verifier::external_body]
pub fn parse_rfc3339(s: &str) -> (r: Option<i64>)
    ensures
        r == rfc3339_epoch(s@),
{
    match chrono::DateTime::parse_from_rfc3339(s) {
        Ok(d) => Some(d.timestamp()),
        Err(_) => None,
    }
}

} // verus!
