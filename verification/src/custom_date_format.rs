//! The format of the date column.

use crate::error::Fault;
use vstd::prelude::*;

verus! {

/// Date, time of day and offset from UTC, as in `2024-03-01 09:30:00-0500`.
pub const FORMAT: &'static str = "%Y-%m-%d %H:%M:%S%z";

/// The instant that `text` denotes when it is read by `format` as
/// `chrono::DateTime::parse_from_str` reads it, in seconds since the Unix
/// epoch; `None` where that function rejects `text`.
pub uninterp spec fn parsed_instant(text: Seq<char>, format: Seq<char>) -> Option<i64>;

/// Calls `chrono::DateTime::parse_from_str` and, where it accepts `text`,
/// `DateTime::timestamp` on what it gives: the seconds from the Unix epoch
/// to the instant, the offset taken into account. The contract only names
/// the result.
#[verifier::external_body]
fn parse_instant(text: &str, format: &str) -> (instant: Option<i64>)
    ensures
        instant == parsed_instant(text@, format@),
{
    chrono::DateTime::parse_from_str(text, format).ok().map(|moment| moment.timestamp())
}

/// Reads a field of the date column as an instant in seconds since the
/// Unix epoch, UTC.
pub fn deserialize(text: &str) -> (instant: Result<i64, Fault>)
    ensures
        instant == match parsed_instant(text@, FORMAT@) {
            Some(seconds) => Ok::<i64, Fault>(seconds),
            None => Err(Fault::Timestamp),
        },
{
    match parse_instant(text, FORMAT) {
        Some(seconds) => Ok(seconds),
        None => Err(Fault::Timestamp),
    }
}

} // verus!
