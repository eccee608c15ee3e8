//! Timestamps as text. An instant is a count of milliseconds since the Unix
//! epoch, in UTC.

use vstd::prelude::*;
use crate::models::opt_text;

verus! {

/// The RFC 3339 text of an instant, with milliseconds and a closing `Z`, such
/// as `2018-01-26T18:30:09.453Z`; none for an instant outside the calendar's
/// range.
pub uninterp spec fn rfc3339_millis_text(millis: int) -> Option<Seq<char>>;

/// The text of an instant as the report shows it, such as
/// `2018-01-26 18:30:09 UTC`; none for an instant outside the calendar's
/// range.
pub uninterp spec fn report_stamp_text(millis: int) -> Option<Seq<char>>;

/// `chrono::DateTime::from_timestamp_millis`, then
/// `DateTime::<Utc>::to_rfc3339_opts` with `SecondsFormat::Millis` and `Z`.
/// The text depends on the instant alone: the time zone is UTC throughout.
/// Nothing is claimed of the text but that it is that function of the instant.
#[verifier::external_body]
pub(crate) fn rfc3339_millis(millis: i64) -> (text: Option<String>)
    ensures
        opt_text(text) == rfc3339_millis_text(millis as int),
{
    match chrono::DateTime::from_timestamp_millis(millis) {
        Some(instant) => Some(instant.to_rfc3339_opts(chrono::SecondsFormat::Millis, true)),
        None => None,
    }
}

/// `chrono::DateTime::from_timestamp_millis`, then `DateTime::<Utc>::format`
/// with the pattern `%Y-%m-%d %H:%M:%S UTC`. The text depends on the instant
/// alone. Nothing is claimed of the text but that it is that function of the
/// instant.
#[verifier::external_body]
pub(crate) fn report_stamp(millis: i64) -> (text: Option<String>)
    ensures
        opt_text(text) == report_stamp_text(millis as int),
{
    match chrono::DateTime::from_timestamp_millis(millis) {
        Some(instant) => Some(instant.format("%Y-%m-%d %H:%M:%S UTC").to_string()),
        None => None,
    }
}

} // verus!
