//! Calendar dates of Unix timestamps.

use vstd::prelude::*;

verus! {

/// The UTC calendar date of the moment `seconds` after the Unix epoch, as
/// chrono computes it and writes it with the pattern `%Y-%m-%d`; `None` where
/// chrono has no date for that moment.
pub uninterp spec fn utc_date(seconds: i64) -> Option<Seq<char>>;

/// The date that stands in for a timestamp without a calendar date.
pub open spec fn epoch_date() -> Seq<char> {
    "1970-01-01"@
}

/// The date under which a post with the given timestamp is counted.
pub open spec fn normalized_date(seconds: i64) -> Seq<char> {
    match utc_date(seconds) {
        Some(date) => date,
        None => epoch_date(),
    }
}

/// Trusted: `chrono::DateTime::from_timestamp` with no nanoseconds, and
/// `DateTime::format` with the pattern `%Y-%m-%d` on the moment it returns.
/// The outcome depends on `seconds` alone and is `None` exactly when chrono
/// rejects the number of seconds as out of range.
#[verifier::external_body]
fn utc_date_text(seconds: i64) -> (date: Option<String>)
    ensures
        match date {
            Some(text) => utc_date(seconds) == Some(text@),
            None => utc_date(seconds) is None,
        },
{
    match chrono::DateTime::from_timestamp(seconds, 0) {
        Some(moment) => Some(moment.format("%Y-%m-%d").to_string()),
        None => None,
    }
}

/// Chooses the date for a timestamp from what the calendar gave for it: the
/// date itself, or the epoch date where there is none.
pub fn date_or_epoch(found: Option<String>) -> (date: String)
    ensures
        date@ == match found {
            Some(text) => text@,
            None => epoch_date(),
        },
{
    match found {
        Some(text) => text,
        None => "1970-01-01".to_owned(),
    }
}

/// The calendar date, in UTC and written `YYYY-MM-DD`, of a timestamp in
/// whole seconds since the Unix epoch. A timestamp outside the calendar's
/// range gets the epoch date.
pub fn normalize(timestamp: i64) -> (date: String)
    ensures
        date@ == normalized_date(timestamp),
{
    date_or_epoch(utc_date_text(timestamp))
}

} // verus!
