//! Reading the dates that servers and snapshots write.

use crate::card::Date;
use vstd::prelude::*;

verus! {

/// The instant that an RFC 2822 date stands for, as seconds since the Unix
/// epoch and nanoseconds within the second; `None` for a text that is no
/// such date.
pub uninterp spec fn rfc2822_instant(text: Seq<char>) -> Option<(i64, u32)>;

/// `chrono::DateTime::parse_from_rfc2822`, with the date that it returns
/// taken as `timestamp()` and `timestamp_subsec_nanos()`. The contract gives
/// the result a name and claims no more than that equal texts are read
/// alike.
#[verifier::external_body]
fn parse_from_rfc2822(text: &str) -> (instant: Option<(i64, u32)>)
    ensures
        instant == rfc2822_instant(text@),
{
    chrono::DateTime::parse_from_rfc2822(text).ok().map(
        |date| (date.timestamp(), date.timestamp_subsec_nanos()),
    )
}

/// The date at an instant, if there is one.
pub open spec fn date_at(instant: Option<(i64, u32)>) -> Option<Date> {
    match instant {
        Some((secs, nanos)) => Some(Date { secs, nanos }),
        None => None,
    }
}

/// The date at an instant, if there is one.
pub fn date_from_instant(instant: Option<(i64, u32)>) -> (date: Option<Date>)
    ensures
        date == date_at(instant),
{
    match instant {
        Some((secs, nanos)) => Some(Date::new(secs, nanos)),
        None => None,
    }
}

/// Reads an RFC 2822 date, such as `Wed, 18 Feb 2015 23:16:09 GMT`.
pub fn parse_date(text: &str) -> (date: Option<Date>)
    ensures
        date == date_at(rfc2822_instant(text@)),
{
    date_from_instant(parse_from_rfc2822(text))
}

} // verus!
