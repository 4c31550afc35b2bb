//! Stored instants: how they are read, shown and written.
//!
//! Instants are stored as RFC 3339 text. Reading one gives the seconds since
//! the start of 1970 in UTC, the nanoseconds since that second began, and
//! the offset from UTC, in seconds, in which the instant was written.

use std::fmt::Write;
use vstd::prelude::*;

verus! {

/// The instant that chrono reads from the RFC 3339 text `date`, as seconds,
/// nanoseconds and offset; `None` where `date` is no RFC 3339 instant.
pub uninterp spec fn rfc3339_instant(date: Seq<char>) -> Option<(i64, u32, i32)>;

/// What chrono prints for an instant in the offset `offset_secs` under the
/// strftime pattern `pattern`; `None` where chrono holds no such instant or
/// cannot print the pattern.
pub uninterp spec fn instant_formatted(
    secs: i64,
    nanos: u32,
    offset_secs: i32,
    pattern: Seq<char>,
) -> Option<Seq<char>>;

/// The RFC 3339 text that chrono writes for the start of the second `secs`
/// since the start of 1970, in UTC; `None` where that lies outside the years
/// chrono can hold.
pub uninterp spec fn rfc3339_of_seconds(secs: i64) -> Option<Seq<char>>;

/// The pattern under which instants are shown, as in `Mar 05, 2024 at 09:07 PM`.
pub open spec fn display_pattern() -> Seq<char> {
    "%b %d, %Y at %I:%M %p"@
}

/// How the stored instant `date` is shown: printed under
/// [`display_pattern`] in the offset it was written in, or as it stands
/// where it cannot be read or printed.
pub open spec fn date_display(date: Seq<char>) -> Seq<char> {
    match rfc3339_instant(date) {
        Some((secs, nanos, offset_secs)) => match instant_formatted(
            secs,
            nanos,
            offset_secs,
            display_pattern(),
        ) {
            Some(shown) => shown,
            None => date,
        },
        None => date,
    }
}

/// `chrono::DateTime::parse_from_rfc3339`, with what was read taken apart by
/// `timestamp`, `timestamp_subsec_nanos` and the offset's `local_minus_utc`.
/// The contract claims only that the outcome depends on the text alone.
#[verifier::external_body]
pub(crate) fn read_rfc3339(date: &str) -> (instant: Option<(i64, u32, i32)>)
    ensures
        instant == rfc3339_instant(date@),
{
    chrono::DateTime::parse_from_rfc3339(date).ok().map(
        |t| (t.timestamp(), t.timestamp_subsec_nanos(), t.offset().local_minus_utc()),
    )
}

/// `chrono::DateTime::format`, written into a string, for the instant put
/// together by `FixedOffset::east_opt` and `TimeZone::timestamp_opt`. The
/// contract claims only that the outcome, failure included, depends on the
/// three numbers and the pattern alone.
#[verifier::external_body]
pub(crate) fn print_instant(secs: i64, nanos: u32, offset_secs: i32, pattern: &str) -> (shown:
    Option<String>)
    ensures
        match shown {
            Some(text) => instant_formatted(secs, nanos, offset_secs, pattern@) == Some(text@),
            None => instant_formatted(secs, nanos, offset_secs, pattern@) is None,
        },
{
    let zone = chrono::FixedOffset::east_opt(offset_secs)?;
    let instant = chrono::TimeZone::timestamp_opt(&zone, secs, nanos).single()?;
    let mut text = String::new();
    write!(text, "{}", instant.format(pattern)).ok()?;
    Some(text)
}

/// `chrono::DateTime::from_timestamp` with no nanoseconds, then
/// `to_rfc3339`. The contract claims only that the outcome depends on the
/// number alone.
#[verifier::external_body]
pub(crate) fn write_rfc3339(secs: i64) -> (text: Option<String>)
    ensures
        match text {
            Some(t) => rfc3339_of_seconds(secs) == Some(t@),
            None => rfc3339_of_seconds(secs) is None,
        },
{
    chrono::DateTime::from_timestamp(secs, 0).map(|t| t.to_rfc3339())
}

/// What is shown for a printing of a stored instant: the printed form, or
/// the stored text itself where there is none.
pub fn shown_or_stored(shown: Option<String>, stored: &str) -> (text: String)
    ensures
        text@ == match shown {
            Some(s) => s@,
            None => stored@,
        },
{
    match shown {
        Some(s) => s,
        None => stored.to_owned(),
    }
}

/// Shows a stored instant; see [`date_display`].
pub fn format_date(date: &str) -> (text: String)
    ensures
        text@ == date_display(date@),
{
    match read_rfc3339(date) {
        Some((secs, nanos, offset_secs)) => shown_or_stored(
            print_instant(secs, nanos, offset_secs, "%b %d, %Y at %I:%M %p"),
            date,
        ),
        None => date.to_owned(),
    }
}

} // verus!
