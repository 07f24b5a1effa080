//! Times as people read them.
use vstd::prelude::*;

use crate::text::{decimal, number};

verus! {

/// What `chrono` makes of a time, given as seconds since 1970 in UTC, and a pattern;
/// `None` where the time is out of its range.
pub uninterp spec fn utc_text(ts: i64, pattern: Seq<char>) -> Option<Seq<char>>;

/// The patterns in use: date and time, with and without the zone, date, and time of day.
pub open spec fn is_pattern(p: Seq<char>) -> bool {
    ||| p == "%Y-%m-%d %H:%M:%S UTC"@
    ||| p == "%Y-%m-%d %H:%M:%S"@
    ||| p == "%Y-%m-%d"@
    ||| p == "%H:%M:%S"@
}

/// `chrono::DateTime::from_timestamp` and `DateTime::format`: a time, written by a
/// pattern. What comes out depends on the two alone. A valid pattern does not fail.
#[verifier::external_body]
pub(crate) fn format_utc(ts: i64, pattern: &str) -> (r: Option<String>)
    requires
        is_pattern(pattern@),
    ensures
        match r {
            Some(t) => utc_text(ts, pattern@) == Some(t@),
            None => utc_text(ts, pattern@) is None,
        },
{
    chrono::DateTime::from_timestamp(ts, 0).map(|d| d.format(pattern).to_string())
}

/// A time as reports show it: date and time, or the bare number where that is out of
/// range.
pub open spec fn shown_time(ts: i64) -> Seq<char> {
    time_or_number(ts, utc_text(ts, "%Y-%m-%d %H:%M:%S UTC"@))
}

/// A text for a time where there is one, else its number.
pub open spec fn time_or_number(ts: i64, text: Option<Seq<char>>) -> Seq<char> {
    match text {
        Some(t) => t,
        None => decimal(ts as int),
    }
}

/// A text for a time where there is one, else its number.
pub fn text_or_number(ts: i64, text: Option<String>) -> (r: String)
    ensures
        r@ == time_or_number(ts, crate::text::opt(text)),
{
    match text {
        Some(t) => t,
        None => number(ts as i128),
    }
}

/// A time as reports show it.
pub fn fmt_ts(ts: i64) -> (r: String)
    ensures
        r@ == shown_time(ts),
{
    text_or_number(ts, format_utc(ts, "%Y-%m-%d %H:%M:%S UTC"))
}

} // verus!
