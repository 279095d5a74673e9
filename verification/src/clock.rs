//! Calendar time through `chrono`: RFC 3339 parsing and UTC rendering.

use std::fmt::Write;
use vstd::prelude::*;

verus! {

/// `chrono::ParseError`, carried through unopened: why a text is not a
/// date-time.
#[verifier::external_type_specification]
#[verifier::external_body]
pub struct ExChronoParseError(chrono::ParseError);

/// Seconds since the Unix epoch of an RFC 3339 date-time, as
/// `chrono::DateTime::parse_from_rfc3339` followed by `timestamp` gives
/// them; `None` where chrono refuses the text.
pub uninterp spec fn rfc3339_seconds(s: Seq<char>) -> Option<i64>;

/// `chrono::DateTime::parse_from_rfc3339(s)`, then `timestamp()` of the
/// result. The contract claims only that the outcome is the one named by
/// `rfc3339_seconds` for the same text; which texts chrono accepts is not
/// stated here.
#[verifier::external_body]
pub fn parse_rfc3339_seconds(s: &str) -> (r: Result<i64, chrono::ParseError>)
    ensures
        r is Ok <==> rfc3339_seconds(s@) is Some,
        r matches Ok(v) ==> rfc3339_seconds(s@) == Some(v),
{
    chrono::DateTime::parse_from_rfc3339(s).map(|dt| dt.timestamp())
}

/// A Unix timestamp's UTC date-time rendered with the chrono format `fmt`,
/// as chrono renders it; `None` where chrono has no date-time for it or
/// cannot render the format.
pub uninterp spec fn utc_time_text(tst: i64, fmt: Seq<char>) -> Option<Seq<char>>;

/// `chrono::DateTime::<Utc>::from_timestamp(tst, 0)`, rendered with
/// `format(fmt)`. The contract claims only that the outcome is the one
/// named by `utc_time_text` for the same timestamp and format; which
/// timestamps chrono covers and the rendered text are not stated here.
/// A format that chrono cannot render gives `None` rather than a panic.
#[verifier::external_body]
pub fn format_utc_time(tst: i64, fmt: &str) -> (r: Option<String>)
    ensures
        r matches Some(s) ==> utc_time_text(tst, fmt@) == Some(s@),
        r is None ==> utc_time_text(tst, fmt@) is None,
{
    let dt = chrono::DateTime::<chrono::Utc>::from_timestamp(tst, 0)?;
    let mut s = String::new();
    match write!(s, "{}", dt.format(fmt)) {
        Ok(()) => Some(s),
        Err(_) => None,
    }
}

} // verus!
