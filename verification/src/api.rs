//! The logic of the HTTP API that is independent of the web framework:
//! query parameters turned into filters, timestamps in query strings, and
//! XML text.

use vstd::prelude::*;
use crate::clock::{parse_rfc3339_seconds, rfc3339_seconds};
use crate::number::{parse_i64, parse_i64_spec};
use crate::storage::LocationFilter;
use crate::text::{chars_of, opt_view};

verus! {

/// Sort order of a location listing.
#[derive(Clone, Copy, Debug, PartialEq, Eq)]
pub enum Order {
    Asc,
    Desc,
}

impl Default for Order {
    fn default() -> (o: Self)
        ensures
            o is Asc,
    {
        Order::Asc
    }
}

/// Query string of `/api/locations`.
#[derive(Clone, Debug, PartialEq)]
pub struct LocationsQuery {
    pub user: Option<String>,
    pub device: Option<String>,
    pub from: Option<i64>,
    pub to: Option<i64>,
    pub limit: Option<i64>,
    pub offset: Option<i64>,
    pub order: Order,
}

impl Default for LocationsQuery {
    fn default() -> (q: Self)
        ensures
            q.user is None && q.device is None && q.from is None && q.to is None && q.limit is None
                && q.offset is None && q.order is Asc,
    {
        LocationsQuery {
            user: None,
            device: None,
            from: None,
            to: None,
            limit: None,
            offset: None,
            order: Order::Asc,
        }
    }
}

impl LocationsQuery {
    /// The filter that the query asks for, field by field.
    pub fn into_filter(self) -> (f: LocationFilter)
        ensures
            opt_view(f.user) == opt_view(self.user),
            opt_view(f.device) == opt_view(self.device),
            f.from_tst == self.from,
            f.to_tst == self.to,
            f.limit == self.limit,
            f.offset == self.offset,
            f.descending == (self.order is Desc),
    {
        LocationFilter {
            user: self.user,
            device: self.device,
            from_tst: self.from,
            to_tst: self.to,
            limit: self.limit,
            offset: self.offset,
            descending: match self.order {
                Order::Desc => true,
                Order::Asc => false,
            },
        }
    }
}

/// Query string of `/api/locations/latest`.
#[derive(Clone, Debug, PartialEq)]
pub struct LatestQuery {
    pub user: Option<String>,
    pub device: Option<String>,
}

impl Default for LatestQuery {
    fn default() -> (q: Self)
        ensures
            q.user is None && q.device is None,
    {
        LatestQuery { user: None, device: None }
    }
}

/// Query string of `/api/track.geojson` and `/api/track.gpx`.
#[derive(Clone, Debug, PartialEq)]
pub struct TrackQuery {
    pub user: String,
    pub device: String,
    pub from: Option<i64>,
    pub to: Option<i64>,
    pub limit: Option<i64>,
}

impl TrackQuery {
    /// One device's track in time order, at most 50000 points unless the
    /// query sets a limit.
    pub fn filter(&self) -> (f: LocationFilter)
        ensures
            opt_view(f.user) == Some(self.user@),
            opt_view(f.device) == Some(self.device@),
            f.from_tst == self.from,
            f.to_tst == self.to,
            f.limit == (match self.limit {
                Some(l) => Some(l),
                None => Some(50_000i64),
            }),
            f.offset is None,
            !f.descending,
    {
        LocationFilter {
            user: Some(self.user.clone()),
            device: Some(self.device.clone()),
            from_tst: self.from,
            to_tst: self.to,
            limit: match self.limit {
                Some(l) => Some(l),
                None => Some(50_000),
            },
            offset: None,
            descending: false,
        }
    }
}

/// The filter of `/api/locations/bbox` (the box itself goes apart):
/// no offset, order as asked.
pub fn bbox_filter(
    user: Option<String>,
    device: Option<String>,
    from: Option<i64>,
    to: Option<i64>,
    limit: Option<i64>,
    order: Order,
) -> (f: LocationFilter)
    ensures
        opt_view(f.user) == opt_view(user),
        opt_view(f.device) == opt_view(device),
        f.from_tst == from,
        f.to_tst == to,
        f.limit == limit,
        f.offset is None,
        f.descending == (order is Desc),
{
    LocationFilter {
        user,
        device,
        from_tst: from,
        to_tst: to,
        limit,
        offset: None,
        descending: match order {
            Order::Desc => true,
            Order::Asc => false,
        },
    }
}

/// `n * 4`, held at the bounds of `i64` where it would overflow.
pub open spec fn saturating_times4(n: i64) -> i64 {
    if n * 4 > i64::MAX {
        i64::MAX
    } else if n * 4 < i64::MIN {
        i64::MIN
    } else {
        (n * 4) as i64
    }
}

/// The filter of `/api/locations/near` for the box around the circle:
/// four times the asked limit (the circle keeps fewer rows than the box),
/// oldest first, no offset.
pub fn near_filter(
    user: Option<String>,
    device: Option<String>,
    from: Option<i64>,
    to: Option<i64>,
    limit: Option<i64>,
) -> (f: LocationFilter)
    ensures
        opt_view(f.user) == opt_view(user),
        opt_view(f.device) == opt_view(device),
        f.from_tst == from,
        f.to_tst == to,
        f.limit == (match limit {
            Some(n) => Some(saturating_times4(n)),
            None => None,
        }),
        f.offset is None,
        !f.descending,
{
    let l = match limit {
        Some(n) => {
            let m: i64 = if n > i64::MAX / 4 {
                i64::MAX
            } else if n < i64::MIN / 4 {
                i64::MIN
            } else {
                n * 4
            };
            Some(m)
        },
        None => None,
    };
    LocationFilter { user, device, from_tst: from, to_tst: to, limit: l, offset: None, descending: false }
}

/// How many of the nearest rows `/api/locations/near` answers: the asked
/// limit, 1000 by default, at least 1.
pub fn near_result_limit(limit: Option<i64>) -> (r: usize)
    ensures
        r == (match limit {
            Some(n) => if n < 1 {
                1
            } else {
                n
            },
            None => 1000,
        }) as usize,
{
    let n: i64 = match limit {
        Some(n) => n,
        None => 1000,
    };
    let m: i64 = if n < 1 {
        1
    } else {
        n
    };
    m as usize
}

/// The seconds that a timestamp in a query string stands for: an integer
/// (as `str::parse::<i64>` reads one) is taken as is, anything else as
/// RFC 3339.
pub open spec fn timestamp_value(s: Seq<char>) -> Option<i64> {
    match parse_i64_spec(s) {
        Some(n) => Some(n),
        None => rfc3339_seconds(s),
    }
}

/// Parses a timestamp given as Unix seconds or as RFC 3339; the error is
/// chrono's, for text that is neither.
pub fn parse_timestamp(s: &str) -> (r: Result<i64, chrono::ParseError>)
    ensures
        r is Ok <==> timestamp_value(s@) is Some,
        r matches Ok(t) ==> timestamp_value(s@) == Some(t),
{
    let v = chars_of(s);
    match parse_i64(&v) {
        Some(n) => Ok(n),
        None => parse_rfc3339_seconds(s),
    }
}

/// An optional timestamp of a query string: absent or empty means none.
pub fn parse_timestamp_param(s: Option<&str>) -> (r: Result<Option<i64>, chrono::ParseError>)
    ensures
        match s {
            None => r == Ok::<Option<i64>, chrono::ParseError>(None),
            Some(t) => if t@.len() == 0 {
                r == Ok::<Option<i64>, chrono::ParseError>(None)
            } else {
                (r is Ok <==> timestamp_value(t@) is Some) && (r matches Ok(x) ==> x
                    == timestamp_value(t@))
            },
        },
{
    match s {
        None => Ok(None),
        Some(t) => {
            if t.is_empty() {
                Ok(None)
            } else {
                match parse_timestamp(t) {
                    Ok(n) => Ok(Some(n)),
                    Err(e) => Err(e),
                }
            }
        },
    }
}

/// A timestamp that is neither Unix seconds nor RFC 3339.
#[derive(Debug)]
pub struct TimestampError {
    /// The text as given.
    pub input: String,
    /// Why chrono refused it as RFC 3339.
    pub cause: chrono::ParseError,
}

fn timestamp_arg(s: Option<&str>) -> (r: Result<Option<i64>, TimestampError>)
    ensures
        match s {
            None => r matches Ok(None),
            Some(t) => match timestamp_value(t@) {
                Some(v) => r matches Ok(Some(x)) && x == v,
                None => r matches Err(e) && e.input@ == t@,
            },
        },
{
    match s {
        None => Ok(None),
        Some(t) => match parse_timestamp(t) {
            Ok(v) => Ok(Some(v)),
            Err(cause) => Err(TimestampError { input: t.to_owned(), cause }),
        },
    }
}

/// The filter of a Parquet export: user, device and time span as given on
/// the command line (each bound as Unix seconds or RFC 3339), every row of
/// them, oldest first. The lower bound is read first, so when both are
/// unreadable the error names the lower one.
pub fn export_filter(
    user: Option<String>,
    device: Option<String>,
    from: Option<&str>,
    to: Option<&str>,
) -> (r: Result<LocationFilter, TimestampError>)
    ensures
        match (from, to) {
            (Some(f), _) if timestamp_value(f@) is None => r matches Err(e) && e.input@ == f@,
            (_, Some(t)) if timestamp_value(t@) is None => r matches Err(e) && e.input@ == t@,
            _ => r matches Ok(flt) && opt_view(flt.user) == opt_view(user) && opt_view(flt.device)
                == opt_view(device) && flt.from_tst == (match from {
                Some(f) => timestamp_value(f@),
                None => None,
            }) && flt.to_tst == (match to {
                Some(t) => timestamp_value(t@),
                None => None,
            }) && flt.limit is None && flt.offset is None && !flt.descending,
        },
{
    let from_tst = match timestamp_arg(from) {
        Ok(v) => v,
        Err(e) => return Err(e),
    };
    let to_tst = match timestamp_arg(to) {
        Ok(v) => v,
        Err(e) => return Err(e),
    };
    Ok(
        LocationFilter {
            user,
            device,
            from_tst,
            to_tst,
            limit: None,
            offset: None,
            descending: false,
        },
    )
}

/// A non-negative timestamp written in decimal, as the API writes the
/// `tst` of every location, is read back as the same timestamp when a
/// client sends it as `from` or `to`.
pub proof fn law_timestamp_text_roundtrip(tst: u64)
    requires
        tst <= i64::MAX,
    ensures
        timestamp_value(crate::number::decimal(tst as nat)) == Some(tst as i64),
{
    crate::number::law_decimal_parses_back(tst);
}

} // verus!
