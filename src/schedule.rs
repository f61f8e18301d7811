use vstd::prelude::*;
use crate::time::Timestamp;
use chrono::TimeZone;

verus! {

/// The instant that chrono reads from an RFC 3339 text, or None where it
/// rejects the text.
pub uninterp spec fn rfc3339_instant(s: Seq<char>) -> Option<Timestamp>;

/// The instant that chrono reads from a text with an explicit offset under
/// format `fmt`, or None where it rejects the text.
pub uninterp spec fn offset_instant(s: Seq<char>, fmt: Seq<char>) -> Option<Timestamp>;

/// The wall-clock time (as if it were UTC) that chrono reads from a text
/// without offset under format `fmt`, or None where it rejects the text.
pub uninterp spec fn naive_wall_time(s: Seq<char>, fmt: Seq<char>) -> Option<Timestamp>;

/// The instant at which Asia/Seoul clocks show wall time `wall`, or None
/// where that local time is ambiguous or does not exist.
pub uninterp spec fn seoul_instant(wall: Timestamp) -> Option<Timestamp>;

/// Declares chrono's parse error so that its text can be reported.
#[verifier::external_type_specification]
#[verifier::external_body]
pub struct ExParseError(chrono::ParseError);

/// Relies on chrono::DateTime::parse_from_rfc3339, read as a UTC instant.
#[verifier::external_body]
fn parse_rfc3339(s: &str) -> (r: Option<Timestamp>)
    ensures
        r == rfc3339_instant(s@),
{
    match chrono::DateTime::parse_from_rfc3339(s) {
        Ok(dt) => Some(Timestamp { secs: dt.timestamp(), nanos: dt.timestamp_subsec_nanos() }),
        Err(_) => None,
    }
}

/// Relies on chrono::DateTime::parse_from_str, read as a UTC instant.
#[verifier::external_body]
fn parse_with_offset(s: &str, fmt: &str) -> (r: Option<Timestamp>)
    ensures
        r == offset_instant(s@, fmt@),
{
    match chrono::DateTime::parse_from_str(s, fmt) {
        Ok(dt) => Some(Timestamp { secs: dt.timestamp(), nanos: dt.timestamp_subsec_nanos() }),
        Err(_) => None,
    }
}

/// Relies on chrono::NaiveDateTime::parse_from_str; the wall time is carried
/// as if it were UTC.
#[verifier::external_body]
fn parse_naive(s: &str, fmt: &str) -> (r: Result<Timestamp, chrono::ParseError>)
    ensures
        (r is Ok) == (naive_wall_time(s@, fmt@) is Some),
        r matches Ok(t) ==> naive_wall_time(s@, fmt@) == Some(t),
{
    match chrono::NaiveDateTime::parse_from_str(s, fmt) {
        Ok(n) => {
            let t = n.and_utc();
            Ok(Timestamp { secs: t.timestamp(), nanos: t.timestamp_subsec_nanos() })
        },
        Err(e) => Err(e),
    }
}

/// Relies on chrono_tz's Asia/Seoul zone through chrono's
/// TimeZone::from_local_datetime, keeping only an unambiguous result.
#[verifier::external_body]
fn localize_seoul(wall: Timestamp) -> (r: Option<Timestamp>)
    ensures
        r == seoul_instant(wall),
{
    let naive = chrono::DateTime::from_timestamp(wall.secs, wall.nanos)?.naive_utc();
    let local = chrono_tz::Asia::Seoul.from_local_datetime(&naive).single()?;
    Some(Timestamp { secs: local.timestamp(), nanos: local.timestamp_subsec_nanos() })
}

pub const OFFSET_FORMAT_SPACE: &'static str = "%Y-%m-%d %H:%M:%S%:z";
pub const OFFSET_FORMAT_SPACE_FRACTION: &'static str = "%Y-%m-%d %H:%M:%S%.f%:z";
pub const OFFSET_FORMAT_T: &'static str = "%Y-%m-%dT%H:%M:%S%:z";
pub const OFFSET_FORMAT_T_FRACTION: &'static str = "%Y-%m-%dT%H:%M:%S%.f%:z";
pub const NAIVE_FORMAT_SPACE: &'static str = "%Y-%m-%d %H:%M:%S";
pub const NAIVE_FORMAT_SPACE_FRACTION: &'static str = "%Y-%m-%d %H:%M:%S%.f";
pub const NAIVE_FORMAT_T: &'static str = "%Y-%m-%dT%H:%M:%S";
pub const NAIVE_FORMAT_T_FRACTION: &'static str = "%Y-%m-%dT%H:%M:%S%.f";

/// The first of the offset formats that reads `s`.
pub open spec fn offset_reading(s: Seq<char>) -> Option<Timestamp> {
    if offset_instant(s, OFFSET_FORMAT_SPACE@) is Some {
        offset_instant(s, OFFSET_FORMAT_SPACE@)
    } else if offset_instant(s, OFFSET_FORMAT_SPACE_FRACTION@) is Some {
        offset_instant(s, OFFSET_FORMAT_SPACE_FRACTION@)
    } else if offset_instant(s, OFFSET_FORMAT_T@) is Some {
        offset_instant(s, OFFSET_FORMAT_T@)
    } else {
        offset_instant(s, OFFSET_FORMAT_T_FRACTION@)
    }
}

/// The first of the offset-free formats that reads `s`, as wall time.
pub open spec fn naive_reading(s: Seq<char>) -> Option<Timestamp> {
    if naive_wall_time(s, NAIVE_FORMAT_SPACE@) is Some {
        naive_wall_time(s, NAIVE_FORMAT_SPACE@)
    } else if naive_wall_time(s, NAIVE_FORMAT_SPACE_FRACTION@) is Some {
        naive_wall_time(s, NAIVE_FORMAT_SPACE_FRACTION@)
    } else if naive_wall_time(s, NAIVE_FORMAT_T@) is Some {
        naive_wall_time(s, NAIVE_FORMAT_T@)
    } else {
        naive_wall_time(s, NAIVE_FORMAT_T_FRACTION@)
    }
}

/// How a scheduled time is read: RFC 3339 first, then a date-time with an
/// explicit offset, and last a date-time without offset taken as Asia/Seoul
/// local time.
pub open spec fn schedule_reading(s: Seq<char>) -> Option<Timestamp> {
    if rfc3339_instant(s) is Some {
        rfc3339_instant(s)
    } else if offset_reading(s) is Some {
        offset_reading(s)
    } else {
        match naive_reading(s) {
            Some(wall) => seoul_instant(wall),
            None => None,
        }
    }
}

fn first_offset_reading(s: &str) -> (r: Option<Timestamp>)
    ensures
        r == offset_reading(s@),
{
    let a = parse_with_offset(s, OFFSET_FORMAT_SPACE);
    if a.is_some() {
        return a;
    }
    let b = parse_with_offset(s, OFFSET_FORMAT_SPACE_FRACTION);
    if b.is_some() {
        return b;
    }
    let c = parse_with_offset(s, OFFSET_FORMAT_T);
    if c.is_some() {
        return c;
    }
    parse_with_offset(s, OFFSET_FORMAT_T_FRACTION)
}

fn first_naive_reading(s: &str) -> (r: Result<Timestamp, chrono::ParseError>)
    ensures
        (r is Ok) == (naive_reading(s@) is Some),
        r matches Ok(t) ==> naive_reading(s@) == Some(t),
{
    match parse_naive(s, NAIVE_FORMAT_SPACE) {
        Ok(t) => {
            return Ok(t);
        },
        Err(_) => {},
    }
    match parse_naive(s, NAIVE_FORMAT_SPACE_FRACTION) {
        Ok(t) => {
            return Ok(t);
        },
        Err(_) => {},
    }
    match parse_naive(s, NAIVE_FORMAT_T) {
        Ok(t) => {
            return Ok(t);
        },
        Err(_) => {},
    }
    parse_naive(s, NAIVE_FORMAT_T_FRACTION)
}

/// Reads a scheduled time as a UTC instant; see `schedule_reading`. On
/// failure, the reason.
pub fn parse_schedule(s: &str) -> (r: Result<Timestamp, String>)
    ensures
        (r is Ok) == (schedule_reading(s@) is Some),
        r matches Ok(t) ==> schedule_reading(s@) == Some(t),
{
    match parse_rfc3339(s) {
        Some(t) => {
            return Ok(t);
        },
        None => {},
    }
    match first_offset_reading(s) {
        Some(t) => {
            return Ok(t);
        },
        None => {},
    }
    match first_naive_reading(s) {
        Ok(wall) => match localize_seoul(wall) {
            Some(t) => Ok(t),
            None => Err(String::from_str("ambiguous or nonexistent local time in Asia/Seoul")),
        },
        Err(e) => {
            let mut reason = String::from_str("invalid datetime format: ");
            let detail = e.to_string();
            reason.append(detail.as_str());
            Err(reason)
        },
    }
}

} // verus!
