//! Points in time as they travel in date-valued header fields.
use vstd::prelude::*;

use chrono::{DateTime, FixedOffset};

verus! {

/// Seconds from the Unix epoch to 0000-01-01T00:00:00.
pub const FIRST_LOCAL_SECOND: i64 = -62167219200;

/// Seconds from the Unix epoch to 9999-12-31T23:59:59.
pub const LAST_LOCAL_SECOND: i64 = 253402300799;

/// A point in time with the UTC offset it was written in.
#[derive(Debug, PartialEq, Eq, Clone, Copy, Structural)]
pub struct HttpDate {
    /// Seconds since the Unix epoch, in UTC.
    pub secs: i64,
    /// Nanoseconds past `secs`.
    pub nanos: u32,
    /// Local time minus UTC, in seconds.
    pub offset: i32,
}

/// What a text in RFC 2822 form stands for, as `(secs, nanos, offset)`; `None` where it is
/// not such a text.
pub uninterp spec fn rfc2822_parsed(s: Seq<char>) -> Option<(int, int, int)>;

/// The RFC 2822 text of a point in time.
pub uninterp spec fn rfc2822_text(secs: int, nanos: int, offset: int) -> Seq<char>;

/// Relies on chrono's `DateTime::parse_from_rfc2822`, with the UTC timestamp, the sub-second
/// nanoseconds and the offset of its result.
#[verifier::external_body]
fn parse_rfc2822(s: &str) -> (r: Option<(i64, u32, i32)>)
    ensures
        r matches Some(t) ==> rfc2822_parsed(s@) == Some((t.0 as int, t.1 as int, t.2 as int)),
        r is None <==> rfc2822_parsed(s@) is None,
{
    match DateTime::parse_from_rfc2822(s) {
        Ok(d) => Some((d.timestamp(), d.timestamp_subsec_nanos(), d.offset().local_minus_utc())),
        Err(_) => None,
    }
}

/// Relies on chrono's `DateTime::from_timestamp`, `FixedOffset::east_opt`, `with_timezone` and
/// `to_rfc2822`: the RFC 2822 text of the instant in its offset. `to_rfc2822` panics outside
/// the years 0 to 9999, which `valid_parts` keeps the local time inside.
#[verifier::external_body]
fn render_rfc2822(secs: i64, nanos: u32, offset: i32) -> (r: String)
    requires
        HttpDate::valid_parts(secs as int, nanos as int, offset as int),
    ensures
        r@ == rfc2822_text(secs as int, nanos as int, offset as int),
{
    match (DateTime::from_timestamp(secs, nanos), FixedOffset::east_opt(offset)) {
        (Some(d), Some(o)) => d.with_timezone(&o).to_rfc2822(),
        _ => String::new(),
    }
}

impl HttpDate {
    /// Parts that make a date that can be written in RFC 2822 form: a local time in the years
    /// 0 to 9999, an offset of less than a day, and no leap second.
    pub open spec fn valid_parts(secs: int, nanos: int, offset: int) -> bool {
        &&& 0 <= nanos < 1_000_000_000
        &&& -86_400 < offset < 86_400
        &&& FIRST_LOCAL_SECOND <= secs + offset <= LAST_LOCAL_SECOND
    }

    pub open spec fn wf(&self) -> bool {
        HttpDate::valid_parts(self.secs as int, self.nanos as int, self.offset as int)
    }

    /// Whether `self` is a strictly later instant than `other` (offsets play no part).
    pub open spec fn later_than(&self, other: HttpDate) -> bool {
        self.secs > other.secs || (self.secs == other.secs && self.nanos > other.nanos)
    }

    /// The date with these parts, if they are valid.
    pub fn from_parts(secs: i64, nanos: u32, offset: i32) -> (r: Option<HttpDate>)
        ensures
            r is Some <==> HttpDate::valid_parts(secs as int, nanos as int, offset as int),
            r matches Some(d) ==> d.secs == secs && d.nanos == nanos && d.offset == offset,
    {
        if nanos < 1_000_000_000 && -86_400 < offset && offset < 86_400
            && FIRST_LOCAL_SECOND - (offset as i64) <= secs
            && secs <= LAST_LOCAL_SECOND - (offset as i64) {
            Some(HttpDate { secs, nanos, offset })
        } else {
            None
        }
    }

    /// Whether `self` is a strictly later instant than `other`.
    pub fn is_after(&self, other: &HttpDate) -> (r: bool)
        ensures
            r == self.later_than(*other),
    {
        self.secs > other.secs || (self.secs == other.secs && self.nanos > other.nanos)
    }

    /// Reads an RFC 2822 date; `None` where the text is not one, or names a time that
    /// cannot be written back (a local year outside 0 to 9999, or a leap second).
    pub fn parse(s: &str) -> (r: Option<HttpDate>)
        ensures
            r == HttpDate::parsed_spec(s@),
    {
        match parse_rfc2822(s) {
            Some((secs, nanos, offset)) => HttpDate::from_parts(secs, nanos, offset),
            None => None,
        }
    }

    /// The date that an RFC 2822 text stands for, where that date is valid.
    pub open spec fn parsed_spec(s: Seq<char>) -> Option<HttpDate> {
        match rfc2822_parsed(s) {
            Some((secs, nanos, offset)) => {
                if HttpDate::valid_parts(secs, nanos, offset) {
                    Some(HttpDate { secs: secs as i64, nanos: nanos as u32, offset: offset as i32 })
                } else {
                    None
                }
            },
            None => None,
        }
    }

    /// The RFC 2822 text of the date, such as `Tue, 15 Nov 1994 08:12:31 +0000`.
    pub open spec fn text(&self) -> Seq<char> {
        rfc2822_text(self.secs as int, self.nanos as int, self.offset as int)
    }

    /// The RFC 2822 text of the date.
    pub fn to_rfc2822(&self) -> (r: String)
        requires
            self.wf(),
        ensures
            r@ == self.text(),
    {
        render_rfc2822(self.secs, self.nanos, self.offset)
    }
}

} // verus!
