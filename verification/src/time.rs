//! Points in time, in UTC.

use chrono::{DateTime, Utc};
use vstd::prelude::*;

verus! {

/// A point in time: seconds since 1970 in UTC, and nanoseconds within the second. In the
/// last second of a minute a count of a thousand million nanoseconds or more stands for a
/// leap second.
#[derive(Debug, Clone, Copy)]
pub struct Timestamp {
    secs: i64,
    nanos: u32,
}

/// Whether there is a point in time with these counts: it lies in the years -262143 to
/// 262142.
pub open spec fn is_time(secs: int, nanos: int) -> bool {
    &&& -8_334_601_228_800 <= secs <= 8_210_266_876_799
    &&& 0 <= nanos < 2_000_000_000
    &&& nanos >= 1_000_000_000 ==> secs % 60 == 59
}

/// Whether the year of a point in time has at most four digits and no sign.
pub open spec fn has_common_year(secs: int) -> bool {
    -62_167_219_200 <= secs <= 253_402_300_799
}

impl View for Timestamp {
    type V = (int, int);

    closed spec fn view(&self) -> (int, int) {
        (self.secs as int, self.nanos as int)
    }
}

/// Whether the point in time `a` lies before `b`.
pub open spec fn is_before(a: (int, int), b: (int, int)) -> bool {
    a.0 < b.0 || (a.0 == b.0 && a.1 < b.1)
}

/// The RFC 3339 text for a point in time, with the offset `+00:00`.
pub uninterp spec fn rfc3339_text(secs: int, nanos: int) -> Seq<char>;

/// The point in time that an RFC 3339 text stands for, or the message of the parser's error.
pub uninterp spec fn rfc3339_time(text: Seq<char>) -> Result<(int, int), Seq<char>>;

/// Calls `chrono::DateTime::from_timestamp` and tells whether it knows the point in time:
/// it does for [`is_time`].
#[verifier::external_body]
fn known_to_calendar(secs: i64, nanos: u32) -> (r: bool)
    ensures
        r == is_time(secs as int, nanos as int),
{
    DateTime::<Utc>::from_timestamp(secs, nanos).is_some()
}

/// Whether `text` reads back as the point in time it was written for, as far as years of
/// four digits go.
pub open spec fn reads_back(text: Seq<char>, secs: int, nanos: int) -> bool {
    has_common_year(secs) ==> rfc3339_time(text) == Ok::<(int, int), Seq<char>>((secs, nanos))
}

/// Calls `chrono::DateTime::to_rfc3339`. Its result is [`rfc3339_text`] of the point in time,
/// and for a year of four digits parsing that text gives the point in time back.
#[verifier::external_body]
fn format_rfc3339(secs: i64, nanos: u32) -> (r: String)
    requires
        is_time(secs as int, nanos as int),
    ensures
        r@ == rfc3339_text(secs as int, nanos as int),
        reads_back(r@, secs as int, nanos as int),
{
    DateTime::<Utc>::from_timestamp(secs, nanos).unwrap().to_rfc3339()
}

/// Seconds and nanoseconds or a message, as values.
pub open spec fn parts_view(r: Result<(i64, u32), String>) -> Result<(int, int), Seq<char>> {
    match r {
        Ok((secs, nanos)) => Ok((secs as int, nanos as int)),
        Err(e) => Err(e@),
    }
}

/// Whether `r`, where it is a point in time, is one that the calendar knows.
pub open spec fn is_time_or_error(r: Result<(i64, u32), String>) -> bool {
    r matches Ok((secs, nanos)) ==> is_time(secs as int, nanos as int)
}

/// Calls `chrono::DateTime::parse_from_rfc3339` and converts to UTC. Its result is
/// [`rfc3339_time`] of the text, which `from_timestamp` knows; an error is its message.
#[verifier::external_body]
fn parse_rfc3339_parts(text: &str) -> (r: Result<(i64, u32), String>)
    ensures
        parts_view(r) == rfc3339_time(text@),
        is_time_or_error(r),
{
    let time = DateTime::parse_from_rfc3339(text).map_err(|e| e.to_string())?;
    let utc = time.with_timezone(&Utc);
    Ok((utc.timestamp(), utc.timestamp_subsec_nanos()))
}

/// A point in time or a message, as values.
pub open spec fn time_view(r: Result<Timestamp, String>) -> Result<(int, int), Seq<char>> {
    match r {
        Ok(time) => Ok(time@),
        Err(e) => Err(e@),
    }
}

impl Timestamp {
    #[verifier::type_invariant]
    spec fn inv(self) -> bool {
        is_time(self.secs as int, self.nanos as int)
    }

    /// The point in time with these counts of seconds since 1970 and of nanoseconds, where
    /// there is one.
    pub fn from_timestamp(secs: i64, nanos: u32) -> (r: Option<Timestamp>)
        ensures
            match r {
                Some(time) => is_time(secs as int, nanos as int) && time@ == (
                    secs as int,
                    nanos as int,
                ),
                None => !is_time(secs as int, nanos as int),
            },
    {
        if known_to_calendar(secs, nanos) {
            Some(Timestamp { secs, nanos })
        } else {
            None
        }
    }

    /// The seconds since 1970.
    pub fn timestamp(&self) -> (r: i64)
        ensures
            r == self@.0,
    {
        self.secs
    }

    /// The nanoseconds within the second.
    pub fn timestamp_subsec_nanos(&self) -> (r: u32)
        ensures
            r == self@.1,
    {
        self.nanos
    }

    /// The RFC 3339 text for this point in time.
    pub fn to_rfc3339(&self) -> (r: String)
        ensures
            r@ == rfc3339_text(self@.0, self@.1),
            has_common_year(self@.0) ==> rfc3339_time(r@) == Ok::<(int, int), Seq<char>>(self@),
    {
        proof {
            use_type_invariant(self);
        }
        format_rfc3339(self.secs, self.nanos)
    }

    /// The point in time that an RFC 3339 text stands for.
    pub fn parse_rfc3339(text: &str) -> (r: Result<Timestamp, String>)
        ensures
            time_view(r) == rfc3339_time(text@),
    {
        match parse_rfc3339_parts(text) {
            Ok((secs, nanos)) => Ok(Timestamp { secs, nanos }),
            Err(e) => Err(e),
        }
    }

    /// Tells whether this point in time lies before `other`.
    pub fn is_earlier_than(&self, other: &Timestamp) -> (r: bool)
        ensures
            r == is_before(self@, other@),
    {
        self.secs < other.secs || (self.secs == other.secs && self.nanos < other.nanos)
    }
}

/// Points in time are ordered by their seconds and, within a second, by their nanoseconds: one lies
/// before another just where its count of nanoseconds, leap seconds told apart, is smaller.
pub proof fn law_time_goes_by_its_counts(a: (int, int), b: (int, int))
    requires
        0 <= a.1 < 2_000_000_000,
        0 <= b.1 < 2_000_000_000,
    ensures
        is_before(a, b) <==> a.0 * 2_000_000_000 + a.1 < b.0 * 2_000_000_000 + b.1,
{
}

} // verus!
