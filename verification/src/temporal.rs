//! Instants and calendar dates as plain integers, and their textual forms.

use vstd::prelude::*;

verus! {

/// An instant: nanoseconds since 1970-01-01T00:00:00Z.
#[derive(Debug, Clone, Copy, PartialEq, Eq, Structural)]
pub struct Timestamp {
    pub unix_nanos: i128,
}

/// A calendar date: its Julian day number.
#[derive(Debug, Clone, Copy, PartialEq, Eq, Structural)]
pub struct Date {
    pub julian_day: i32,
}

/// The instant that `text` denotes as an RFC 3339 date-time, if it is one.
pub uninterp spec fn rfc3339_instant(text: Seq<char>) -> Option<i128>;

/// The RFC 3339 text of an instant, where it has one.
pub uninterp spec fn rfc3339_text(unix_nanos: i128) -> Option<Seq<char>>;

/// The Julian day that `text` denotes as an ISO 8601 calendar date, if it is
/// one.
pub uninterp spec fn iso_date_day(text: Seq<char>) -> Option<i32>;

/// The ISO 8601 text of a calendar date, where it has one.
pub uninterp spec fn iso_date_text(julian_day: i32) -> Option<Seq<char>>;

/// Reads the clock through `time::OffsetDateTime::now_utc`. Nothing is
/// claimed of the instant returned.
#[verifier::external_body]
pub(crate) fn clock_now() -> (now: Timestamp) {
    Timestamp { unix_nanos: time::OffsetDateTime::now_utc().unix_timestamp_nanos() }
}

/// `time::OffsetDateTime::parse` with the `Rfc3339` description, followed by
/// `unix_timestamp_nanos`: the instant is a function of the text alone.
#[verifier::external_body]
pub(crate) fn rfc3339_parse(text: &str) -> (r: Option<Timestamp>)
    ensures
        r == match rfc3339_instant(text@) {
            Some(n) => Some(Timestamp { unix_nanos: n }),
            None => None,
        },
{
    match time::OffsetDateTime::parse(text, &time::format_description::well_known::Rfc3339) {
        Ok(t) => Some(Timestamp { unix_nanos: t.unix_timestamp_nanos() }),
        Err(_) => None,
    }
}

/// `time::OffsetDateTime::from_unix_timestamp_nanos` followed by `format`
/// with the `Rfc3339` description; `None` where either refuses (an instant
/// outside the years 0 to 9999). The text is a function of the instant
/// alone.
#[verifier::external_body]
pub(crate) fn rfc3339_format(t: Timestamp) -> (r: Option<String>)
    ensures
        match r {
            Some(s) => rfc3339_text(t.unix_nanos) == Some(s@),
            None => rfc3339_text(t.unix_nanos) is None,
        },
{
    match time::OffsetDateTime::from_unix_timestamp_nanos(t.unix_nanos) {
        Ok(d) => d.format(&time::format_description::well_known::Rfc3339).ok(),
        Err(_) => None,
    }
}

/// `time::Date::parse` with the `Iso8601::DATE` description, followed by
/// `to_julian_day`: the day is a function of the text alone.
#[verifier::external_body]
pub(crate) fn iso_date_parse(text: &str) -> (r: Option<Date>)
    ensures
        r == match iso_date_day(text@) {
            Some(d) => Some(Date { julian_day: d }),
            None => None,
        },
{
    match time::Date::parse(text, &time::format_description::well_known::Iso8601::DATE) {
        Ok(d) => Some(Date { julian_day: d.to_julian_day() }),
        Err(_) => None,
    }
}

/// `time::Date::from_julian_day` followed by `format` with the
/// `Iso8601::DATE` description; `None` where either refuses (a day outside
/// the years 0 to 9999). The text is a function of the day alone.
#[verifier::external_body]
pub(crate) fn iso_date_format(d: Date) -> (r: Option<String>)
    ensures
        match r {
            Some(s) => iso_date_text(d.julian_day) == Some(s@),
            None => iso_date_text(d.julian_day) is None,
        },
{
    match time::Date::from_julian_day(d.julian_day) {
        Ok(x) => x.format(&time::format_description::well_known::Iso8601::DATE).ok(),
        Err(_) => None,
    }
}

/// The text of an instant that reads back as that instant: its RFC 3339
/// text, where it has one and the text stands for the instant.
pub open spec fn instant_text(unix_nanos: i128) -> Option<Seq<char>> {
    match rfc3339_text(unix_nanos) {
        Some(text) => if rfc3339_instant(text) == Some(unix_nanos) {
            Some(text)
        } else {
            None
        },
        None => None,
    }
}

/// The text of a date that reads back as that date: its ISO 8601 text,
/// where it has one and the text stands for the date.
pub open spec fn day_text(julian_day: i32) -> Option<Seq<char>> {
    match iso_date_text(julian_day) {
        Some(text) => if iso_date_day(text) == Some(julian_day) {
            Some(text)
        } else {
            None
        },
        None => None,
    }
}

impl Timestamp {
    /// The present instant.
    pub fn now() -> (now: Timestamp) {
        clock_now()
    }

    /// The instant written as RFC 3339 text.
    pub fn from_rfc3339(text: &str) -> (r: Option<Timestamp>)
        ensures
            r == match rfc3339_instant(text@) {
                Some(n) => Some(Timestamp { unix_nanos: n }),
                None => None,
            },
    {
        rfc3339_parse(text)
    }

    /// This instant as RFC 3339 text. The text is read back before it is
    /// handed out, so `from_rfc3339` gives the same instant for it.
    pub fn to_rfc3339(&self) -> (r: Option<String>)
        ensures
            match r {
                Some(s) => instant_text(self.unix_nanos) == Some(s@),
                None => instant_text(self.unix_nanos) is None,
            },
    {
        match rfc3339_format(*self) {
            Some(text) => match rfc3339_parse(text.as_str()) {
                Some(back) => if back.unix_nanos == self.unix_nanos {
                    Some(text)
                } else {
                    None
                },
                None => None,
            },
            None => None,
        }
    }
}

impl Date {
    /// The date written as an ISO 8601 calendar date.
    pub fn from_iso(text: &str) -> (r: Option<Date>)
        ensures
            r == match iso_date_day(text@) {
                Some(d) => Some(Date { julian_day: d }),
                None => None,
            },
    {
        iso_date_parse(text)
    }

    /// This date as an ISO 8601 calendar date. The text is read back
    /// before it is handed out, so `from_iso` gives the same date for it.
    pub fn to_iso(&self) -> (r: Option<String>)
        ensures
            match r {
                Some(s) => day_text(self.julian_day) == Some(s@),
                None => day_text(self.julian_day) is None,
            },
    {
        match iso_date_format(*self) {
            Some(text) => match iso_date_parse(text.as_str()) {
                Some(back) => if back.julian_day == self.julian_day {
                    Some(text)
                } else {
                    None
                },
                None => None,
            },
            None => None,
        }
    }
}

} // verus!
