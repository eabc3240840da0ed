//! Calendar values as plain numbers, and the few things only the clock and
//! the calendar crate can tell.
use vstd::prelude::*;
use chrono::{Datelike, TimeZone, Timelike};
use std::fmt::Write;

verus! {

pub open spec fn is_leap_year(y: int) -> bool {
    (y % 4 == 0 && y % 100 != 0) || y % 400 == 0
}

/// The number of days in month `m` (1 to 12) of year `y`.
pub open spec fn days_in_month_spec(y: int, m: int) -> int {
    if m == 2 {
        if is_leap_year(y) { 29 } else { 28 }
    } else if m == 4 || m == 6 || m == 9 || m == 11 {
        30
    } else {
        31
    }
}

/// The years that the calendar crate represents.
pub open spec fn year_in_range(y: int) -> bool {
    -262143 <= y <= 262142
}

/// A UTC instant to the second, as its calendar fields.
#[derive(Debug, Clone, Copy, PartialEq, Eq, Structural)]
pub struct UtcDateTime {
    pub year: i32,
    pub month: u32,
    pub day: u32,
    pub hour: u32,
    pub minute: u32,
    pub second: u32,
}

impl UtcDateTime {
    /// Every field names an existing calendar second.
    pub open spec fn wf(&self) -> bool {
        &&& year_in_range(self.year as int)
        &&& 1 <= self.month <= 12
        &&& 1 <= self.day <= days_in_month_spec(self.year as int, self.month as int)
        &&& self.hour < 24
        &&& self.minute < 60
        &&& self.second < 60
    }

    /// The fields from the most to the least significant.
    pub open spec fn key(&self) -> (int, int, int, int, int, int) {
        (
            self.year as int,
            self.month as int,
            self.day as int,
            self.hour as int,
            self.minute as int,
            self.second as int,
        )
    }

    /// `self` is not later than `o`.
    pub open spec fn not_after(&self, o: &UtcDateTime) -> bool {
        let a = self.key();
        let b = o.key();
        a.0 < b.0 || (a.0 == b.0 && (a.1 < b.1 || (a.1 == b.1 && (a.2 < b.2 || (a.2 == b.2 && (
        a.3 < b.3 || (a.3 == b.3 && (a.4 < b.4 || (a.4 == b.4 && a.5 <= b.5)))))))))
    }
}

/// Relies on `SystemTime::now`, `SystemTime::duration_since` and
/// `chrono::DateTime::from_timestamp` with its `Datelike` / `Timelike`
/// accessors: a valid calendar second, which one depends on the clock; none
/// when the clock reads before 1970 or beyond what the calendar crate holds.
#[verifier::external_body]
pub fn utc_now() -> (r: Option<UtcDateTime>)
    ensures
        r matches Some(t) ==> t.wf(),
{
    let d = std::time::SystemTime::now().duration_since(std::time::UNIX_EPOCH).ok()?;
    let n = chrono::DateTime::from_timestamp(i64::try_from(d.as_secs()).ok()?, d.subsec_nanos())?;
    Some(UtcDateTime {
        year: n.year(),
        month: n.month(),
        day: n.day(),
        hour: n.hour(),
        minute: n.minute(),
        second: n.second(),
    })
}

/// The start of 1970, which stands in for a clock that cannot be read.
pub open spec fn unix_epoch() -> UtcDateTime {
    UtcDateTime { year: 1970, month: 1, day: 1, hour: 0, minute: 0, second: 0 }
}

pub fn epoch() -> (r: UtcDateTime)
    ensures
        r == unix_epoch(),
        r.wf(),
{
    UtcDateTime { year: 1970, month: 1, day: 1, hour: 0, minute: 0, second: 0 }
}

/// What `chrono` prints for the given UTC second under a strftime-style
/// format, if it can print it.
pub uninterp spec fn formatted_utc(
    year: int,
    month: int,
    day: int,
    hour: int,
    minute: int,
    second: int,
    fmt: Seq<char>,
) -> Option<Seq<char>>;

/// Relies on `chrono::Utc::with_ymd_and_hms` and `DateTime::format`: the text
/// depends on the fields and the format alone; no text where either is
/// refused.
#[verifier::external_body]
pub fn format_utc(t: &UtcDateTime, fmt: &str) -> (r: Option<String>)
    ensures
        match r {
            Some(s) => formatted_utc(
                t.year as int,
                t.month as int,
                t.day as int,
                t.hour as int,
                t.minute as int,
                t.second as int,
                fmt@,
            ) == Some(s@),
            None => formatted_utc(
                t.year as int,
                t.month as int,
                t.day as int,
                t.hour as int,
                t.minute as int,
                t.second as int,
                fmt@,
            ) is None,
        },
{
    let d = chrono::Utc.with_ymd_and_hms(t.year, t.month, t.day, t.hour, t.minute, t.second);
    let d = d.single()?;
    let mut s = String::new();
    write!(s, "{}", d.format(fmt)).ok()?;
    Some(s)
}

/// The format of the `Date` header.
pub const HTTP_DATE_FORMAT: &'static str = "%a, %d %b %Y %H:%M:%S GMT";

/// The `Date` header text for `t`; empty where the calendar crate prints
/// nothing.
pub open spec fn http_date_of(t: UtcDateTime) -> Seq<char> {
    match formatted_utc(
        t.year as int,
        t.month as int,
        t.day as int,
        t.hour as int,
        t.minute as int,
        t.second as int,
        HTTP_DATE_FORMAT@,
    ) {
        Some(s) => s,
        None => Seq::empty(),
    }
}

/// Writes `t` in the format of the `Date` header.
pub fn http_date(t: &UtcDateTime) -> (r: String)
    ensures
        r@ == http_date_of(*t),
{
    match format_utc(t, HTTP_DATE_FORMAT) {
        Some(s) => s,
        None => String::new(),
    }
}

} // verus!
