//! Calendar timestamps and their RFC 3339 text.

use vstd::prelude::*;

verus! {

/// The first year that a timestamp can hold.
pub const MIN_YEAR: i32 = -262143;

/// The last year that a timestamp can hold.
pub const MAX_YEAR: i32 = 262142;

/// Whether a year of the proleptic Gregorian calendar has a 29th of February.
pub open spec fn is_leap_year(year: int) -> bool {
    year % 4 == 0 && (year % 100 != 0 || year % 400 == 0)
}

/// The number of days of a month, 0 for a month that does not exist.
pub open spec fn days_in_month(year: int, month: int) -> int {
    if month == 2 {
        if is_leap_year(year) {
            29
        } else {
            28
        }
    } else if month == 4 || month == 6 || month == 9 || month == 11 {
        30
    } else if 1 <= month <= 12 {
        31
    } else {
        0
    }
}

/// A date and a time of day without a time zone, as plain numbers.
pub struct TimestampView {
    pub year: int,
    pub month: int,
    pub day: int,
    pub hour: int,
    pub minute: int,
    pub second: int,
    pub nanosecond: int,
}

impl TimestampView {
    /// The day exists in the calendar and the time exists in a day. A leap second
    /// is written as second 59 with a nanosecond of 1,000,000,000 or more.
    pub open spec fn valid(self) -> bool {
        &&& MIN_YEAR <= self.year <= MAX_YEAR
        &&& 1 <= self.month <= 12
        &&& 1 <= self.day <= days_in_month(self.year, self.month)
        &&& 0 <= self.hour < 24
        &&& 0 <= self.minute < 60
        &&& 0 <= self.second < 60
        &&& 0 <= self.nanosecond < 2_000_000_000
        &&& (self.nanosecond >= 1_000_000_000 ==> self.second == 59)
    }
}

/// The character of a decimal digit.
pub open spec fn digit_char(n: int) -> char {
    (('0' as u8) + n) as char
}

/// A number below 100 on two digits.
pub open spec fn two_digits(n: int) -> Seq<char> {
    seq![digit_char(n / 10), digit_char(n % 10)]
}

/// The decimal digits of a number, without leading zeros.
pub open spec fn decimal(n: nat) -> Seq<char>
    decreases n,
{
    if n < 10 {
        seq![digit_char(n as int)]
    } else {
        decimal(n / 10).push(digit_char((n % 10) as int))
    }
}

/// The decimal digits of a number, with zeros in front up to a width.
pub open spec fn zero_padded(n: nat, width: nat) -> Seq<char> {
    let digits = decimal(n);
    if digits.len() >= width {
        digits
    } else {
        Seq::new((width - digits.len()) as nat, |i: int| '0') + digits
    }
}

/// The year of an RFC 3339 date: four digits from 0 to 9999, else a sign and at
/// least four digits.
pub open spec fn year_text(year: int) -> Seq<char> {
    if 0 <= year <= 9999 {
        two_digits(year / 100) + two_digits(year % 100)
    } else if year < 0 {
        seq!['-'] + zero_padded((-year) as nat, 4)
    } else {
        seq!['+'] + zero_padded(year as nat, 4)
    }
}

/// The fraction of a second: nothing for a whole second, else the shortest of
/// three, six or nine digits that loses nothing.
pub open spec fn fraction_text(nanosecond: int) -> Seq<char> {
    if nanosecond == 0 {
        Seq::empty()
    } else if nanosecond % 1_000_000 == 0 {
        seq!['.'] + zero_padded((nanosecond / 1_000_000) as nat, 3)
    } else if nanosecond % 1_000 == 0 {
        seq!['.'] + zero_padded((nanosecond / 1_000) as nat, 6)
    } else {
        seq!['.'] + zero_padded(nanosecond as nat, 9)
    }
}

/// The RFC 3339 text of a timestamp taken as UTC, such as
/// `2014-07-08T09:10:11+00:00`. A leap second is printed as second 60.
pub open spec fn rfc3339_utc_text(t: TimestampView) -> Seq<char> {
    let leap = t.nanosecond >= 1_000_000_000;
    let second = if leap { t.second + 1 } else { t.second };
    let nanosecond = if leap { t.nanosecond - 1_000_000_000 } else { t.nanosecond };
    year_text(t.year) + seq!['-'] + two_digits(t.month) + seq!['-'] + two_digits(t.day)
        + seq!['T'] + two_digits(t.hour) + seq![':'] + two_digits(t.minute) + seq![':']
        + two_digits(second) + fraction_text(nanosecond) + seq!['+', '0', '0', ':', '0', '0']
}

/// A point in time as the backend stores it: a calendar date and a time of
/// day, without a time zone.
#[derive(Clone, Copy, Debug, PartialEq, Eq)]
pub struct Timestamp {
    year: i32,
    month: u32,
    day: u32,
    hour: u32,
    minute: u32,
    second: u32,
    nanosecond: u32,
}

impl View for Timestamp {
    type V = TimestampView;

    closed spec fn view(&self) -> TimestampView {
        TimestampView {
            year: self.year as int,
            month: self.month as int,
            day: self.day as int,
            hour: self.hour as int,
            minute: self.minute as int,
            second: self.second as int,
            nanosecond: self.nanosecond as int,
        }
    }
}

/// Formats a valid timestamp with chrono: `NaiveDate::from_ymd_opt` and
/// `NaiveDate::and_hms_nano_opt` build the date and time, which both accept
/// exactly the valid ones, `Utc.from_utc_datetime` takes it as UTC and
/// `DateTime::to_rfc3339` prints it with the offset `+00:00`.
#[verifier::external_body]
fn format_rfc3339_utc(t: &Timestamp) -> (r: Option<String>)
    ensures
        r is Some <==> t@.valid(),
        r matches Some(s) ==> s@ == rfc3339_utc_text(t@),
{
    let date = chrono::NaiveDate::from_ymd_opt(t.year, t.month, t.day)?;
    let naive = date.and_hms_nano_opt(t.hour, t.minute, t.second, t.nanosecond)?;
    Some(chrono::TimeZone::from_utc_datetime(&chrono::Utc, &naive).to_rfc3339())
}

impl Timestamp {
    #[verifier::type_invariant]
    closed spec fn well_formed(self) -> bool {
        self@.valid()
    }

    /// The timestamp of a date and a time, or `None` where the day or the time
    /// does not exist.
    pub fn new(
        year: i32,
        month: u32,
        day: u32,
        hour: u32,
        minute: u32,
        second: u32,
        nanosecond: u32,
    ) -> (r: Option<Timestamp>)
        ensures
            r is Some <==> (TimestampView {
                year: year as int,
                month: month as int,
                day: day as int,
                hour: hour as int,
                minute: minute as int,
                second: second as int,
                nanosecond: nanosecond as int,
            }).valid(),
            r matches Some(t) ==> t@ == (TimestampView {
                year: year as int,
                month: month as int,
                day: day as int,
                hour: hour as int,
                minute: minute as int,
                second: second as int,
                nanosecond: nanosecond as int,
            }),
    {
        if year < MIN_YEAR || year > MAX_YEAR || month < 1 || month > 12 || day < 1 {
            return None;
        }
        let leap = year % 4 == 0 && (year % 100 != 0 || year % 400 == 0);
        let days: u32 = if month == 2 {
            if leap {
                29
            } else {
                28
            }
        } else if month == 4 || month == 6 || month == 9 || month == 11 {
            30
        } else {
            31
        };
        if day > days || hour >= 24 || minute >= 60 || second >= 60 || nanosecond
            >= 2_000_000_000 || (nanosecond >= 1_000_000_000 && second != 59) {
            return None;
        }
        Some(Timestamp { year, month, day, hour, minute, second, nanosecond })
    }

    /// The RFC 3339 text of the timestamp, taken as UTC.
    pub fn to_rfc3339(&self) -> (r: String)
        ensures
            r@ == rfc3339_utc_text(self@),
    {
        proof {
            use_type_invariant(self);
        }
        match format_rfc3339_utc(self) {
            Some(s) => s,
            // Not taken: every timestamp is valid.
            None => String::new(),
        }
    }
}

} // verus!
