//! Calendar dates of the proleptic Gregorian calendar, as the `time` crate
//! represents them, held as plain values: a year, a month and a day.
//!
//! Every computation that `time` performs on a date (validity, leap years,
//! ordinal days, Julian day numbers, the next calendar day) is made by calling
//! `time`; the contracts below state what those calls return.
use vstd::prelude::*;

verus! {

/// The smallest year that `time` represents (without its `large-dates` feature).
pub const MIN_YEAR: i32 = -9999;

/// The largest year that `time` represents (without its `large-dates` feature).
pub const MAX_YEAR: i32 = 9999;

/// Leap years of the proleptic Gregorian calendar (astronomical year numbering).
pub open spec fn is_leap_year_spec(year: int) -> bool {
    year % 4 == 0 && (year % 100 != 0 || year % 400 == 0)
}

/// Number of days of a year.
pub open spec fn days_in_year_spec(year: int) -> int {
    if is_leap_year_spec(year) {
        366
    } else {
        365
    }
}

/// Number of days of a month (1 = January, ..., 12 = December).
pub open spec fn days_in_month_spec(year: int, month: int) -> int {
    if month == 2 {
        if is_leap_year_spec(year) {
            29
        } else {
            28
        }
    } else if month == 4 || month == 6 || month == 9 || month == 11 {
        30
    } else {
        31
    }
}

/// A year, month and day that name a date `time` can represent.
pub open spec fn valid_date(d: (int, int, int)) -> bool {
    &&& MIN_YEAR <= d.0 <= MAX_YEAR
    &&& 1 <= d.1 <= 12
    &&& 1 <= d.2 <= days_in_month_spec(d.0, d.1)
}

/// Number of days of the months of `year` before `month`.
pub open spec fn days_before_month(year: int, month: int) -> int {
    let common: int = if month <= 1 {
        0
    } else if month == 2 {
        31
    } else if month == 3 {
        59
    } else if month == 4 {
        90
    } else if month == 5 {
        120
    } else if month == 6 {
        151
    } else if month == 7 {
        181
    } else if month == 8 {
        212
    } else if month == 9 {
        243
    } else if month == 10 {
        273
    } else if month == 11 {
        304
    } else {
        334
    };
    if is_leap_year_spec(year) && month > 2 {
        common + 1
    } else {
        common
    }
}

/// Day of the year, counted from 1 on January 1st.
pub open spec fn ordinal_spec(d: (int, int, int)) -> int {
    days_before_month(d.0, d.1) + d.2
}

/// Number of days before January 1st of `year`, counted from a fixed origin
/// (the formula that `time` uses for Julian day numbers).
pub open spec fn days_before_year(year: int) -> int {
    let adj = year + 999_999;
    (1461 * adj) / 4 - adj / 100 + (adj / 100) / 4
}

/// The Julian day number of a date.
pub open spec fn julian_day_spec(d: (int, int, int)) -> int {
    days_before_year(d.0) + ordinal_spec(d) - 363_521_075
}

/// The date that follows `d` in the calendar.
pub open spec fn next_day_spec(d: (int, int, int)) -> (int, int, int) {
    if d.2 < days_in_month_spec(d.0, d.1) {
        (d.0, d.1, d.2 + 1)
    } else if d.1 < 12 {
        (d.0, d.1 + 1, 1)
    } else {
        (d.0 + 1, 1, 1)
    }
}

/// Chronological order of dates, as `time` orders them.
pub open spec fn date_le(a: (int, int, int), b: (int, int, int)) -> bool {
    a.0 < b.0 || (a.0 == b.0 && (a.1 < b.1 || (a.1 == b.1 && a.2 <= b.2)))
}

/// The Julian day number of the first representable date.
pub open spec fn min_julian_day() -> int {
    julian_day_spec((MIN_YEAR as int, 1, 1))
}

/// The Julian day number of the last representable date.
pub open spec fn max_julian_day() -> int {
    julian_day_spec((MAX_YEAR as int, 12, 31))
}

/// Calls `time::util::is_leap_year`, which returns whether the year is a leap
/// year of the proleptic Gregorian calendar.
#[verifier::external_body]
fn time_is_leap_year(year: i32) -> (r: bool)
    ensures
        r == is_leap_year_spec(year as int),
{
    time::util::is_leap_year(year)
}

/// Calls `time::util::days_in_month`, which returns the length of the month in
/// the given year.
#[verifier::external_body]
fn time_days_in_month(year: i32, month: u8) -> (r: u8)
    requires
        1 <= month <= 12,
    ensures
        r == days_in_month_spec(year as int, month as int),
{
    time::util::days_in_month(time::Month::try_from(month).unwrap(), year)
}

/// Calls `time::Date::from_calendar_date`, which succeeds exactly on the year,
/// month and day of a date between -9999-01-01 and 9999-12-31.
#[verifier::external_body]
fn time_is_calendar_date(year: i32, month: u8, day: u8) -> (r: bool)
    ensures
        r == valid_date((year as int, month as int, day as int)),
{
    match time::Month::try_from(month) {
        Ok(m) => time::Date::from_calendar_date(year, m, day).is_ok(),
        Err(_) => false,
    }
}

/// Calls `time::Date::ordinal`, the day of the year of a date.
#[verifier::external_body]
fn time_ordinal(year: i32, month: u8, day: u8) -> (r: u16)
    requires
        valid_date((year as int, month as int, day as int)),
    ensures
        r == ordinal_spec((year as int, month as int, day as int)),
{
    time::Date::from_calendar_date(year, time::Month::try_from(month).unwrap(), day).unwrap().ordinal()
}

/// Calls `time::Date::to_julian_day`, whose result is the formula of
/// `julian_day_spec`.
#[verifier::external_body]
fn time_julian_day(year: i32, month: u8, day: u8) -> (r: i32)
    requires
        valid_date((year as int, month as int, day as int)),
    ensures
        r == julian_day_spec((year as int, month as int, day as int)),
{
    time::Date::from_calendar_date(year, time::Month::try_from(month).unwrap(), day).unwrap().to_julian_day()
}

/// Calls `time::Date::from_julian_day`, which succeeds exactly on the Julian
/// day numbers of representable dates and returns the date with that number.
#[verifier::external_body]
fn time_from_julian_day(julian_day: i32) -> (r: Option<(i32, u8, u8)>)
    ensures
        r is Some <==> min_julian_day() <= julian_day <= max_julian_day(),
        r matches Some(t) ==> valid_date((t.0 as int, t.1 as int, t.2 as int)) && julian_day_spec(
            (t.0 as int, t.1 as int, t.2 as int),
        ) == julian_day,
{
    match time::Date::from_julian_day(julian_day) {
        Ok(d) => Some((d.year(), d.month() as u8, d.day())),
        Err(_) => None,
    }
}

/// Calls `time::Date::next_day`, which returns the following calendar date, or
/// nothing for the last representable date, 9999-12-31.
#[verifier::external_body]
fn time_next_day(year: i32, month: u8, day: u8) -> (r: Option<(i32, u8, u8)>)
    requires
        valid_date((year as int, month as int, day as int)),
    ensures
        r is None <==> (year == MAX_YEAR && month == 12 && day == 31),
        r matches Some(t) ==> next_day_spec((year as int, month as int, day as int)) == (t.0 as int, t.1 as int, t.2 as int),
{
    match time::Date::from_calendar_date(year, time::Month::try_from(month).unwrap(), day).unwrap().next_day() {
        Some(n) => Some((n.year(), n.month() as u8, n.day())),
        None => None,
    }
}

/// Whether `year` is a leap year.
pub fn is_leap_year(year: i32) -> (r: bool)
    ensures
        r == is_leap_year_spec(year as int),
{
    time_is_leap_year(year)
}

/// Number of days of `month` (1 to 12) in `year`.
pub fn days_in_month(year: i32, month: u8) -> (r: u8)
    requires
        1 <= month <= 12,
    ensures
        r == days_in_month_spec(year as int, month as int),
{
    time_days_in_month(year, month)
}

/// A date of the proleptic Gregorian calendar between -9999-01-01 and
/// 9999-12-31, viewed as the triple (year, month, day).
#[derive(Clone, Copy, Debug, PartialEq, Eq, Hash)]
pub struct Date {
    year: i32,
    month: u8,
    day: u8,
}

impl View for Date {
    type V = (int, int, int);

    closed spec fn view(&self) -> (int, int, int) {
        (self.year as int, self.month as int, self.day as int)
    }
}

impl Date {
    #[verifier::type_invariant]
    spec fn inv(self) -> bool {
        valid_date((self.year as int, self.month as int, self.day as int))
    }

    /// The date of the given year, month (1 to 12) and day, if it exists.
    pub fn from_calendar_date(year: i32, month: u8, day: u8) -> (r: Option<Date>)
        ensures
            r is Some <==> valid_date((year as int, month as int, day as int)),
            r matches Some(d) ==> d@ == (year as int, month as int, day as int),
    {
        if time_is_calendar_date(year, month, day) {
            Some(Date { year, month, day })
        } else {
            None
        }
    }

    /// The date with the given Julian day number, if it is representable.
    pub fn from_julian_day(julian_day: i32) -> (r: Option<Date>)
        ensures
            r is Some <==> min_julian_day() <= julian_day <= max_julian_day(),
            r matches Some(d) ==> valid_date(d@) && julian_day_spec(d@) == julian_day,
    {
        match time_from_julian_day(julian_day) {
            Some(t) => Some(Date { year: t.0, month: t.1, day: t.2 }),
            None => None,
        }
    }

    /// The year.
    pub fn year(&self) -> (r: i32)
        ensures
            r == self@.0,
            valid_date(self@),
    {
        proof {
            use_type_invariant(self);
        }
        self.year
    }

    /// The month, from 1 (January) to 12 (December).
    pub fn month(&self) -> (r: u8)
        ensures
            r == self@.1,
            valid_date(self@),
    {
        proof {
            use_type_invariant(self);
        }
        self.month
    }

    /// The day of the month.
    pub fn day(&self) -> (r: u8)
        ensures
            r == self@.2,
            valid_date(self@),
    {
        proof {
            use_type_invariant(self);
        }
        self.day
    }

    /// The day of the year, from 1 to 366.
    pub fn ordinal(&self) -> (r: u16)
        ensures
            r == ordinal_spec(self@),
            valid_date(self@),
    {
        proof {
            use_type_invariant(self);
        }
        time_ordinal(self.year, self.month, self.day)
    }

    /// The Julian day number.
    pub fn to_julian_day(&self) -> (r: i32)
        ensures
            r == julian_day_spec(self@),
            valid_date(self@),
    {
        proof {
            use_type_invariant(self);
        }
        time_julian_day(self.year, self.month, self.day)
    }

    /// The next calendar date; nothing after 9999-12-31.
    pub fn next_day(&self) -> (r: Option<Date>)
        ensures
            r is None <==> self@ == (MAX_YEAR as int, 12int, 31int),
            r matches Some(n) ==> n@ == next_day_spec(self@),
    {
        proof {
            use_type_invariant(self);
        }
        match time_next_day(self.year, self.month, self.day) {
            Some(t) => Some(Date { year: t.0, month: t.1, day: t.2 }),
            None => None,
        }
    }

    /// Whether the date comes no later than `other`.
    pub fn le(&self, other: &Date) -> (r: bool)
        ensures
            r == date_le(self@, other@),
    {
        self.year < other.year || (self.year == other.year && (self.month < other.month || (
        self.month == other.month && self.day <= other.day)))
    }
}

} // verus!
