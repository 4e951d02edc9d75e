//! Day count conventions: how many days lie between two dates, and over which
//! basis they make a fraction of a year.
use vstd::prelude::*;

use crate::calendar::{
    days_in_month, days_in_month_spec, days_in_year_spec, is_leap_year, is_leap_year_spec,
    julian_day_spec, ordinal_spec, days_before_year, date_le, valid_date, Date, MAX_YEAR, MIN_YEAR,
};

verus! {

/// A day count convention.
#[allow(non_camel_case_types)]
#[derive(Debug, Clone, Copy, PartialEq, Eq, Structural, Hash)]
pub enum DayCount {
    ACT_ACT_ISDA,
    ACT_365F,
    ACT_365_25,
    ACT_364,
    ACT_360,
    THIRTY_360_ISDA,
    THIRTY_E_360,
    THIRTY_E_PLUS_360,
    THIRTY_E_360_ISDA,
    THIRTY_U_360,
    NL_365,
    NL_360,
}

impl Default for DayCount {
    /// Actual/365 Fixed.
    fn default() -> (r: Self)
        ensures
            r == DayCount::ACT_365F,
    {
        DayCount::ACT_365F
    }
}

/// The divisor of a year fraction.
#[derive(Debug, Clone, Copy, PartialEq, Eq, Structural)]
pub enum Basis {
    Days360,
    Days364,
    Days365,
    Days365_25,
}

/// A fraction of a year, worth `days / basis + leap_days / 366`.
#[derive(Debug, Clone, Copy, PartialEq, Eq, Structural)]
pub struct YearFraction {
    pub days: i32,
    pub basis: Basis,
    pub leap_days: i32,
}

// ------------------------------------------------------------------------
// Specifications
// ------------------------------------------------------------------------
/// Actual number of days from `d1` to `d2`.
pub open spec fn act_days(d1: (int, int, int), d2: (int, int, int)) -> int {
    julian_day_spec(d2) - julian_day_spec(d1)
}

/// Number of leap years among the years `y1..=y2`.
pub open spec fn leap_years_between(y1: int, y2: int) -> int
    decreases y2 + 1 - y1,
{
    if y2 < y1 {
        0
    } else {
        leap_years_between(y1, y2 - 1) + if is_leap_year_spec(y2) {
            1int
        } else {
            0int
        }
    }
}

/// The days of `d1..d2` that fall in common years and in leap years, as the
/// Actual/Actual ISDA convention counts them.
pub open spec fn normal_leap_days_spec(d1: (int, int, int), d2: (int, int, int)) -> (int, int) {
    let leap_years = leap_years_between(d1.0, d2.0);
    let normal = (d2.0 - d1.0 - leap_years + 1) * 365;
    let leap = leap_years * 366;
    let (normal, leap) = if is_leap_year_spec(d1.0) {
        (normal, leap - (ordinal_spec(d1) - 1))
    } else {
        (normal - (ordinal_spec(d1) - 1), leap)
    };
    if is_leap_year_spec(d2.0) {
        (normal, leap - (366 - ordinal_spec(d2) + 1))
    } else {
        (normal - (365 - ordinal_spec(d2) + 1), leap)
    }
}

/// The number of February 29ths that the "no leap year" conventions remove.
pub open spec fn leap_days_between_spec(d1: (int, int, int), d2: (int, int, int)) -> int {
    leap_years_between(d1.0, d2.0) - (if is_leap_year_spec(d1.0) && d1.1 > 2 {
        1int
    } else {
        0int
    }) - (if is_leap_year_spec(d2.0) && ordinal_spec(d2) < 60 {
        1int
    } else {
        0int
    })
}

/// Days of the "no leap year" conventions (NL/365, NL/360).
pub open spec fn nl_days(d1: (int, int, int), d2: (int, int, int)) -> int {
    act_days(d1, d2) - leap_days_between_spec(d1, d2)
}

/// The 30/360 day count once the days of the month have been adjusted.
pub open spec fn thirty_360(d1: (int, int, int), d2: (int, int, int), day1: int, day2: int) -> int {
    360 * (d2.0 - d1.0) + 30 * (d2.1 - d1.1) + (day2 - day1)
}

/// A day of the month capped at 30.
pub open spec fn cap30_spec(day: int) -> int {
    if day < 30 {
        day
    } else {
        30
    }
}

/// The last day of a month.
pub open spec fn is_last_day_of_month_spec(d: (int, int, int)) -> bool {
    d.2 == days_in_month_spec(d.0, d.1)
}

/// The last day of February.
pub open spec fn is_last_day_of_feb_spec(d: (int, int, int)) -> bool {
    d.1 == 2 && is_last_day_of_month_spec(d)
}

/// 30/360 ISDA (bond basis): day 31 becomes 30; day 31 of the end date too
/// when the start day became 30.
pub open spec fn thirty_360_isda_days(d1: (int, int, int), d2: (int, int, int)) -> int {
    let day1 = cap30_spec(d1.2);
    let day2 = if day1 == 30 {
        cap30_spec(d2.2)
    } else {
        d2.2
    };
    thirty_360(d1, d2, day1, day2)
}

/// 30E/360 (Eurobond basis): days 31 become 30.
pub open spec fn thirty_e_360_days(d1: (int, int, int), d2: (int, int, int)) -> int {
    thirty_360(d1, d2, cap30_spec(d1.2), cap30_spec(d2.2))
}

/// 30E/360 ISDA: days 31 and the last day of February become 30.
pub open spec fn thirty_e_360_isda_days(d1: (int, int, int), d2: (int, int, int)) -> int {
    let day1 = if is_last_day_of_feb_spec(d1) {
        30
    } else {
        cap30_spec(d1.2)
    };
    let day2 = if is_last_day_of_feb_spec(d2) {
        30
    } else {
        cap30_spec(d2.2)
    };
    thirty_360(d1, d2, day1, day2)
}

/// 30E+/360: a start day 31 becomes 30; an end day 31 becomes the first day
/// of the next month, which counts as the end day 31 itself.
pub open spec fn thirty_e_plus_360_days(d1: (int, int, int), d2: (int, int, int)) -> int {
    thirty_360(d1, d2, cap30_spec(d1.2), d2.2)
}

/// 30U/360 (30/360 US): the last day of February as start day becomes 30, and
/// so does the end day when both dates are the last day of February; day 31
/// becomes 30 as in 30/360 ISDA.
pub open spec fn thirty_u_360_days(d1: (int, int, int), d2: (int, int, int)) -> int {
    let day1 = if is_last_day_of_feb_spec(d1) {
        30
    } else {
        cap30_spec(d1.2)
    };
    let day2 = if is_last_day_of_feb_spec(d1) && is_last_day_of_feb_spec(d2) {
        30
    } else if day1 == 30 {
        cap30_spec(d2.2)
    } else {
        d2.2
    };
    thirty_360(d1, d2, day1, day2)
}

/// Days between two dates under a day count convention.
pub open spec fn days_between_spec(d1: (int, int, int), d2: (int, int, int), dc: DayCount) -> int {
    match dc {
        DayCount::ACT_ACT_ISDA | DayCount::ACT_365F | DayCount::ACT_365_25 | DayCount::ACT_364
        | DayCount::ACT_360 => act_days(d1, d2),
        DayCount::THIRTY_360_ISDA => thirty_360_isda_days(d1, d2),
        DayCount::THIRTY_E_360 => thirty_e_360_days(d1, d2),
        DayCount::THIRTY_E_PLUS_360 => thirty_e_plus_360_days(d1, d2),
        DayCount::THIRTY_E_360_ISDA => thirty_e_360_isda_days(d1, d2),
        DayCount::THIRTY_U_360 => thirty_u_360_days(d1, d2),
        DayCount::NL_365 | DayCount::NL_360 => nl_days(d1, d2),
    }
}

/// The divisor of the year fraction of a convention (Actual/Actual ISDA divides
/// its days in common years by 365 and those in leap years by 366).
pub open spec fn basis_spec(dc: DayCount) -> Basis {
    match dc {
        DayCount::ACT_ACT_ISDA | DayCount::ACT_365F | DayCount::NL_365 => Basis::Days365,
        DayCount::ACT_365_25 => Basis::Days365_25,
        DayCount::ACT_364 => Basis::Days364,
        _ => Basis::Days360,
    }
}

/// The year fraction between two dates, as (days, basis, days in leap years).
pub open spec fn year_fraction_spec(d1: (int, int, int), d2: (int, int, int), dc: DayCount) -> (
    int,
    Basis,
    int,
) {
    match dc {
        DayCount::ACT_ACT_ISDA => (
            normal_leap_days_spec(d1, d2).0,
            Basis::Days365,
            normal_leap_days_spec(d1, d2).1,
        ),
        _ => (days_between_spec(d1, d2, dc), basis_spec(dc), 0),
    }
}

/// What `days_between` cannot compute: 30E+/360 moves an end date on the 31st
/// to the next day, and 9999-12-31 has none.
pub open spec fn days_between_defined(d2: (int, int, int), dc: DayCount) -> bool {
    !(dc == DayCount::THIRTY_E_PLUS_360 && d2 == (MAX_YEAR as int, 12int, 31int))
}

// ------------------------------------------------------------------------
// Lemmas
// ------------------------------------------------------------------------
/// Julian day numbers of representable dates lie in a range that fits `i32`.
pub proof fn lemma_julian_day_bounds(d: (int, int, int))
    requires
        valid_date(d),
    ensures
        -2_000_000 <= julian_day_spec(d) <= 6_000_000,
        1 <= ordinal_spec(d) <= days_in_year_spec(d.0),
{
}

proof fn lemma_leap_years_between_bounds(y1: int, y2: int)
    ensures
        0 <= leap_years_between(y1, y2),
        y1 <= y2 ==> leap_years_between(y1, y2) <= y2 - y1 + 1,
        y2 < y1 ==> leap_years_between(y1, y2) == 0,
    decreases y2 + 1 - y1,
{
    if y2 >= y1 {
        lemma_leap_years_between_bounds(y1, y2 - 1);
    }
}

proof fn lemma_floor_step(a: int, k: int)
    requires
        a >= 0,
        k > 0,
    ensures
        (a + 1) / k - a / k == (if (a + 1) % k == 0 {
            1int
        } else {
            0int
        }),
{
    vstd::arithmetic::div_mod::lemma_fundamental_div_mod(a, k);
    vstd::arithmetic::div_mod::lemma_fundamental_div_mod(a + 1, k);
    vstd::arithmetic::div_mod::lemma_mod_bound(a, k);
    vstd::arithmetic::div_mod::lemma_mod_bound(a + 1, k);
    let q = (a + 1) / k;
    let p = a / k;
    let r = a % k;
    if (a + 1) % k == 0 {
        assert(a == (q - 1) * k + (k - 1)) by (nonlinear_arith)
            requires
                a + 1 == k * q + 0,
        ;
        vstd::arithmetic::div_mod::lemma_fundamental_div_mod_converse_div(a, k, q - 1, k - 1);
    } else {
        if r == k - 1 {
            assert(a + 1 == (p + 1) * k + 0) by (nonlinear_arith)
                requires
                    a == k * p + r,
                    r == k - 1,
            ;
            vstd::arithmetic::div_mod::lemma_fundamental_div_mod_converse_mod(a + 1, k, p + 1, 0);
        }
        assert(a + 1 == p * k + (r + 1)) by (nonlinear_arith)
            requires
                a == k * p + r,
        ;
        vstd::arithmetic::div_mod::lemma_fundamental_div_mod_converse_div(a + 1, k, p, r + 1);
    }
}

/// Each year adds its own number of days to the count of days before a year.
#[verifier::spinoff_prover]
proof fn lemma_days_before_year_step(year: int)
    requires
        year >= -999_999,
    ensures
        days_before_year(year + 1) - days_before_year(year) == days_in_year_spec(year),
{
    let adj = year + 999_999;
    assert((1461 * (adj + 1)) / 4 == 365 * (adj + 1) + (adj + 1) / 4);
    assert((1461 * adj) / 4 == 365 * adj + adj / 4);
    lemma_floor_step(adj, 4);
    lemma_floor_step(adj, 100);
    assert((adj / 100) / 4 == adj / 400) by {
        vstd::arithmetic::div_mod::lemma_div_denominator(adj, 100, 4);
    }
    assert(((adj + 1) / 100) / 4 == (adj + 1) / 400) by {
        vstd::arithmetic::div_mod::lemma_div_denominator(adj + 1, 100, 4);
    }
    lemma_floor_step(adj, 400);
    assert((adj + 1) % 4 == year % 4);
    assert((adj + 1) % 100 == year % 100);
    assert((adj + 1) % 400 == year % 400);
}

/// The years `y1..=y2` hold `365 * (number of years) + (number of leap years)` days.
proof fn lemma_days_of_years(y1: int, y2: int)
    requires
        y1 >= -999_999,
        y1 <= y2 + 1,
    ensures
        365 * (y2 - y1 + 1) + leap_years_between(y1, y2) == days_before_year(y2 + 1)
            - days_before_year(y1),
    decreases y2 + 1 - y1,
{
    if y2 >= y1 {
        lemma_days_of_years(y1, y2 - 1);
        lemma_days_before_year_step(y2);
    }
}

/// The divisor of each convention's year fraction: 360 for Actual/360, the
/// 30/360 conventions and NL/360; 365 for Actual/365 Fixed, NL/365 and the
/// common-year days of Actual/Actual ISDA; 364 for Actual/364; 365.25 for
/// Actual/365.25. Every convention but Actual/Actual ISDA divides its own day
/// count and has no leap-year part.
pub proof fn law_year_fraction_bases(d1: (int, int, int), d2: (int, int, int), dc: DayCount)
    ensures
        year_fraction_spec(d1, d2, DayCount::ACT_ACT_ISDA).1 == Basis::Days365,
        year_fraction_spec(d1, d2, DayCount::ACT_365F).1 == Basis::Days365,
        year_fraction_spec(d1, d2, DayCount::ACT_365_25).1 == Basis::Days365_25,
        year_fraction_spec(d1, d2, DayCount::ACT_364).1 == Basis::Days364,
        year_fraction_spec(d1, d2, DayCount::ACT_360).1 == Basis::Days360,
        year_fraction_spec(d1, d2, DayCount::THIRTY_360_ISDA).1 == Basis::Days360,
        year_fraction_spec(d1, d2, DayCount::THIRTY_E_360).1 == Basis::Days360,
        year_fraction_spec(d1, d2, DayCount::THIRTY_E_PLUS_360).1 == Basis::Days360,
        year_fraction_spec(d1, d2, DayCount::THIRTY_E_360_ISDA).1 == Basis::Days360,
        year_fraction_spec(d1, d2, DayCount::THIRTY_U_360).1 == Basis::Days360,
        year_fraction_spec(d1, d2, DayCount::NL_365).1 == Basis::Days365,
        year_fraction_spec(d1, d2, DayCount::NL_360).1 == Basis::Days360,
        basis_spec(DayCount::ACT_ACT_ISDA) == Basis::Days365,
        basis_spec(DayCount::ACT_365F) == Basis::Days365,
        basis_spec(DayCount::ACT_365_25) == Basis::Days365_25,
        basis_spec(DayCount::ACT_364) == Basis::Days364,
        basis_spec(DayCount::ACT_360) == Basis::Days360,
        basis_spec(DayCount::THIRTY_360_ISDA) == Basis::Days360,
        basis_spec(DayCount::THIRTY_E_360) == Basis::Days360,
        basis_spec(DayCount::THIRTY_E_PLUS_360) == Basis::Days360,
        basis_spec(DayCount::THIRTY_E_360_ISDA) == Basis::Days360,
        basis_spec(DayCount::THIRTY_U_360) == Basis::Days360,
        basis_spec(DayCount::NL_365) == Basis::Days365,
        basis_spec(DayCount::NL_360) == Basis::Days360,
        dc != DayCount::ACT_ACT_ISDA ==> year_fraction_spec(d1, d2, dc).0 == days_between_spec(
            d1,
            d2,
            dc,
        ) && year_fraction_spec(d1, d2, dc).2 == 0,
{
}

/// Actual/Actual ISDA splits the actual days between two dates into the days
/// in common years and the days in leap years: the two parts add up to the
/// actual number of days, for every start date no later than the year after
/// the end date's year.
pub proof fn law_act_act_parts_add_up_to_actual_days(d1: (int, int, int), d2: (int, int, int))
    requires
        valid_date(d1),
        valid_date(d2),
        d1.0 <= d2.0 + 1,
    ensures
        normal_leap_days_spec(d1, d2).0 + normal_leap_days_spec(d1, d2).1 == act_days(d1, d2),
{
    lemma_days_of_years(d1.0, d2.0);
    lemma_days_before_year_step(d2.0);
    let l = leap_years_between(d1.0, d2.0);
    assert((d2.0 - d1.0 - l + 1) * 365 + l * 366 == 365 * (d2.0 - d1.0 + 1) + l) by (nonlinear_arith);
}

/// The actual day count is antisymmetric, is zero from a date to itself and
/// adds up along consecutive intervals.
pub proof fn law_actual_days_are_additive(
    d1: (int, int, int),
    d2: (int, int, int),
    d3: (int, int, int),
)
    ensures
        days_between_spec(d1, d1, DayCount::ACT_365F) == 0,
        days_between_spec(d1, d2, DayCount::ACT_365F) == -days_between_spec(
            d2,
            d1,
            DayCount::ACT_365F,
        ),
        days_between_spec(d1, d2, DayCount::ACT_365F) + days_between_spec(
            d2,
            d3,
            DayCount::ACT_365F,
        ) == days_between_spec(d1, d3, DayCount::ACT_365F),
{
}

/// From a date to itself every convention counts zero days, but two: the "no
/// leap year" conventions count -1 from February 29th to itself (they remove
/// that day from an empty interval), and 30E+/360 counts 1 from a 31st to
/// itself (the end date moves to the next day).
pub proof fn law_days_between_a_date_and_itself(d: (int, int, int), dc: DayCount)
    requires
        valid_date(d),
    ensures
        days_between_spec(d, d, dc) == if (dc == DayCount::NL_365 || dc == DayCount::NL_360)
            && d.1 == 2 && d.2 == 29 {
            -1
        } else if dc == DayCount::THIRTY_E_PLUS_360 && d.2 == 31 {
            1
        } else {
            0
        },
{
    reveal_with_fuel(leap_years_between, 2);
}

/// The number of February 29ths `f` of the years `d1.0..=y` with `d1 <= f <= d2`.
pub open spec fn feb29s_up_to(d1: (int, int, int), d2: (int, int, int), y: int) -> int
    decreases y + 1 - d1.0,
{
    if y < d1.0 {
        0
    } else {
        feb29s_up_to(d1, d2, y - 1) + if is_leap_year_spec(y) && date_le(d1, (y, 2, 29))
            && date_le((y, 2, 29), d2) {
            1int
        } else {
            0int
        }
    }
}

/// The number of February 29ths from `d1` to `d2`, both included.
pub open spec fn feb29s_between(d1: (int, int, int), d2: (int, int, int)) -> int {
    feb29s_up_to(d1, d2, d2.0)
}

proof fn lemma_feb29s_up_to(d1: (int, int, int), d2: (int, int, int), y: int)
    requires
        valid_date(d1),
        valid_date(d2),
        date_le(d1, d2),
        d1.0 <= y <= d2.0,
    ensures
        feb29s_up_to(d1, d2, y) == leap_years_between(d1.0, y) - (if is_leap_year_spec(d1.0)
            && d1.1 > 2 {
            1int
        } else {
            0int
        }) - (if y == d2.0 && is_leap_year_spec(d2.0) && ordinal_spec(d2) < 60 {
            1int
        } else {
            0int
        }),
    decreases y - d1.0,
{
    if y > d1.0 {
        lemma_feb29s_up_to(d1, d2, y - 1);
    } else {
        assert(feb29s_up_to(d1, d2, y - 1) == 0);
        assert(leap_years_between(d1.0, y - 1) == 0);
    }
}

/// The "no leap year" conventions (NL/365, NL/360) count the actual days
/// minus the February 29ths from the start date to the end date, both
/// included, for every start date no later than the end date.
pub proof fn law_no_leap_days_remove_feb_29ths(d1: (int, int, int), d2: (int, int, int))
    requires
        valid_date(d1),
        valid_date(d2),
        date_le(d1, d2),
    ensures
        days_between_spec(d1, d2, DayCount::NL_365) == act_days(d1, d2) - feb29s_between(d1, d2),
        days_between_spec(d1, d2, DayCount::NL_360) == act_days(d1, d2) - feb29s_between(d1, d2),
{
    lemma_feb29s_up_to(d1, d2, d2.0);
}

// ------------------------------------------------------------------------
// Executable functions
// ------------------------------------------------------------------------
fn days_between_act(d1: &Date, d2: &Date) -> (r: i32)
    ensures
        r == act_days(d1@, d2@),
{
    let j1 = d1.to_julian_day();
    let j2 = d2.to_julian_day();
    proof {
        lemma_julian_day_bounds(d1@);
        lemma_julian_day_bounds(d2@);
    }
    j2 - j1
}

/// The number of common years and of leap years among the years of `d1`
/// through the year of `d2`.
fn normal_leap_years(d1: &Date, d2: &Date) -> (r: (i32, i32))
    ensures
        r.1 == leap_years_between(d1@.0, d2@.0),
        r.0 == d2@.0 - d1@.0 - r.1 + 1,
{
    let y1 = d1.year();
    let y2 = d2.year();
    let mut leap_years: i32 = 0;
    let mut y: i32 = y1;
    while y <= y2
        invariant
            MIN_YEAR <= y1 <= y <= MAX_YEAR + 1,
            y2 <= MAX_YEAR,
            y <= y2 + 1 || y == y1,
            leap_years == leap_years_between(y1 as int, y - 1),
            0 <= leap_years <= y - y1,
        decreases y2 + 1 - y,
    {
        proof {
            lemma_leap_years_between_bounds(y1 as int, y as int);
        }
        if is_leap_year(y) {
            leap_years = leap_years + 1;
        }
        y = y + 1;
    }
    proof {
        if y2 < y1 {
            lemma_leap_years_between_bounds(y1 as int, y2 as int);
            lemma_leap_years_between_bounds(y1 as int, y1 - 1);
        }
    }
    (y2 - y1 - leap_years + 1, leap_years)
}

fn normal_leap_days(d1: &Date, d2: &Date) -> (r: (i32, i32))
    ensures
        (r.0 as int, r.1 as int) == normal_leap_days_spec(d1@, d2@),
{
    let (mut normal, mut leap) = normal_leap_years(d1, d2);
    let o1 = d1.ordinal() as i32;
    let o2 = d2.ordinal() as i32;
    proof {
        lemma_julian_day_bounds(d1@);
        lemma_julian_day_bounds(d2@);
        lemma_leap_years_between_bounds(d1@.0, d2@.0);
    }
    normal = normal * 365;
    leap = leap * 366;
    if is_leap_year(d1.year()) {
        leap = leap - (o1 - 1);
    } else {
        normal = normal - (o1 - 1);
    }
    if is_leap_year(d2.year()) {
        leap = leap - (366 - o2 + 1);
    } else {
        normal = normal - (365 - o2 + 1);
    }
    (normal, leap)
}

fn leap_days_between(d1: &Date, d2: &Date) -> (r: i32)
    ensures
        r == leap_days_between_spec(d1@, d2@),
{
    let (_, mut leap_days) = normal_leap_years(d1, d2);
    proof {
        lemma_leap_years_between_bounds(d1@.0, d2@.0);
    }
    if is_leap_year(d1.year()) && d1.month() > 2 {
        leap_days = leap_days - 1;
    }
    if is_leap_year(d2.year()) && d2.ordinal() < 60 {
        leap_days = leap_days - 1;
    }
    leap_days
}

fn days_between_excluding_leap_days(d1: &Date, d2: &Date) -> (r: i32)
    ensures
        r == nl_days(d1@, d2@),
{
    let act = days_between_act(d1, d2);
    let leap = leap_days_between(d1, d2);
    let _ = d1.year();
    let _ = d2.year();
    proof {
        lemma_leap_years_between_bounds(d1@.0, d2@.0);
        lemma_julian_day_bounds(d1@);
        lemma_julian_day_bounds(d2@);
    }
    act - leap
}

fn cap30(day: u8) -> (r: u8)
    ensures
        r == cap30_spec(day as int),
{
    if day < 30 {
        day
    } else {
        30
    }
}

fn days_between_30_360(d1: &Date, d2: &Date, d1_day: u8, d2_day: u8) -> (r: i32)
    ensures
        r == thirty_360(d1@, d2@, d1_day as int, d2_day as int),
{
    let (y1, y2) = (d1.year(), d2.year());
    let (m1, m2) = (d1.month() as i32, d2.month() as i32);
    360 * (y2 - y1) + 30 * (m2 - m1) + (d2_day as i32 - d1_day as i32)
}

fn days_between_30_360_isda(d1: &Date, d2: &Date) -> (r: i32)
    ensures
        r == thirty_360_isda_days(d1@, d2@),
{
    let d1_day = cap30(d1.day());
    let d2_day = if d1_day >= 30 {
        cap30(d2.day())
    } else {
        d2.day()
    };
    days_between_30_360(d1, d2, d1_day, d2_day)
}

fn days_between_30_e_360(d1: &Date, d2: &Date) -> (r: i32)
    ensures
        r == thirty_e_360_days(d1@, d2@),
{
    let d1_day = cap30(d1.day());
    let d2_day = cap30(d2.day());
    days_between_30_360(d1, d2, d1_day, d2_day)
}

fn days_between_30_e_360_isda(d1: &Date, d2: &Date) -> (r: i32)
    ensures
        r == thirty_e_360_isda_days(d1@, d2@),
{
    let d1_day = if is_last_day_of_feb(d1) {
        30
    } else {
        cap30(d1.day())
    };
    let d2_day = if is_last_day_of_feb(d2) {
        30
    } else {
        cap30(d2.day())
    };
    days_between_30_360(d1, d2, d1_day, d2_day)
}

fn days_between_30_e_plus_360(d1: &Date, d2: &Date) -> (r: i32)
    requires
        d2@ != (MAX_YEAR as int, 12int, 31int),
    ensures
        r == thirty_e_plus_360_days(d1@, d2@),
{
    let d1_day = cap30(d1.day());
    if d2.day() == 31 {
        let next = d2.next_day();
        match next {
            Some(n) => {
                let _ = n.day();
                days_between_30_360(d1, &n, d1_day, n.day())
            },
            None => {
                proof {
                    assert(false);
                }
                0
            },
        }
    } else {
        days_between_30_360(d1, d2, d1_day, d2.day())
    }
}

fn days_between_30_u_360(d1: &Date, d2: &Date) -> (r: i32)
    ensures
        r == thirty_u_360_days(d1@, d2@),
{
    let d1_day = if is_last_day_of_feb(d1) {
        30
    } else {
        cap30(d1.day())
    };
    let d2_day = if is_last_day_of_feb(d1) && is_last_day_of_feb(d2) {
        30
    } else if d1_day >= 30 {
        cap30(d2.day())
    } else {
        d2.day()
    };
    days_between_30_360(d1, d2, d1_day, d2_day)
}

/// Number of days from `d1` to `d2` under the day count convention.
pub fn days_between(d1: &Date, d2: &Date, day_count: DayCount) -> (r: i32)
    requires
        days_between_defined(d2@, day_count),
    ensures
        r == days_between_spec(d1@, d2@, day_count),
{
    match day_count {
        DayCount::ACT_ACT_ISDA | DayCount::ACT_365F | DayCount::ACT_365_25 | DayCount::ACT_364
        | DayCount::ACT_360 => days_between_act(d1, d2),
        DayCount::THIRTY_360_ISDA => days_between_30_360_isda(d1, d2),
        DayCount::THIRTY_E_360 => days_between_30_e_360(d1, d2),
        DayCount::THIRTY_E_PLUS_360 => days_between_30_e_plus_360(d1, d2),
        DayCount::THIRTY_E_360_ISDA => days_between_30_e_360_isda(d1, d2),
        DayCount::THIRTY_U_360 => days_between_30_u_360(d1, d2),
        DayCount::NL_365 => days_between_excluding_leap_days(d1, d2),
        DayCount::NL_360 => days_between_excluding_leap_days(d1, d2),
    }
}

/// The divisor of the year fraction of a convention.
pub fn basis(day_count: DayCount) -> (r: Basis)
    ensures
        r == basis_spec(day_count),
{
    match day_count {
        DayCount::ACT_ACT_ISDA | DayCount::ACT_365F | DayCount::NL_365 => Basis::Days365,
        DayCount::ACT_365_25 => Basis::Days365_25,
        DayCount::ACT_364 => Basis::Days364,
        _ => Basis::Days360,
    }
}

/// The fraction of a year from `d1` to `d2` under the convention, as the
/// whole numbers it is computed from: `days / basis + leap_days / 366`.
pub fn year_fraction(d1: &Date, d2: &Date, day_count: DayCount) -> (r: YearFraction)
    requires
        days_between_defined(d2@, day_count),
    ensures
        (r.days as int, r.basis, r.leap_days as int) == year_fraction_spec(d1@, d2@, day_count),
{
    match day_count {
        DayCount::ACT_ACT_ISDA => {
            let (normal_days, leap_days) = normal_leap_days(d1, d2);
            YearFraction { days: normal_days, basis: Basis::Days365, leap_days }
        },
        _ => YearFraction {
            days: days_between(d1, d2, day_count),
            basis: basis(day_count),
            leap_days: 0,
        },
    }
}

/// Whether `date` is the last day of its month.
pub fn is_last_day_of_month(date: &Date) -> (r: bool)
    ensures
        r == is_last_day_of_month_spec(date@),
{
    date.day() == days_in_month(date.year(), date.month())
}

/// Whether `date` is the last day of February.
pub fn is_last_day_of_feb(date: &Date) -> (r: bool)
    ensures
        r == is_last_day_of_feb_spec(date@),
{
    date.month() == 2 && is_last_day_of_month(date)
}

} // verus!
