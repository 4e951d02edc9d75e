//! The day counts of cash flows at irregular dates: each payment's year
//! fraction from the earliest payment date, and the span of all payments.
use vstd::prelude::*;

use crate::calendar::date_le;
use crate::date_like::{earliest, latest, DateLike};
use crate::day_count::{days_between_defined, year_fraction, year_fraction_spec, DayCount, YearFraction};

verus! {

/// The convention used when none is given: Actual/365 Fixed.
pub open spec fn day_count_or_default(day_count: Option<DayCount>) -> DayCount {
    match day_count {
        Some(dc) => dc,
        None => DayCount::ACT_365F,
    }
}

/// `m` is the earliest of the dates.
pub open spec fn is_earliest(dates: Seq<DateLike>, m: (int, int, int)) -> bool {
    &&& exists|i: int| 0 <= i < dates.len() && (#[trigger] dates[i])@ == m
    &&& forall|i: int| 0 <= i < dates.len() ==> date_le(m, #[trigger] dates[i]@)
}

/// `m` is the latest of the dates.
pub open spec fn is_latest(dates: Seq<DateLike>, m: (int, int, int)) -> bool {
    &&& exists|i: int| 0 <= i < dates.len() && (#[trigger] dates[i])@ == m
    &&& forall|i: int| 0 <= i < dates.len() ==> date_le(#[trigger] dates[i]@, m)
}

/// A year fraction as the triple that `year_fraction_spec` describes.
pub open spec fn year_fraction_view(y: YearFraction) -> (int, crate::day_count::Basis, int) {
    (y.days as int, y.basis, y.leap_days as int)
}

/// Every date can end a day count under the convention.
pub open spec fn all_defined(dates: Seq<DateLike>, dc: DayCount) -> bool {
    forall|i: int| 0 <= i < dates.len() ==> days_between_defined(#[trigger] dates[i]@, dc)
}

fn default_day_count(day_count: Option<DayCount>) -> (r: DayCount)
    ensures
        r == day_count_or_default(day_count),
{
    match day_count {
        Some(dc) => dc,
        None => DayCount::ACT_365F,
    }
}

/// The year fraction of each date from the earliest date, under the
/// convention given (Actual/365 Fixed by default).
pub fn day_count_factor(dates: &[DateLike], day_count: Option<DayCount>) -> (r: Vec<YearFraction>)
    requires
        dates@.len() > 0,
        all_defined(dates@, day_count_or_default(day_count)),
    ensures
        r@.len() == dates@.len(),
        exists|m: (int, int, int)|
            is_earliest(dates@, m) && forall|i: int|
                0 <= i < dates@.len() ==> year_fraction_view(#[trigger] r@[i]) == year_fraction_spec(
                    m,
                    dates@[i]@,
                    day_count_or_default(day_count),
                ),
{
    let min_date = earliest(dates);
    let dc = default_day_count(day_count);
    let ghost m = min_date@;
    assert(dates@.contains(min_date));
    let mut result: Vec<YearFraction> = Vec::new();
    let mut i: usize = 0;
    while i < dates.len()
        invariant
            dc == day_count_or_default(day_count),
            all_defined(dates@, dc),
            m == min_date@,
            i <= dates@.len(),
            result@.len() == i,
            forall|k: int|
                0 <= k < i ==> year_fraction_view(#[trigger] result@[k]) == year_fraction_spec(
                    m,
                    dates@[k]@,
                    dc,
                ),
        decreases dates@.len() - i,
    {
        assert(days_between_defined(dates@[i as int]@, dc));
        let f = year_fraction(min_date.as_ref(), dates[i].as_ref(), dc);
        result.push(f);
        i = i + 1;
    }
    proof {
        let k = choose|k: int| 0 <= k < dates@.len() && dates@[k] == min_date;
        assert(dates@[k]@ == m);
        assert(is_earliest(dates@, m));
    }
    result
}

/// The year fraction from the earliest to the latest date, under the
/// convention given (Actual/365 Fixed by default).
pub fn span_year_fraction(dates: &[DateLike], day_count: Option<DayCount>) -> (r: YearFraction)
    requires
        dates@.len() > 0,
        all_defined(dates@, day_count_or_default(day_count)),
    ensures
        exists|a: (int, int, int), b: (int, int, int)|
            is_earliest(dates@, a) && is_latest(dates@, b) && year_fraction_view(r)
                == year_fraction_spec(a, b, day_count_or_default(day_count)),
{
    let first = earliest(dates);
    let last = latest(dates);
    let dc = default_day_count(day_count);
    assert(dates@.contains(first));
    assert(dates@.contains(last));
    let ghost k = choose|k: int| 0 <= k < dates@.len() && dates@[k] == last;
    assert(days_between_defined(dates@[k]@, dc));
    let r = year_fraction(first.as_ref(), last.as_ref(), dc);
    proof {
        let j = choose|j: int| 0 <= j < dates@.len() && dates@[j] == first;
        assert(dates@[j]@ == first@);
        assert(dates@[k]@ == last@);
        assert(is_earliest(dates@, first@));
        assert(is_latest(dates@, last@));
    }
    r
}

} // verus!
