use pyxirr::date_like::DateLike;
use pyxirr::day_count::{Basis, DayCount};
use pyxirr::scheduled::{day_count_factor, span_year_fraction};

fn dates() -> Vec<DateLike> {
    ["2015-06-11", "2015-07-21", "2018-06-10", "2015-10-17"]
        .iter()
        .map(|s| DateLike::from_str(s).unwrap())
        .collect()
}

#[test]
fn test_day_count_factor_default() {
    let factors = day_count_factor(&dates(), None);
    let days: Vec<i32> = factors.iter().map(|f| f.days).collect();
    assert_eq!(days, vec![0, 40, 1095, 128]);
    assert!(factors.iter().all(|f| f.basis == Basis::Days365 && f.leap_days == 0));
}

#[test]
fn test_day_count_factor_thirty_360() {
    let factors = day_count_factor(&dates(), Some(DayCount::THIRTY_E_360));
    let days: Vec<i32> = factors.iter().map(|f| f.days).collect();
    assert_eq!(days, vec![0, 40, 1079, 126]);
    assert!(factors.iter().all(|f| f.basis == Basis::Days360));
}

#[test]
fn test_span_year_fraction() {
    let f = span_year_fraction(&dates(), None);
    assert_eq!((f.days, f.basis, f.leap_days), (1095, Basis::Days365, 0));
    let f = span_year_fraction(&dates(), Some(DayCount::ACT_ACT_ISDA));
    assert_eq!(f.days + f.leap_days, 1095);
    assert_eq!(f.leap_days, 366);
}
