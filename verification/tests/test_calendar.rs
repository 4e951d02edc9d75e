use pyxirr::calendar::{days_in_month, is_leap_year, Date};

#[test]
fn test_leap_years() {
    assert!(!is_leap_year(1900));
    assert!(is_leap_year(2000));
    assert!(is_leap_year(2004));
    assert!(!is_leap_year(2005));
    assert!(!is_leap_year(2100));
    assert!(is_leap_year(-4));
}

#[test]
fn test_days_in_month() {
    assert_eq!(days_in_month(2020, 2), 29);
    assert_eq!(days_in_month(2019, 2), 28);
    assert_eq!(days_in_month(2019, 4), 30);
    assert_eq!(days_in_month(2019, 12), 31);
}

#[test]
fn test_calendar_dates() {
    assert!(Date::from_calendar_date(2019, 1, 1).is_some());
    assert!(Date::from_calendar_date(2019, 12, 31).is_some());
    assert!(Date::from_calendar_date(2019, 2, 29).is_none());
    assert!(Date::from_calendar_date(2020, 2, 29).is_some());
    assert!(Date::from_calendar_date(2020, 13, 1).is_none());
    assert!(Date::from_calendar_date(2020, 1, 0).is_none());
    assert!(Date::from_calendar_date(10000, 1, 1).is_none());
    assert!(Date::from_calendar_date(-9999, 1, 1).is_some());
    let d = Date::from_calendar_date(2019, 7, 4).unwrap();
    assert_eq!((d.year(), d.month(), d.day()), (2019, 7, 4));
}

#[test]
fn test_julian_days() {
    assert_eq!(Date::from_calendar_date(-4713, 11, 24).unwrap().to_julian_day(), 0);
    assert_eq!(Date::from_calendar_date(2000, 1, 1).unwrap().to_julian_day(), 2_451_545);
    assert_eq!(Date::from_calendar_date(2019, 1, 1).unwrap().to_julian_day(), 2_458_485);
    assert_eq!(Date::from_calendar_date(2019, 12, 31).unwrap().to_julian_day(), 2_458_849);
    let d = Date::from_julian_day(2_458_849).unwrap();
    assert_eq!((d.year(), d.month(), d.day()), (2019, 12, 31));
    assert!(Date::from_julian_day(i32::MAX).is_none());
}

#[test]
fn test_ordinals() {
    assert_eq!(Date::from_calendar_date(2019, 1, 1).unwrap().ordinal(), 1);
    assert_eq!(Date::from_calendar_date(2019, 12, 31).unwrap().ordinal(), 365);
    assert_eq!(Date::from_calendar_date(2020, 3, 1).unwrap().ordinal(), 61);
}

#[test]
fn test_next_day() {
    let next = |y, m, d| {
        let n = Date::from_calendar_date(y, m, d).unwrap().next_day().unwrap();
        (n.year(), n.month(), n.day())
    };
    assert_eq!(next(2019, 1, 1), (2019, 1, 2));
    assert_eq!(next(2019, 1, 31), (2019, 2, 1));
    assert_eq!(next(2019, 12, 31), (2020, 1, 1));
    assert_eq!(next(2020, 2, 28), (2020, 2, 29));
    assert!(Date::from_calendar_date(9999, 12, 31).unwrap().next_day().is_none());
}

#[test]
fn test_date_order() {
    let a = Date::from_calendar_date(2019, 12, 31).unwrap();
    let b = Date::from_calendar_date(2020, 1, 1).unwrap();
    assert!(a.le(&b));
    assert!(!b.le(&a));
    assert!(a.le(&a));
}
