use pyxirr::calendar::Date;
use pyxirr::date_like::DateLike;
use pyxirr::day_count::{
    days_between, is_last_day_of_feb, is_last_day_of_month, year_fraction, Basis, DayCount,
    YearFraction,
};

fn date(s: &str) -> Date {
    DateLike::from_str(s).unwrap().into_date()
}

fn as_f64(f: YearFraction) -> f64 {
    let basis = match f.basis {
        Basis::Days360 => 360.0,
        Basis::Days364 => 364.0,
        Basis::Days365 => 365.0,
        Basis::Days365_25 => 365.25,
    };
    f.days as f64 / basis + f.leap_days as f64 / 366.0
}

fn fraction(d1: &str, d2: &str, name: &str) -> f64 {
    let dc = DayCount::from_str(name).unwrap();
    as_f64(year_fraction(&date(d1), &date(d2), dc))
}

fn check_cases(d1: &str, d2: &str, cases: &[(&str, f64)]) {
    for (name, expected) in cases {
        assert_eq!(fraction(d1, d2, name), *expected, "{}", name);
    }
}

#[test]
fn test_example_1() {
    check_cases(
        "2007-12-28",
        "2008-02-28",
        &[
            ("Act/Act", 4. / 365. + 58. / 366.),
            ("Act/365F", 62. / 365.),
            ("Act/360", 62. / 360.),
            ("NL/365", 62. / 365.),
            ("30/360 ISDA", 60. / 360.),
            ("30E/360", 60. / 360.),
            ("30E+/360", 60. / 360.),
            ("30E/360 German", 60. / 360.0),
            ("30/360 US", 60. / 360.),
        ],
    );
}

#[test]
fn test_example_2() {
    check_cases(
        "2007-12-28",
        "2008-02-29",
        &[
            ("Act/Act", 4. / 365. + 59. / 366.),
            ("Act/365F", 63. / 365.),
            ("Act/360", 63. / 360.),
            ("NL/365", 62. / 365.),
            ("30/360 ISDA", 61. / 360.),
            ("30E/360", 61. / 360.),
            ("30E+/360", 61. / 360.),
            ("30E/360 German", 62. / 360.),
            ("30/360 US", 61. / 360.),
        ],
    );
}

#[test]
fn test_example_3() {
    check_cases(
        "2007-10-31",
        "2008-11-30",
        &[
            ("Act/Act", 62. / 365. + 334. / 366.),
            ("Act/365F", 396. / 365.),
            ("Act/360", 396. / 360.),
            ("NL/365", 395. / 365.),
            ("30/360 ISDA", 390. / 360.),
            ("30E/360", 390. / 360.),
            ("30E+/360", 390. / 360.),
            ("30E/360 German", 390. / 360.),
            ("30/360 US", 390. / 360.),
        ],
    );
}

#[test]
fn test_example_4() {
    check_cases(
        "2008-02-01",
        "2009-05-31",
        &[
            ("Act/Act", 335. / 366. + 150. / 365.),
            ("Act/365F", 485. / 365.),
            ("Act/360", 485. / 360.),
            ("NL/365", 484. / 365.),
            ("30/360 ISDA", 480. / 360.),
            ("30E/360", 479. / 360.),
            ("30E+/360", 480. / 360.),
            ("30E/360 German", 479. / 360.),
            ("30/360 US", 480. / 360.),
        ],
    );
}

// Start Date, End Date, 30/360 US, 30E/360, 30E360 ISDA, Actual
const XLERATOR_DB_DATA: [(&str, &str, i32, i32, i32, i32); 22] = [
    ("2007-01-15", "2007-01-30", 15, 15, 15, 15),
    ("2007-01-15", "2007-02-15", 30, 30, 30, 31),
    ("2007-01-15", "2007-07-15", 180, 180, 180, 181),
    ("2007-09-30", "2008-03-31", 180, 180, 180, 183),
    ("2007-09-30", "2007-10-31", 30, 30, 30, 31),
    ("2007-09-30", "2008-09-30", 360, 360, 360, 366),
    ("2007-01-15", "2007-01-31", 16, 15, 15, 16),
    ("2007-01-31", "2007-02-28", 28, 28, 30, 28),
    ("2007-02-28", "2007-03-31", 30, 32, 30, 31),
    ("2006-08-31", "2007-02-28", 178, 178, 180, 181),
    ("2007-02-28", "2007-08-31", 180, 182, 180, 184),
    ("2007-02-14", "2007-02-28", 14, 14, 16, 14),
    ("2007-02-26", "2008-02-29", 363, 363, 364, 368),
    ("2008-02-29", "2009-02-28", 360, 359, 360, 365),
    ("2008-02-29", "2008-03-30", 30, 31, 30, 30),
    ("2008-02-29", "2008-03-31", 30, 31, 30, 31),
    ("2007-02-28", "2007-03-05", 5, 7, 5, 5),
    ("2007-10-31", "2007-11-28", 28, 28, 28, 28),
    ("2007-08-31", "2008-02-29", 179, 179, 180, 182),
    ("2008-02-29", "2008-08-31", 180, 181, 180, 184),
    ("2008-08-31", "2009-02-28", 178, 178, 180, 181),
    ("2009-02-28", "2009-08-31", 180, 182, 180, 184),
];

#[test]
fn test_from_xleratordb() {
    for row in XLERATOR_DB_DATA {
        let d1 = &date(row.0);
        let d2 = &date(row.1);
        assert_eq!(days_between(d1, d2, DayCount::THIRTY_U_360), row.2);
        assert_eq!(days_between(d1, d2, DayCount::THIRTY_E_360), row.3);
        assert_eq!(days_between(d1, d2, DayCount::THIRTY_E_360_ISDA), row.4);
        assert_eq!(days_between(d1, d2, DayCount::ACT_365F), row.5);
    }
}

#[test]
fn test_actual_days_are_antisymmetric_and_additive() {
    let (a, b, c) = (date("2001-03-04"), date("2012-02-29"), date("2020-12-31"));
    let ab = days_between(&a, &b, DayCount::ACT_360);
    let ba = days_between(&b, &a, DayCount::ACT_360);
    let bc = days_between(&b, &c, DayCount::ACT_360);
    let ac = days_between(&a, &c, DayCount::ACT_360);
    assert_eq!(ab, -ba);
    assert_eq!(ab + bc, ac);
    assert_eq!(days_between(&a, &a, DayCount::ACT_365F), 0);
}

#[test]
fn test_act_act_parts_add_up_to_actual_days() {
    for (d1, d2) in [("2007-12-28", "2008-02-29"), ("2008-02-01", "2009-05-31"), ("1999-07-01", "2004-03-01")] {
        let (a, b) = (date(d1), date(d2));
        let f = year_fraction(&a, &b, DayCount::ACT_ACT_ISDA);
        assert_eq!(f.days + f.leap_days, days_between(&a, &b, DayCount::ACT_ACT_ISDA));
        assert_eq!(f.basis, Basis::Days365);
    }
}

#[test]
fn test_no_leap_conventions_remove_feb_29ths() {
    // two February 29ths (2004 and 2008) lie between these dates
    let (a, b) = (date("2003-06-01"), date("2008-02-29"));
    let act = days_between(&a, &b, DayCount::ACT_365F);
    assert_eq!(days_between(&a, &b, DayCount::NL_365), act - 2);
    assert_eq!(days_between(&a, &b, DayCount::NL_360), act - 2);
    // none lies between these
    let (c, d) = (date("2008-03-01"), date("2012-02-28"));
    assert_eq!(days_between(&c, &d, DayCount::NL_365), days_between(&c, &d, DayCount::ACT_365F));
}

#[test]
fn test_days_between_a_date_and_itself() {
    let all = [
        DayCount::ACT_ACT_ISDA,
        DayCount::ACT_365F,
        DayCount::ACT_365_25,
        DayCount::ACT_364,
        DayCount::ACT_360,
        DayCount::THIRTY_360_ISDA,
        DayCount::THIRTY_E_360,
        DayCount::THIRTY_E_PLUS_360,
        DayCount::THIRTY_E_360_ISDA,
        DayCount::THIRTY_U_360,
        DayCount::NL_365,
        DayCount::NL_360,
    ];
    let ordinary = date("2010-05-17");
    for dc in all {
        assert_eq!(days_between(&ordinary, &ordinary, dc), 0);
    }
    let feb29 = date("2012-02-29");
    assert_eq!(days_between(&feb29, &feb29, DayCount::NL_365), -1);
    assert_eq!(days_between(&feb29, &feb29, DayCount::ACT_365F), 0);
    let day31 = date("2012-12-31");
    assert_eq!(days_between(&day31, &day31, DayCount::THIRTY_E_PLUS_360), 1);
    assert_eq!(days_between(&day31, &day31, DayCount::THIRTY_E_360), 0);
}

#[test]
fn test_thirty_e_plus_end_of_month() {
    // an end date on the 31st moves to the 1st of the next month (and year)
    let a = date("2010-01-30");
    assert_eq!(days_between(&a, &date("2010-12-31"), DayCount::THIRTY_E_PLUS_360), 331);
    assert_eq!(days_between(&a, &date("2010-05-31"), DayCount::THIRTY_E_PLUS_360), 121);
}

#[test]
fn test_year_fraction_basis() {
    let (a, b) = (date("2020-01-01"), date("2021-01-01"));
    let f = year_fraction(&a, &b, DayCount::ACT_365_25);
    assert_eq!((f.days, f.basis, f.leap_days), (366, Basis::Days365_25, 0));
    let f = year_fraction(&a, &b, DayCount::ACT_364);
    assert_eq!(f.basis, Basis::Days364);
    let f = year_fraction(&a, &b, DayCount::ACT_ACT_ISDA);
    assert_eq!((f.days, f.leap_days), (0, 366));
    assert_eq!(as_f64(f), 1.0);
}

#[test]
fn test_default_day_count() {
    assert_eq!(DayCount::default(), DayCount::ACT_365F);
}

#[test]
fn test_last_days() {
    assert!(is_last_day_of_feb(&date("2008-02-29")));
    assert!(!is_last_day_of_feb(&date("2008-02-28")));
    assert!(is_last_day_of_feb(&date("2007-02-28")));
    assert!(is_last_day_of_month(&date("2007-04-30")));
    assert!(!is_last_day_of_month(&date("2007-05-30")));
}
