use pyxirr::date_like::{earliest, latest, DateLike};

fn ymd(d: DateLike) -> (i32, u8, u8) {
    let d = d.into_date();
    (d.year(), d.month(), d.day())
}

#[test]
fn test_parse_iso_dates() {
    assert_eq!(ymd(DateLike::from_str("2015-06-11").unwrap()), (2015, 6, 11));
    assert_eq!(ymd(DateLike::from_str("2008-02-29").unwrap()), (2008, 2, 29));
}

#[test]
fn test_parse_us_dates() {
    assert_eq!(ymd(DateLike::from_str("06/11/2015").unwrap()), (2015, 6, 11));
}

#[test]
fn test_parse_date_and_time() {
    assert_eq!(ymd(DateLike::from_str("2015-06-11T10:15:00").unwrap()), (2015, 6, 11));
    assert_eq!(ymd(DateLike::from_str("2015-06-11 10:15:00.123").unwrap()), (2015, 6, 11));
}

#[test]
fn test_parse_errors() {
    assert!(DateLike::from_str("2019-02-29").is_err());
    assert!(DateLike::from_str("hello").is_err());
    let err = DateLike::from_str("").unwrap_err();
    assert!(!err.message().is_empty());
    let err = DateLike::from_str("hello").unwrap_err();
    assert_eq!(err.message(), "the 'month' component could not be parsed");
}

#[test]
fn test_days_since_unix_epoch() {
    assert_eq!(ymd(DateLike::from_days_since_unix_epoch(0)), (1970, 1, 1));
    assert_eq!(ymd(DateLike::from_days_since_unix_epoch(-1)), (1969, 12, 31));
    assert_eq!(ymd(DateLike::from_days_since_unix_epoch(13675)), (2007, 6, 11));
}

#[test]
fn test_earliest_and_latest() {
    let dates: Vec<DateLike> = ["2015-06-11", "2015-07-21", "2018-06-10", "2015-10-17"]
        .iter()
        .map(|s| DateLike::from_str(s).unwrap())
        .collect();
    assert_eq!(ymd(earliest(&dates)), (2015, 6, 11));
    assert_eq!(ymd(latest(&dates)), (2018, 6, 10));
}

#[test]
fn test_date_like_conversions() {
    let d = DateLike::from_str("2020-05-06").unwrap();
    let date = *d.as_ref();
    assert_eq!(DateLike::from(date), d);
    assert!(d.is_valid());
    assert!(d.le(&d));
}

#[test]
fn test_from_unix_timestamp() {
    assert_eq!(ymd(DateLike::from_unix_timestamp(0).unwrap()), (1970, 1, 1));
    assert_eq!(ymd(DateLike::from_unix_timestamp(86_399).unwrap()), (1970, 1, 1));
    assert_eq!(ymd(DateLike::from_unix_timestamp(86_400).unwrap()), (1970, 1, 2));
    assert_eq!(ymd(DateLike::from_unix_timestamp(1_546_300_800).unwrap()), (2019, 1, 1));
    assert_eq!(ymd(DateLike::from_unix_timestamp(-1).unwrap()), (1969, 12, 31));
    assert_eq!(ymd(DateLike::from_unix_timestamp(-86_400).unwrap()), (1969, 12, 31));
    assert_eq!(ymd(DateLike::from_unix_timestamp(-86_401).unwrap()), (1969, 12, 30));
}

#[test]
fn test_from_unix_timestamp_out_of_range() {
    assert!(DateLike::from_unix_timestamp(i64::MAX).is_none());
    assert!(DateLike::from_unix_timestamp(i64::MIN).is_none());
    // 9999-12-31T23:59:59Z is the last second
    assert_eq!(ymd(DateLike::from_unix_timestamp(253_402_300_799).unwrap()), (9999, 12, 31));
    assert!(DateLike::from_unix_timestamp(253_402_300_800).is_none());
}
