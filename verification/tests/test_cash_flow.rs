use pyxirr::cash_flow::{
    is_conventional_cash_flow, sign_changes, validate, validate_length, zero_crossing_points, Sign,
};
use pyxirr::date_like::DateLike;

fn sign(x: f64) -> Sign {
    if x.is_nan() {
        Sign::NaN
    } else if x == f64::INFINITY {
        Sign::PositiveInfinity
    } else if x == f64::NEG_INFINITY {
        Sign::NegativeInfinity
    } else if x > 0.0 {
        Sign::Positive
    } else if x < 0.0 {
        Sign::Negative
    } else if x.is_sign_negative() {
        Sign::NegativeZero
    } else {
        Sign::PositiveZero
    }
}

fn signs(v: &[f64]) -> Vec<Sign> {
    v.iter().map(|&x| sign(x)).collect()
}

#[test]
fn test_sign_changes() {
    assert_eq!(sign_changes(&signs(&[1., 2., 3.])), 0);
    assert_eq!(sign_changes(&signs(&[1., 2., -3.])), 1);
    assert_eq!(sign_changes(&signs(&[1., -2., 3.])), 2);
    assert_eq!(sign_changes(&signs(&[-1., 2., -3.])), 2);
    assert_eq!(sign_changes(&signs(&[-1., -2., -3.])), 0);
    assert_eq!(sign_changes(&signs(&[1., f64::NAN, 3.])), 0);
}

#[test]
fn test_zero_crossing_points() {
    assert_eq!(zero_crossing_points(&signs(&[1., 2., 3.])), Vec::<usize>::new());
    assert_eq!(zero_crossing_points(&signs(&[1., -2., -3.])), vec![0]);
    assert_eq!(zero_crossing_points(&signs(&[1., -2., 3.])), vec![0, 1]);
    assert_eq!(zero_crossing_points(&signs(&[-1., -2., 3.])), vec![1]);
    assert_eq!(zero_crossing_points(&signs(&[1., f64::NAN, 3.])), Vec::<usize>::new());
    assert_eq!(
        zero_crossing_points(&signs(&[7., 6., -3., -4., -7., 8., 3., -6., 7., 8.])),
        vec![1, 4, 6, 7],
    );
}

#[test]
fn test_signed_zeros_and_infinities() {
    // a negative zero has the sign of a negative amount, infinities are not finite
    assert_eq!(zero_crossing_points(&signs(&[1., -0.0, 2.])), vec![0, 1]);
    assert_eq!(zero_crossing_points(&signs(&[1., 0.0, 2.])), Vec::<usize>::new());
    assert_eq!(zero_crossing_points(&signs(&[1., f64::NEG_INFINITY, 2.])), Vec::<usize>::new());
    assert_eq!(zero_crossing_points(&signs(&[])), Vec::<usize>::new());
    assert_eq!(sign_changes(&signs(&[-5.])), 0);
}

#[test]
fn test_crossings_count_sign_changes() {
    let v = signs(&[7., 6., -3., -4., -7., 8., 3., -6., 7., 8.]);
    assert_eq!(zero_crossing_points(&v).len() as i32, sign_changes(&v));
}

#[test]
fn test_is_conventional_cash_flow() {
    assert!(is_conventional_cash_flow(&signs(&[-100., 50., 60.])));
    assert!(is_conventional_cash_flow(&signs(&[100., -50., -60.])));
    assert!(!is_conventional_cash_flow(&signs(&[-100., 50., -60.])));
    assert!(!is_conventional_cash_flow(&signs(&[100., 50., 60.])));
}

#[test]
fn test_validate() {
    assert!(validate(&signs(&[-1., 2.]), None).is_ok());
    assert!(validate(&signs(&[-1., f64::INFINITY]), None).is_ok());
    let err = validate(&signs(&[1., 2.]), None).unwrap_err();
    assert_eq!(err.message(), "negative and positive payments are required");
    let err = validate(&signs(&[0., -0.0, -2.]), None).unwrap_err();
    assert_eq!(err.message(), "negative and positive payments are required");
    let err = validate(&signs(&[f64::NAN, -2.]), None).unwrap_err();
    assert_eq!(err.message(), "negative and positive payments are required");
    let dates = [DateLike::from_str("2020-01-01").unwrap()];
    let err = validate(&signs(&[-1., 2.]), Some(&dates)).unwrap_err();
    assert_eq!(err.message(), "the amounts and dates arrays are of different lengths");
    let err = validate(&signs(&[]), None).unwrap_err();
    assert_eq!(err.message(), "negative and positive payments are required");
}

#[test]
fn test_validate_length() {
    let dates = [DateLike::from_str("2020-01-01").unwrap(), DateLike::from_str("2021-01-01").unwrap()];
    assert!(validate_length(&signs(&[1., 2.]), &dates).is_ok());
    let err = validate_length(&signs(&[1.]), &dates).unwrap_err();
    assert_eq!(err.message(), "the amounts and dates arrays are of different lengths");
}
