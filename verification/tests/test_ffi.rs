use pyxirr::cash_flow::InvalidPaymentsError;
use pyxirr::day_count::DayCount;
use pyxirr::ffi::{check_arguments, day_count_from_code, outcome_code, ReturnCode};

#[test]
fn test_day_count_codes() {
    assert_eq!(day_count_from_code(0), Some(DayCount::ACT_365F));
    assert_eq!(day_count_from_code(1), Some(DayCount::ACT_ACT_ISDA));
    assert_eq!(day_count_from_code(7), Some(DayCount::THIRTY_E_PLUS_360));
    assert_eq!(day_count_from_code(11), Some(DayCount::NL_360));
    assert_eq!(day_count_from_code(12), None);
    assert_eq!(day_count_from_code(u16::MAX), None);
}

#[test]
fn test_return_code_numbers() {
    assert_eq!(ReturnCode::Success.code(), 0);
    assert_eq!(ReturnCode::NullReference.code(), 1);
    assert_eq!(ReturnCode::InvalidDayCount.code(), 2);
    assert_eq!(ReturnCode::ArraysOfDifferentLength.code(), 3);
    assert_eq!(ReturnCode::PositiveAndNegativePaymentsRequired.code(), 4);
}

#[test]
fn test_check_arguments() {
    assert_eq!(check_arguments(false, false, 3, 3, 4), Ok(DayCount::ACT_360));
    assert_eq!(check_arguments(true, false, 3, 2, 99), Err(ReturnCode::NullReference));
    assert_eq!(check_arguments(false, true, 3, 3, 0), Err(ReturnCode::NullReference));
    assert_eq!(check_arguments(false, false, 3, 2, 99), Err(ReturnCode::ArraysOfDifferentLength));
    assert_eq!(check_arguments(false, false, 3, 3, 99), Err(ReturnCode::InvalidDayCount));
}

#[test]
fn test_outcome_code() {
    let ok: Result<f64, InvalidPaymentsError> = Ok(1.5);
    assert_eq!(outcome_code(&ok), ReturnCode::Success);
    let err: Result<f64, InvalidPaymentsError> = Err(InvalidPaymentsError::new("x"));
    assert_eq!(outcome_code(&err), ReturnCode::PositiveAndNegativePaymentsRequired);
}
