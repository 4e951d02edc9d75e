//! The decisions of the C interface: how a day count convention is coded as
//! a number, and which return code a call gets before and after it computes.
use vstd::prelude::*;

use crate::cash_flow::InvalidPaymentsError;
use crate::day_count::DayCount;

verus! {

/// The outcome of a call of the C interface.
#[derive(Debug, Clone, Copy, PartialEq, Eq, Structural)]
pub enum ReturnCode {
    Success,
    NullReference,
    InvalidDayCount,
    ArraysOfDifferentLength,
    PositiveAndNegativePaymentsRequired,
}

/// The number of a return code.
pub open spec fn return_code_number(code: ReturnCode) -> i32 {
    match code {
        ReturnCode::Success => 0,
        ReturnCode::NullReference => 1,
        ReturnCode::InvalidDayCount => 2,
        ReturnCode::ArraysOfDifferentLength => 3,
        ReturnCode::PositiveAndNegativePaymentsRequired => 4,
    }
}

/// The convention that a number codes.
pub open spec fn day_count_of_code(code: u16) -> Option<DayCount> {
    if code == 0 {
        Some(DayCount::ACT_365F)
    } else if code == 1 {
        Some(DayCount::ACT_ACT_ISDA)
    } else if code == 2 {
        Some(DayCount::ACT_365_25)
    } else if code == 3 {
        Some(DayCount::ACT_364)
    } else if code == 4 {
        Some(DayCount::ACT_360)
    } else if code == 5 {
        Some(DayCount::THIRTY_360_ISDA)
    } else if code == 6 {
        Some(DayCount::THIRTY_E_360)
    } else if code == 7 {
        Some(DayCount::THIRTY_E_PLUS_360)
    } else if code == 8 {
        Some(DayCount::THIRTY_E_360_ISDA)
    } else if code == 9 {
        Some(DayCount::THIRTY_U_360)
    } else if code == 10 {
        Some(DayCount::NL_365)
    } else if code == 11 {
        Some(DayCount::NL_360)
    } else {
        None
    }
}

/// What a call decides from its arguments before it computes.
pub open spec fn check_arguments_spec(
    values_null: bool,
    dates_null: bool,
    values_length: usize,
    dates_length: usize,
    day_count: u16,
) -> Result<DayCount, ReturnCode> {
    if values_null || dates_null {
        Err(ReturnCode::NullReference)
    } else if values_length != dates_length {
        Err(ReturnCode::ArraysOfDifferentLength)
    } else {
        match day_count_of_code(day_count) {
            Some(dc) => Ok(dc),
            None => Err(ReturnCode::InvalidDayCount),
        }
    }
}

impl ReturnCode {
    /// The number of the return code.
    pub fn code(&self) -> (r: i32)
        ensures
            r == return_code_number(*self),
    {
        match self {
            ReturnCode::Success => 0,
            ReturnCode::NullReference => 1,
            ReturnCode::InvalidDayCount => 2,
            ReturnCode::ArraysOfDifferentLength => 3,
            ReturnCode::PositiveAndNegativePaymentsRequired => 4,
        }
    }
}

/// The convention that a number codes, if any.
pub fn day_count_from_code(value: u16) -> (r: Option<DayCount>)
    ensures
        r == day_count_of_code(value),
{
    match value {
        0 => Some(DayCount::ACT_365F),
        1 => Some(DayCount::ACT_ACT_ISDA),
        2 => Some(DayCount::ACT_365_25),
        3 => Some(DayCount::ACT_364),
        4 => Some(DayCount::ACT_360),
        5 => Some(DayCount::THIRTY_360_ISDA),
        6 => Some(DayCount::THIRTY_E_360),
        7 => Some(DayCount::THIRTY_E_PLUS_360),
        8 => Some(DayCount::THIRTY_E_360_ISDA),
        9 => Some(DayCount::THIRTY_U_360),
        10 => Some(DayCount::NL_365),
        11 => Some(DayCount::NL_360),
        _ => None,
    }
}

/// The checks that a call makes before it computes: missing arrays, arrays
/// of different lengths, an unknown day count code, in that order.
pub fn check_arguments(
    values_null: bool,
    dates_null: bool,
    values_length: usize,
    dates_length: usize,
    day_count: u16,
) -> (r: Result<DayCount, ReturnCode>)
    ensures
        r == check_arguments_spec(values_null, dates_null, values_length, dates_length, day_count),
{
    if values_null || dates_null {
        return Err(ReturnCode::NullReference);
    }
    if values_length != dates_length {
        return Err(ReturnCode::ArraysOfDifferentLength);
    }
    match day_count_from_code(day_count) {
        Some(x) => Ok(x),
        None => Err(ReturnCode::InvalidDayCount),
    }
}

/// The return code of a computation once the arguments passed the checks:
/// an error can only be the lack of positive and negative payments.
pub fn outcome_code<T>(result: &Result<T, InvalidPaymentsError>) -> (r: ReturnCode)
    ensures
        result is Ok ==> r == ReturnCode::Success,
        result is Err ==> r == ReturnCode::PositiveAndNegativePaymentsRequired,
{
    match result {
        Ok(_) => ReturnCode::Success,
        Err(_) => ReturnCode::PositiveAndNegativePaymentsRequired,
    }
}

/// Every convention has a code, and the code of a convention is unique.
pub proof fn law_day_count_codes_are_a_bijection(dc: DayCount)
    ensures
        exists|code: u16| code <= 11 && #[trigger] day_count_of_code(code) == Some(dc),
        forall|a: u16, b: u16|
            #[trigger] day_count_of_code(a) == Some(dc) && #[trigger] day_count_of_code(b) == Some(dc)
                ==> a == b,
        forall|code: u16| code > 11 ==> #[trigger] day_count_of_code(code) is None,
{
    match dc {
        DayCount::ACT_365F => assert(day_count_of_code(0) == Some(dc)),
        DayCount::ACT_ACT_ISDA => assert(day_count_of_code(1) == Some(dc)),
        DayCount::ACT_365_25 => assert(day_count_of_code(2) == Some(dc)),
        DayCount::ACT_364 => assert(day_count_of_code(3) == Some(dc)),
        DayCount::ACT_360 => assert(day_count_of_code(4) == Some(dc)),
        DayCount::THIRTY_360_ISDA => assert(day_count_of_code(5) == Some(dc)),
        DayCount::THIRTY_E_360 => assert(day_count_of_code(6) == Some(dc)),
        DayCount::THIRTY_E_PLUS_360 => assert(day_count_of_code(7) == Some(dc)),
        DayCount::THIRTY_E_360_ISDA => assert(day_count_of_code(8) == Some(dc)),
        DayCount::THIRTY_U_360 => assert(day_count_of_code(9) == Some(dc)),
        DayCount::NL_365 => assert(day_count_of_code(10) == Some(dc)),
        DayCount::NL_360 => assert(day_count_of_code(11) == Some(dc)),
    }
}

/// The codes of the conventions: 0 Actual/365 Fixed, 1 Actual/Actual ISDA,
/// 2 Actual/365.25, 3 Actual/364, 4 Actual/360, 5 30/360 ISDA, 6 30E/360,
/// 7 30E+/360, 8 30E/360 ISDA, 9 30U/360, 10 NL/365, 11 NL/360; no other number
/// is a code.
pub proof fn law_day_count_code_table(code: u16)
    ensures
        code == 0 ==> day_count_of_code(code) == Some(DayCount::ACT_365F),
        code == 1 ==> day_count_of_code(code) == Some(DayCount::ACT_ACT_ISDA),
        code == 2 ==> day_count_of_code(code) == Some(DayCount::ACT_365_25),
        code == 3 ==> day_count_of_code(code) == Some(DayCount::ACT_364),
        code == 4 ==> day_count_of_code(code) == Some(DayCount::ACT_360),
        code == 5 ==> day_count_of_code(code) == Some(DayCount::THIRTY_360_ISDA),
        code == 6 ==> day_count_of_code(code) == Some(DayCount::THIRTY_E_360),
        code == 7 ==> day_count_of_code(code) == Some(DayCount::THIRTY_E_PLUS_360),
        code == 8 ==> day_count_of_code(code) == Some(DayCount::THIRTY_E_360_ISDA),
        code == 9 ==> day_count_of_code(code) == Some(DayCount::THIRTY_U_360),
        code == 10 ==> day_count_of_code(code) == Some(DayCount::NL_365),
        code == 11 ==> day_count_of_code(code) == Some(DayCount::NL_360),
        code > 11 ==> day_count_of_code(code) is None,
{
}

} // verus!
