//! Checks on series of payments that depend only on the sign of each amount:
//! whether a series has both inflows and outflows, and where its sign changes.
use vstd::prelude::*;
use vstd::string::*;

use crate::date_like::DateLike;

verus! {

/// Where an amount stands with respect to zero, read from the amount (a
/// floating-point number) by the caller.
#[derive(Debug, Clone, Copy, PartialEq, Eq, Structural)]
pub enum Sign {
    NegativeInfinity,
    Negative,
    NegativeZero,
    PositiveZero,
    Positive,
    PositiveInfinity,
    NaN,
}

/// The amount is greater than zero.
pub open spec fn is_positive(s: Sign) -> bool {
    s == Sign::Positive || s == Sign::PositiveInfinity
}

/// The amount is less than zero.
pub open spec fn is_negative(s: Sign) -> bool {
    s == Sign::Negative || s == Sign::NegativeInfinity
}

/// The amount is finite.
pub open spec fn is_finite(s: Sign) -> bool {
    s == Sign::Negative || s == Sign::NegativeZero || s == Sign::PositiveZero || s == Sign::Positive
}

/// The sign bit of a finite amount is set (its `signum` is -1).
pub open spec fn is_sign_negative(s: Sign) -> bool {
    s == Sign::Negative || s == Sign::NegativeZero || s == Sign::NegativeInfinity
}

/// The cash flow changes direction between the amounts `i` and `i + 1`: both
/// are finite and their signs differ.
pub open spec fn is_crossing(signs: Seq<Sign>, i: int) -> bool {
    &&& 0 <= i
    &&& i + 1 < signs.len()
    &&& is_finite(signs[i])
    &&& is_finite(signs[i + 1])
    &&& is_sign_negative(signs[i]) != is_sign_negative(signs[i + 1])
}

/// The number of changes of direction between the amounts `i` and `i + 1`
/// for `i < n`.
pub open spec fn crossing_count(signs: Seq<Sign>, n: int) -> nat
    decreases n,
{
    if n <= 0 {
        0
    } else {
        crossing_count(signs, n - 1) + if is_crossing(signs, n - 1) {
            1nat
        } else {
            0nat
        }
    }
}

/// The number of changes of direction of a cash flow.
pub open spec fn sign_changes_spec(signs: Seq<Sign>) -> nat {
    crossing_count(signs, signs.len() - 1)
}

/// The message of amounts and dates of different lengths.
pub open spec fn different_lengths_message() -> Seq<char> {
    "the amounts and dates arrays are of different lengths"@
}

/// The message of a cash flow without both inflows and outflows.
pub open spec fn one_sided_message() -> Seq<char> {
    "negative and positive payments are required"@
}

/// Dates are given and their number differs from the number of amounts.
pub open spec fn lengths_differ(amounts: Seq<Sign>, dates: Option<&[DateLike]>) -> bool {
    dates matches Some(d) && d@.len() != amounts.len()
}

/// The cash flow has an amount greater than zero and one less than zero.
pub open spec fn has_both_directions(amounts: Seq<Sign>) -> bool {
    &&& exists|i: int| 0 <= i < amounts.len() && is_positive(#[trigger] amounts[i])
    &&& exists|i: int| 0 <= i < amounts.len() && is_negative(#[trigger] amounts[i])
}

/// The error of payments that the financial functions cannot take.
#[derive(Clone, Debug)]
pub struct InvalidPaymentsError(String);

impl View for InvalidPaymentsError {
    type V = Seq<char>;

    closed spec fn view(&self) -> Seq<char> {
        self.0@
    }
}

impl InvalidPaymentsError {
    /// The error with the given message.
    pub fn new(message: &str) -> (r: Self)
        ensures
            r@ == message@,
    {
        InvalidPaymentsError(String::from_str(message))
    }

    /// The message of the error.
    pub fn message(&self) -> (r: String)
        ensures
            r@ == self@,
    {
        self.0.clone()
    }
}

/// Checks that dates, when given, are as many as the amounts.
pub fn validate_length(amounts: &[Sign], dates: &[DateLike]) -> (r: Result<(), InvalidPaymentsError>)
    ensures
        r is Ok <==> dates@.len() == amounts@.len(),
        r matches Err(e) ==> e@ == different_lengths_message(),
{
    if amounts.len() != dates.len() {
        return Err(InvalidPaymentsError::new("the amounts and dates arrays are of different lengths"));
    }
    Ok(())
}

/// Checks that dates, when given, are as many as the amounts, and that the
/// amounts hold both a positive and a negative payment.
pub fn validate(amounts: &[Sign], dates: Option<&[DateLike]>) -> (r: Result<(), InvalidPaymentsError>)
    ensures
        r is Ok <==> !lengths_differ(amounts@, dates) && has_both_directions(amounts@),
        lengths_differ(amounts@, dates) ==> (r matches Err(e) && e@ == different_lengths_message()),
        !lengths_differ(amounts@, dates) && !has_both_directions(amounts@) ==> (r matches Err(e)
            && e@ == one_sided_message()),
{
    match dates {
        Some(d) => {
            if amounts.len() != d.len() {
                return Err(
                    InvalidPaymentsError::new("the amounts and dates arrays are of different lengths"),
                );
            }
        },
        None => {},
    }
    let mut positive = false;
    let mut negative = false;
    let mut i: usize = 0;
    while i < amounts.len()
        invariant
            i <= amounts@.len(),
            positive <==> exists|j: int| 0 <= j < i && is_positive(#[trigger] amounts@[j]),
            negative <==> exists|j: int| 0 <= j < i && is_negative(#[trigger] amounts@[j]),
        decreases amounts@.len() - i,
    {
        let a = amounts[i];
        if a == Sign::Positive || a == Sign::PositiveInfinity {
            positive = true;
        }
        if a == Sign::Negative || a == Sign::NegativeInfinity {
            negative = true;
        }
        i = i + 1;
    }
    if positive && negative {
        Ok(())
    } else {
        Err(InvalidPaymentsError::new("negative and positive payments are required"))
    }
}

fn is_finite_sign(s: Sign) -> (r: bool)
    ensures
        r == is_finite(s),
{
    s == Sign::Negative || s == Sign::NegativeZero || s == Sign::PositiveZero || s == Sign::Positive
}

fn is_sign_negative_sign(s: Sign) -> (r: bool)
    ensures
        r == is_sign_negative(s),
{
    s == Sign::Negative || s == Sign::NegativeZero || s == Sign::NegativeInfinity
}

fn crossing(v: &[Sign], i: usize) -> (r: bool)
    requires
        i + 1 < v@.len(),
    ensures
        r == is_crossing(v@, i as int),
{
    is_finite_sign(v[i]) && is_finite_sign(v[i + 1]) && is_sign_negative_sign(v[i])
        != is_sign_negative_sign(v[i + 1])
}

proof fn lemma_crossing_count_bound(signs: Seq<Sign>, n: int)
    ensures
        crossing_count(signs, n) <= if n < 0 {
            0
        } else {
            n
        },
    decreases n,
{
    if n > 0 {
        lemma_crossing_count_bound(signs, n - 1);
    }
}

/// The number of changes of direction of a cash flow: the pairs of
/// neighbouring amounts, both finite, whose signs differ.
pub fn sign_changes(v: &[Sign]) -> (r: i32)
    requires
        v@.len() <= i32::MAX,
    ensures
        r == sign_changes_spec(v@),
{
    if v.len() < 2 {
        return 0;
    }
    let mut count: i32 = 0;
    let mut i: usize = 0;
    while i < v.len() - 1
        invariant
            v@.len() <= i32::MAX,
            v@.len() >= 2,
            i + 1 <= v@.len(),
            count == crossing_count(v@, i as int),
        decreases v@.len() - i,
    {
        proof {
            lemma_crossing_count_bound(v@, i as int);
        }
        if crossing(v, i) {
            count = count + 1;
        }
        i = i + 1;
    }
    count
}

/// The positions `i` where a cash flow changes direction between the amounts
/// `i` and `i + 1`, in increasing order.
pub fn zero_crossing_points(v: &[Sign]) -> (r: Vec<usize>)
    ensures
        forall|k: int| 0 <= k < r@.len() ==> is_crossing(v@, #[trigger] r@[k] as int),
        forall|i: int| is_crossing(v@, i) ==> r@.contains(i as usize),
        forall|a: int, b: int| 0 <= a < b < r@.len() ==> r@[a] < r@[b],
        r@.len() == sign_changes_spec(v@),
{
    let mut points: Vec<usize> = Vec::new();
    if v.len() < 2 {
        return points;
    }
    let mut i: usize = 0;
    while i < v.len() - 1
        invariant
            v@.len() >= 2,
            i + 1 <= v@.len(),
            forall|k: int| 0 <= k < points@.len() ==> is_crossing(v@, #[trigger] points@[k] as int),
            forall|k: int| 0 <= k < points@.len() ==> #[trigger] points@[k] < i,
            forall|j: int| 0 <= j < i && is_crossing(v@, j) ==> points@.contains(j as usize),
            forall|a: int, b: int| 0 <= a < b < points@.len() ==> points@[a] < points@[b],
            points@.len() == crossing_count(v@, i as int),
        decreases v@.len() - i,
    {
        let ghost before = points@;
        if crossing(v, i) {
            points.push(i);
            assert(points@[points@.len() - 1] == i);
        }
        proof {
            assert forall|j: int| 0 <= j < i + 1 && is_crossing(v@, j) implies points@.contains(
                j as usize,
            ) by {
                if j < i {
                    assert(before.contains(j as usize));
                    let k = choose|k: int| 0 <= k < before.len() && before[k] == j as usize;
                    assert(points@[k] == before[k]);
                } else {
                    assert(points@[points@.len() - 1] == i);
                }
            }
        }
        i = i + 1;
    }
    proof {
        assert forall|j: int| is_crossing(v@, j) implies points@.contains(j as usize) by {
            assert(0 <= j < i);
        }
    }
    points
}

/// A conventional cash flow changes direction exactly once (an initial
/// outlay followed by inflows, or the reverse).
pub fn is_conventional_cash_flow(v: &[Sign]) -> (r: bool)
    requires
        v@.len() <= i32::MAX,
    ensures
        r == (sign_changes_spec(v@) == 1),
{
    sign_changes(v) == 1
}

proof fn lemma_crossing_count_zero(signs: Seq<Sign>, n: int)
    ensures
        crossing_count(signs, n) == 0 <==> forall|j: int| 0 <= j < n ==> !is_crossing(signs, j),
    decreases n,
{
    if n > 0 {
        lemma_crossing_count_zero(signs, n - 1);
    }
}

/// Position `i < n` is the only position below `n` where the cash flow
/// changes direction.
pub open spec fn only_crossing_below(signs: Seq<Sign>, n: int, i: int) -> bool {
    &&& 0 <= i < n
    &&& is_crossing(signs, i)
    &&& forall|j: int| 0 <= j < n && #[trigger] is_crossing(signs, j) ==> j == i
}

proof fn lemma_crossing_count_one(signs: Seq<Sign>, n: int)
    ensures
        crossing_count(signs, n) == 1 <==> exists|i: int| #[trigger] only_crossing_below(signs, n, i),
    decreases n,
{
    if n > 0 {
        lemma_crossing_count_one(signs, n - 1);
        lemma_crossing_count_zero(signs, n - 1);
        let last = n - 1;
        if crossing_count(signs, n) == 1 {
            if is_crossing(signs, last) {
                assert(only_crossing_below(signs, n, last));
            } else {
                let i = choose|i: int| #[trigger] only_crossing_below(signs, n - 1, i);
                assert(only_crossing_below(signs, n, i));
            }
        }
        if exists|i: int| #[trigger] only_crossing_below(signs, n, i) {
            let i = choose|i: int| #[trigger] only_crossing_below(signs, n, i);
            if i == last {
                assert forall|j: int| 0 <= j < n - 1 implies !is_crossing(signs, j) by {
                    if is_crossing(signs, j) {
                        assert(j == i);
                    }
                }
            } else {
                if is_crossing(signs, last) {
                    assert(last == i);
                }
                assert(only_crossing_below(signs, n - 1, i));
            }
        }
    }
}

/// A cash flow is conventional exactly when it changes direction at one
/// position and nowhere else.
pub proof fn law_conventional_means_one_change_of_direction(signs: Seq<Sign>)
    ensures
        (sign_changes_spec(signs) == 1) <==> exists|i: int|
            #[trigger] is_crossing(signs, i) && forall|j: int| #[trigger] is_crossing(signs, j) ==> j == i,
{
    let n = signs.len() - 1;
    lemma_crossing_count_one(signs, n);
    if exists|i: int|
        #[trigger] is_crossing(signs, i) && forall|j: int| #[trigger] is_crossing(signs, j) ==> j == i {
        let i = choose|i: int|
            #[trigger] is_crossing(signs, i) && forall|j: int| #[trigger] is_crossing(signs, j) ==> j == i;
        assert(only_crossing_below(signs, n, i));
    }
    if sign_changes_spec(signs) == 1 {
        let i = choose|i: int| #[trigger] only_crossing_below(signs, n, i);
        assert forall|j: int| #[trigger] is_crossing(signs, j) implies j == i by {
            assert(0 <= j < n);
        }
        assert(is_crossing(signs, i));
    }
}

/// Neighbouring amounts change direction exactly when one of them is negative
/// or -0.0 and the other is +0.0 or positive: the direction is the sign bit,
/// so a negative amount followed by +0.0 is a change of direction. A pair with
/// an infinity or NaN never is.
pub proof fn law_crossings_follow_sign_bits(signs: Seq<Sign>, i: int)
    requires
        0 <= i,
        i + 1 < signs.len(),
    ensures
        is_crossing(signs, i) <==> ((signs[i] == Sign::Negative || signs[i] == Sign::NegativeZero)
            && (signs[i + 1] == Sign::PositiveZero || signs[i + 1] == Sign::Positive)) || ((signs[i]
            == Sign::PositiveZero || signs[i] == Sign::Positive) && (signs[i + 1] == Sign::Negative
            || signs[i + 1] == Sign::NegativeZero)),
{
}

} // verus!
