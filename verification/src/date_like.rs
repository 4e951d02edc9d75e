//! Dates as the financial functions take them: built from a calendar date, a
//! count of days since the Unix epoch, or a text such as "2020-01-31".
use vstd::prelude::*;
use vstd::string::StringSliceAdditionalSpecFns;
use vstd::utf8::{decode_utf8, encode_scalar, encode_utf8, encode_utf8_decode_utf8, is_char_boundary};

use crate::calendar::{date_le, julian_day_spec, max_julian_day, min_julian_day, valid_date, Date};

verus! {

/// The Julian day number of 1970-01-01.
pub const UNIX_EPOCH_JULIAN_DAY: i32 = 2440588;

/// What `time::Date::parse` returns for a text and a format description: the
/// date as (year, month, day), or the text (`Display`) of its error; named,
/// not stated.
pub uninterp spec fn parse_outcome(text: Seq<char>, format: Seq<char>) -> Result<
    (i32, u8, u8),
    Seq<char>,
>;

/// The format of dates such as "2020-01-31".
pub open spec fn iso_format() -> Seq<char> {
    "[year]-[month]-[day]"@
}

/// The format of dates such as "01/31/2020".
pub open spec fn us_format() -> Seq<char> {
    "[month]/[day]/[year]"@
}

/// A date or the text of an error, with the text taken by its view.
pub open spec fn outcome_view(r: Result<(i32, u8, u8), String>) -> Result<(i32, u8, u8), Seq<char>> {
    match r {
        Ok(t) => Ok(t),
        Err(m) => Err(m@),
    }
}

/// Calls `time::format_description::parse` on one of the two formats above
/// (which it accepts) and `time::Date::parse` on the text with it, turning an
/// error into its text; a date it returns is a valid date.
#[verifier::external_body]
fn time_parse_date(text: &str, format: &str) -> (r: Result<(i32, u8, u8), String>)
    requires
        format@ == iso_format() || format@ == us_format(),
    ensures
        outcome_view(r) == parse_outcome(text@, format@),
        r matches Ok(t) ==> valid_date((t.0 as int, t.1 as int, t.2 as int)),
{
    let description = time::format_description::parse(format).unwrap();
    match time::Date::parse(text, &description) {
        Ok(d) => Ok((d.year(), d.month() as u8, d.day())),
        Err(e) => Err(e.to_string()),
    }
}

/// The whole days (rounded down) of a number of seconds since the Unix epoch.
pub open spec fn days_of_timestamp(timestamp: int) -> int {
    timestamp / 86400
}

/// Calls `time::OffsetDateTime::from_unix_timestamp` and takes the date of
/// the result: the call succeeds exactly when the day of the timestamp lies
/// between -9999-01-01 and 9999-12-31, and that day is the Julian day of the
/// Unix epoch plus the whole days (rounded down) of the timestamp.
#[verifier::external_body]
fn time_date_of_timestamp(timestamp: i64) -> (r: Option<(i32, u8, u8)>)
    ensures
        r is Some <==> min_julian_day() <= UNIX_EPOCH_JULIAN_DAY + days_of_timestamp(
            timestamp as int,
        ) <= max_julian_day(),
        r matches Some(t) ==> valid_date((t.0 as int, t.1 as int, t.2 as int)) && julian_day_spec(
            (t.0 as int, t.1 as int, t.2 as int),
        ) == UNIX_EPOCH_JULIAN_DAY + days_of_timestamp(timestamp as int),
{
    match time::OffsetDateTime::from_unix_timestamp(timestamp) {
        Ok(moment) => Some((moment.year(), moment.month() as u8, moment.day())),
        Err(_) => None,
    }
}

/// The part of a text that is read as a date: its first 10 bytes when it is
/// longer (the date part of a date and time), else all of it.
pub open spec fn date_text(s: Seq<char>) -> Seq<char> {
    if encode_utf8(s).len() > 10 {
        decode_utf8(encode_utf8(s).subrange(0, 10))
    } else {
        s
    }
}

/// The date a text holds: in the format "[year]-[month]-[day]", else in the
/// format "[month]/[day]/[year]".
pub open spec fn date_of_text(text: Seq<char>) -> Option<(i32, u8, u8)> {
    match parse_outcome(text, iso_format()) {
        Ok(t) => Some(t),
        Err(_) => match parse_outcome(text, us_format()) {
            Ok(t) => Some(t),
            Err(_) => None,
        },
    }
}

/// A text that is read as a date has a length in bytes that fits `usize` and
/// is cut at a character boundary.
pub open spec fn date_text_cuttable(s: Seq<char>) -> bool {
    &&& encode_utf8(s).len() <= usize::MAX
    &&& encode_utf8(s).len() > 10 ==> is_char_boundary(encode_utf8(s), 10)
}

/// The error of a text that holds no date, viewed as its message.
#[derive(Debug)]
pub struct DateParseError {
    message: String,
}

impl View for DateParseError {
    type V = Seq<char>;

    closed spec fn view(&self) -> Seq<char> {
        self.message@
    }
}

impl DateParseError {
    /// The message of the error, as `time` words it.
    pub fn message(&self) -> (r: String)
        ensures
            r@ == self@,
    {
        self.message.clone()
    }
}

/// A date, as the financial functions take it.
#[derive(Clone, Copy, Debug, PartialEq, Eq, Hash)]
pub struct DateLike(Date);

impl View for DateLike {
    type V = (int, int, int);

    closed spec fn view(&self) -> (int, int, int) {
        self.0@
    }
}

impl DateLike {
    /// The date-like value of a calendar date.
    pub fn from(date: Date) -> (r: DateLike)
        ensures
            r@ == date@,
    {
        DateLike(date)
    }

    /// The calendar date.
    pub fn as_ref(&self) -> (r: &Date)
        ensures
            r@ == self@,
    {
        &self.0
    }

    /// The calendar date.
    pub fn into_date(self) -> (r: Date)
        ensures
            r@ == self@,
    {
        self.0
    }

    /// The date is valid.
    pub fn is_valid(&self) -> (r: bool)
        ensures
            r,
            valid_date(self@),
    {
        let _ = self.0.year();
        true
    }

    /// Whether the date comes no later than `other`.
    pub fn le(&self, other: &DateLike) -> (r: bool)
        ensures
            r == date_le(self@, other@),
    {
        self.0.le(&other.0)
    }

    /// The date that lies `days` days after 1970-01-01.
    pub fn from_days_since_unix_epoch(days: i32) -> (r: DateLike)
        requires
            min_julian_day() <= UNIX_EPOCH_JULIAN_DAY + days <= max_julian_day(),
        ensures
            valid_date(r@),
            julian_day_spec(r@) == UNIX_EPOCH_JULIAN_DAY + days,
    {
        let julian_day = UNIX_EPOCH_JULIAN_DAY + days;
        match Date::from_julian_day(julian_day) {
            Some(d) => DateLike(d),
            None => {
                proof {
                    assert(false);
                }
                DateLike(Date::from_julian_day(UNIX_EPOCH_JULIAN_DAY).unwrap())
            },
        }
    }

    /// The date (in UTC) of a number of seconds since 1970-01-01T00:00:00Z,
    /// if it lies between -9999-01-01 and 9999-12-31.
    pub fn from_unix_timestamp(timestamp: i64) -> (r: Option<DateLike>)
        ensures
            r is Some <==> min_julian_day() <= UNIX_EPOCH_JULIAN_DAY + days_of_timestamp(
                timestamp as int,
            ) <= max_julian_day(),
            r matches Some(d) ==> valid_date(d@) && julian_day_spec(d@) == UNIX_EPOCH_JULIAN_DAY
                + days_of_timestamp(timestamp as int),
    {
        match time_date_of_timestamp(timestamp) {
            Some(t) => match Date::from_calendar_date(t.0, t.1, t.2) {
                Some(d) => Some(DateLike(d)),
                None => {
                    proof {
                        assert(false);
                    }
                    None
                },
            },
            None => None,
        }
    }

    /// The date a text holds, read from its first 10 bytes: "yyyy-mm-dd"
    /// or "mm/dd/yyyy".
    pub fn from_str(s: &str) -> (r: Result<DateLike, DateParseError>)
        requires
            date_text_cuttable(s@),
        ensures
            r is Ok <==> date_of_text(date_text(s@)) is Some,
            r matches Ok(d) ==> (date_of_text(date_text(s@)) matches Some(t) && d@ == (
                t.0 as int,
                t.1 as int,
                t.2 as int,
            )),
            r matches Err(e) ==> parse_outcome(date_text(s@), us_format()) matches Err(m) && m
                == e@,
    {
        let text: &str = if s.len() > 10 {
            let (head, _) = s.split_at(10);
            proof {
                encode_utf8_decode_utf8(head@);
                assert(head.spec_bytes() == encode_utf8(head@));
                assert(head.spec_bytes() =~= encode_utf8(s@).subrange(0, 10));
                assert(head@ == decode_utf8(encode_utf8(s@).subrange(0, 10)));
            }
            head
        } else {
            s
        };
        assert(text@ == date_text(s@));
        match time_parse_date(text, "[year]-[month]-[day]") {
            Ok(t) => Ok(DateLike(Date::from_calendar_date(t.0, t.1, t.2).unwrap())),
            Err(_) => match time_parse_date(text, "[month]/[day]/[year]") {
                Ok(t) => Ok(DateLike(Date::from_calendar_date(t.0, t.1, t.2).unwrap())),
                Err(m) => Err(DateParseError { message: m }),
            },
        }
    }
}

/// The earliest of non-empty dates.
pub fn earliest(dates: &[DateLike]) -> (r: DateLike)
    requires
        dates@.len() > 0,
    ensures
        dates@.contains(r),
        forall|i: int| 0 <= i < dates@.len() ==> date_le(r@, #[trigger] dates@[i]@),
{
    let mut best = dates[0];
    let mut i: usize = 1;
    while i < dates.len()
        invariant
            1 <= i <= dates@.len(),
            dates@.contains(best),
            forall|j: int| 0 <= j < i ==> date_le(best@, #[trigger] dates@[j]@),
        decreases dates@.len() - i,
    {
        if !best.le(&dates[i]) {
            best = dates[i];
        }
        i = i + 1;
    }
    best
}

/// The latest of non-empty dates.
pub fn latest(dates: &[DateLike]) -> (r: DateLike)
    requires
        dates@.len() > 0,
    ensures
        dates@.contains(r),
        forall|i: int| 0 <= i < dates@.len() ==> date_le(#[trigger] dates@[i]@, r@),
{
    let mut best = dates[0];
    let mut i: usize = 1;
    while i < dates.len()
        invariant
            1 <= i <= dates@.len(),
            dates@.contains(best),
            forall|j: int| 0 <= j < i ==> date_le(#[trigger] dates@[j]@, best@),
        decreases dates@.len() - i,
    {
        if !dates[i].le(&best) {
            best = dates[i];
        }
        i = i + 1;
    }
    best
}

/// The bytes of two texts one after the other encode the texts one after the
/// other.
proof fn lemma_encode_utf8_concat(a: Seq<char>, b: Seq<char>)
    ensures
        encode_utf8(a + b) == encode_utf8(a) + encode_utf8(b),
    decreases a.len(),
{
    if a.len() == 0 {
        assert(a + b =~= b);
        assert(encode_utf8(a) + encode_utf8(b) =~= encode_utf8(b));
    } else {
        lemma_encode_utf8_concat(a.drop_first(), b);
        assert((a + b).drop_first() =~= a.drop_first() + b);
        assert((a + b)[0] == a[0]);
        assert(encode_utf8(a + b) =~= encode_utf8(a) + encode_utf8(b));
    }
}

/// A non-empty text has at least one byte.
proof fn lemma_encode_utf8_nonempty(b: Seq<char>)
    requires
        b.len() > 0,
    ensures
        encode_utf8(b).len() > 0,
{
    assert(encode_scalar(b[0] as u32).len() > 0);
}

/// A date is read from the first 10 bytes of a text: whatever follows a text
/// of 10 bytes (such as the time of a date and time) changes neither the text
/// read nor the date found.
pub proof fn law_date_text_reads_the_first_ten_bytes(a: Seq<char>, b: Seq<char>)
    requires
        encode_utf8(a).len() == 10,
    ensures
        date_text(a + b) == a,
        date_of_text(date_text(a + b)) == date_of_text(a),
{
    lemma_encode_utf8_concat(a, b);
    encode_utf8_decode_utf8(a);
    if b.len() == 0 {
        assert(a + b =~= a);
    } else {
        lemma_encode_utf8_nonempty(b);
        assert((encode_utf8(a) + encode_utf8(b)).subrange(0, 10) =~= encode_utf8(a));
    }
}

} // verus!
