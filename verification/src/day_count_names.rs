//! The names of the day count conventions: how a convention is written out,
//! and which (case-insensitive) names select it.
use vstd::prelude::*;
use vstd::string::*;

use crate::day_count::DayCount;

verus! {

/// ASCII lower case of a character: 'A'..='Z' become 'a'..='z', every other
/// character stays.
pub open spec fn ascii_lower_char(c: char) -> char {
    if 65 <= (c as u32) <= 90 {
        ((c as u32) + 32) as char
    } else {
        c
    }
}

/// ASCII lower case of a string.
pub open spec fn ascii_lowercase(s: Seq<char>) -> Seq<char> {
    s.map_values(|c: char| ascii_lower_char(c))
}

/// The convention that a lower-case name selects.
pub open spec fn day_count_of_lowercase(s: Seq<char>) -> Option<DayCount> {
    if s == "actual/actual"@ || s == "actual/actual isda"@ || s == "act/act"@ || s
        == "act/act isda"@ {
        Some(DayCount::ACT_ACT_ISDA)
    } else if s == "actual/365 fixed"@ || s == "act/365 fixed"@ || s == "a/365 fixed"@ || s
        == "actual/365f"@ || s == "act/365f"@ || s == "a/365f"@ || s == "english"@ {
        Some(DayCount::ACT_365F)
    } else if s == "actual/365.25"@ || s == "act/365.25"@ || s == "a/365.25"@ {
        Some(DayCount::ACT_365_25)
    } else if s == "actual/364"@ || s == "act/364"@ || s == "a/364"@ {
        Some(DayCount::ACT_364)
    } else if s == "actual/360"@ || s == "act/360"@ || s == "a/360"@ || s == "french"@ {
        Some(DayCount::ACT_360)
    } else if s == "30/360"@ || s == "30/360 isda"@ || s == "bond basis"@ {
        Some(DayCount::THIRTY_360_ISDA)
    } else if s == "30e/360"@ || s == "30/360 isma"@ || s == "eurobond basis"@ {
        Some(DayCount::THIRTY_E_360)
    } else if s == "30u/360"@ || s == "30us/360"@ || s == "30/360 us"@ || s == "30/360 sia"@ {
        Some(DayCount::THIRTY_U_360)
    } else if s == "30e+/360"@ {
        Some(DayCount::THIRTY_E_PLUS_360)
    } else if s == "30e/360 isda"@ || s == "30e/360 german"@ || s == "german"@ {
        Some(DayCount::THIRTY_E_360_ISDA)
    } else if s == "nl/365"@ || s == "nl365"@ || s == "actual/365 no leap year"@ {
        Some(DayCount::NL_365)
    } else if s == "nl/360"@ || s == "nl360"@ {
        Some(DayCount::NL_360)
    } else {
        None
    }
}

/// The convention that a name selects, ignoring ASCII case.
pub open spec fn parse_day_count(s: Seq<char>) -> Option<DayCount> {
    day_count_of_lowercase(ascii_lowercase(s))
}

/// How a convention is written out.
pub open spec fn day_count_name(dc: DayCount) -> Seq<char> {
    match dc {
        DayCount::ACT_ACT_ISDA => "Actual/Actual ISDA"@,
        DayCount::ACT_365F => "Actual/365F"@,
        DayCount::ACT_365_25 => "Actual/365.25"@,
        DayCount::ACT_364 => "Actual/364"@,
        DayCount::ACT_360 => "Actual/360"@,
        DayCount::THIRTY_360_ISDA => "30/360 ISDA"@,
        DayCount::THIRTY_E_360 => "30E/360"@,
        DayCount::THIRTY_E_PLUS_360 => "30E+/360"@,
        DayCount::THIRTY_E_360_ISDA => "30E/360 ISDA"@,
        DayCount::THIRTY_U_360 => "30U/360"@,
        DayCount::NL_365 => "NL/365"@,
        DayCount::NL_360 => "NL/360"@,
    }
}

/// The message of a name that selects no convention.
pub open spec fn invalid_day_count_message() -> Seq<char> {
    "Invalid Day Count Convention"@
}

/// Calls `str::to_ascii_lowercase`, which maps 'A'..='Z' to 'a'..='z' and
/// leaves every other character as it is.
#[verifier::external_body]
fn to_ascii_lowercase(s: &str) -> (r: String)
    ensures
        r@ == ascii_lowercase(s@),
{
    s.to_ascii_lowercase()
}

/// Whether two strings hold the same characters.
fn same_chars(a: &str, b: &str) -> (r: bool)
    ensures
        r == (a@ == b@),
{
    let n = a.unicode_len();
    let m = b.unicode_len();
    if n != m {
        return false;
    }
    let mut i: usize = 0;
    while i < n
        invariant
            n == a@.len(),
            m == b@.len(),
            n == m,
            i <= n,
            forall|j: int| 0 <= j < i ==> a@[j] == b@[j],
        decreases n - i,
    {
        if a.get_char(i) != b.get_char(i) {
            return false;
        }
        i = i + 1;
    }
    assert(a@ =~= b@);
    true
}

impl DayCount {
    /// The convention that a name selects, ignoring ASCII case.
    pub fn from_str(s: &str) -> (r: Result<DayCount, &'static str>)
        ensures
            parse_day_count(s@) matches Some(dc) ==> r == Ok::<DayCount, &'static str>(dc),
            parse_day_count(s@) is None ==> r is Err,
            r matches Err(e) ==> e@ == invalid_day_count_message(),
    {
        let lower = to_ascii_lowercase(s);
        let l = lower.as_str();
        if same_chars(l, "actual/actual") || same_chars(l, "actual/actual isda") || same_chars(
            l,
            "act/act",
        ) || same_chars(l, "act/act isda") {
            Ok(DayCount::ACT_ACT_ISDA)
        } else if same_chars(l, "actual/365 fixed") || same_chars(l, "act/365 fixed")
            || same_chars(l, "a/365 fixed") || same_chars(l, "actual/365f") || same_chars(
            l,
            "act/365f",
        ) || same_chars(l, "a/365f") || same_chars(l, "english") {
            Ok(DayCount::ACT_365F)
        } else if same_chars(l, "actual/365.25") || same_chars(l, "act/365.25") || same_chars(
            l,
            "a/365.25",
        ) {
            Ok(DayCount::ACT_365_25)
        } else if same_chars(l, "actual/364") || same_chars(l, "act/364") || same_chars(
            l,
            "a/364",
        ) {
            Ok(DayCount::ACT_364)
        } else if same_chars(l, "actual/360") || same_chars(l, "act/360") || same_chars(
            l,
            "a/360",
        ) || same_chars(l, "french") {
            Ok(DayCount::ACT_360)
        } else if same_chars(l, "30/360") || same_chars(l, "30/360 isda") || same_chars(
            l,
            "bond basis",
        ) {
            Ok(DayCount::THIRTY_360_ISDA)
        } else if same_chars(l, "30e/360") || same_chars(l, "30/360 isma") || same_chars(
            l,
            "eurobond basis",
        ) {
            Ok(DayCount::THIRTY_E_360)
        } else if same_chars(l, "30u/360") || same_chars(l, "30us/360") || same_chars(
            l,
            "30/360 us",
        ) || same_chars(l, "30/360 sia") {
            Ok(DayCount::THIRTY_U_360)
        } else if same_chars(l, "30e+/360") {
            Ok(DayCount::THIRTY_E_PLUS_360)
        } else if same_chars(l, "30e/360 isda") || same_chars(l, "30e/360 german") || same_chars(
            l,
            "german",
        ) {
            Ok(DayCount::THIRTY_E_360_ISDA)
        } else if same_chars(l, "nl/365") || same_chars(l, "nl365") || same_chars(
            l,
            "actual/365 no leap year",
        ) {
            Ok(DayCount::NL_365)
        } else if same_chars(l, "nl/360") || same_chars(l, "nl360") {
            Ok(DayCount::NL_360)
        } else {
            Err("Invalid Day Count Convention")
        }
    }

    /// The convention that a name selects, ignoring ASCII case; the error
    /// carries the message of an invalid name.
    pub fn of(value: &str) -> (r: Result<DayCount, String>)
        ensures
            parse_day_count(value@) matches Some(dc) ==> r == Ok::<DayCount, String>(dc),
            parse_day_count(value@) is None ==> r is Err,
            r matches Err(e) ==> e@ == invalid_day_count_message(),
    {
        match DayCount::from_str(value) {
            Ok(dc) => Ok(dc),
            Err(e) => Err(String::from_str(e)),
        }
    }

    /// The name of the convention, such as "Actual/365F".
    pub fn to_string(&self) -> (r: String)
        ensures
            r@ == day_count_name(*self),
    {
        let s = match self {
            DayCount::ACT_ACT_ISDA => "Actual/Actual ISDA",
            DayCount::ACT_365F => "Actual/365F",
            DayCount::ACT_365_25 => "Actual/365.25",
            DayCount::ACT_364 => "Actual/364",
            DayCount::ACT_360 => "Actual/360",
            DayCount::THIRTY_360_ISDA => "30/360 ISDA",
            DayCount::THIRTY_E_360 => "30E/360",
            DayCount::THIRTY_E_PLUS_360 => "30E+/360",
            DayCount::THIRTY_E_360_ISDA => "30E/360 ISDA",
            DayCount::THIRTY_U_360 => "30U/360",
            DayCount::NL_365 => "NL/365",
            DayCount::NL_360 => "NL/360",
        };
        String::from_str(s)
    }

    /// The name of the convention, as Python's `str` shows it.
    pub fn __str__(&self) -> (r: String)
        ensures
            r@ == day_count_name(*self),
    {
        self.to_string()
    }
}

/// A day count convention as a caller may give it: by name or as a value.
pub enum PyDayCount {
    String(String),
    DayCount(DayCount),
}

impl PyDayCount {
    /// The convention given: a name is looked up as `DayCount::of` does.
    pub fn try_into(self) -> (r: Result<DayCount, String>)
        ensures
            self matches PyDayCount::DayCount(dc) ==> r == Ok::<DayCount, String>(dc),
            self matches PyDayCount::String(s) ==> (parse_day_count(s@) matches Some(dc) ==> r
                == Ok::<DayCount, String>(dc)),
            self matches PyDayCount::String(s) ==> (parse_day_count(s@) is None ==> r is Err),
            r matches Err(e) ==> e@ == invalid_day_count_message(),
    {
        match self {
            PyDayCount::String(s) => DayCount::of(s.as_str()),
            PyDayCount::DayCount(d) => Ok(d),
        }
    }
}

/// Lower-casing twice changes nothing more than lower-casing once.
proof fn lemma_ascii_lowercase_idempotent(s: Seq<char>)
    ensures
        ascii_lowercase(ascii_lowercase(s)) =~= ascii_lowercase(s),
{
    assert forall|i: int| 0 <= i < s.len() implies ascii_lower_char(ascii_lower_char(s[i]))
        == ascii_lower_char(s[i]) by {
        let c = s[i];
        if 65 <= (c as u32) <= 90 {
            assert((((c as u32) + 32) as char) as u32 == (c as u32) + 32);
        }
    }
}

/// Names are looked up ignoring ASCII case: a name and its lower case select
/// the same convention.
pub proof fn law_parse_ignores_ascii_case(s: Seq<char>)
    ensures
        parse_day_count(s) == parse_day_count(ascii_lowercase(s)),
{
    lemma_ascii_lowercase_idempotent(s);
}

/// The name that a convention is written out as selects that convention.
pub proof fn law_name_selects_its_convention(dc: DayCount)
    ensures
        parse_day_count(day_count_name(dc)) == Some(dc),
{
        reveal_strlit("actual/actual");
        reveal_strlit("actual/actual isda");
        reveal_strlit("act/act");
        reveal_strlit("act/act isda");
        reveal_strlit("actual/365 fixed");
        reveal_strlit("act/365 fixed");
        reveal_strlit("a/365 fixed");
        reveal_strlit("actual/365f");
        reveal_strlit("act/365f");
        reveal_strlit("a/365f");
        reveal_strlit("english");
        reveal_strlit("actual/365.25");
        reveal_strlit("act/365.25");
        reveal_strlit("a/365.25");
        reveal_strlit("actual/364");
        reveal_strlit("act/364");
        reveal_strlit("a/364");
        reveal_strlit("actual/360");
        reveal_strlit("act/360");
        reveal_strlit("a/360");
        reveal_strlit("french");
        reveal_strlit("30/360");
        reveal_strlit("30/360 isda");
        reveal_strlit("bond basis");
        reveal_strlit("30e/360");
        reveal_strlit("30/360 isma");
        reveal_strlit("eurobond basis");
        reveal_strlit("30u/360");
        reveal_strlit("30us/360");
        reveal_strlit("30/360 us");
        reveal_strlit("30/360 sia");
        reveal_strlit("30e+/360");
        reveal_strlit("30e/360 isda");
        reveal_strlit("30e/360 german");
        reveal_strlit("german");
        reveal_strlit("nl/365");
        reveal_strlit("nl365");
        reveal_strlit("actual/365 no leap year");
        reveal_strlit("nl/360");
        reveal_strlit("nl360");
        reveal_strlit("Actual/Actual ISDA");
        reveal_strlit("Actual/365F");
        reveal_strlit("Actual/365.25");
        reveal_strlit("Actual/364");
        reveal_strlit("Actual/360");
        reveal_strlit("30/360 ISDA");
        reveal_strlit("30E/360");
        reveal_strlit("30E+/360");
        reveal_strlit("30E/360 ISDA");
        reveal_strlit("30U/360");
        reveal_strlit("NL/365");
        reveal_strlit("NL/360");
    let name = day_count_name(dc);
    match dc {
        DayCount::ACT_ACT_ISDA => {
            assert(ascii_lowercase(name) =~= "actual/actual isda"@);
            assert(day_count_of_lowercase("actual/actual isda"@) == Some(DayCount::ACT_ACT_ISDA));
        },
        DayCount::ACT_365F => {
            assert(ascii_lowercase(name) =~= "actual/365f"@);
            assert(day_count_of_lowercase("actual/365f"@) == Some(DayCount::ACT_365F));
        },
        DayCount::ACT_365_25 => {
            assert(ascii_lowercase(name) =~= "actual/365.25"@);
            assert("actual/365.25"@[7] != "actual/actual"@[7]);
            assert("actual/365.25"@[3] != "act/365 fixed"@[3]);
            assert(day_count_of_lowercase("actual/365.25"@) == Some(DayCount::ACT_365_25));
        },
        DayCount::ACT_364 => {
            assert(ascii_lowercase(name) =~= "actual/364"@);
            assert("actual/364"@[3] != "act/365.25"@[3]);
            assert(day_count_of_lowercase("actual/364"@) == Some(DayCount::ACT_364));
        },
        DayCount::ACT_360 => {
            assert(ascii_lowercase(name) =~= "actual/360"@);
            assert("actual/360"@[3] != "act/365.25"@[3]);
            assert("actual/360"@[9] != "actual/364"@[9]);
            assert(day_count_of_lowercase("actual/360"@) == Some(DayCount::ACT_360));
        },
        DayCount::THIRTY_360_ISDA => {
            assert(ascii_lowercase(name) =~= "30/360 isda"@);
            assert("30/360 isda"@[0] != "a/365 fixed"@[0]);
            assert("30/360 isda"@[0] != "actual/365f"@[0]);
            assert(day_count_of_lowercase("30/360 isda"@) == Some(DayCount::THIRTY_360_ISDA));
        },
        DayCount::THIRTY_E_360 => {
            assert(ascii_lowercase(name) =~= "30e/360"@);
            assert("30e/360"@[0] != "act/act"@[0]);
            assert("30e/360"@[0] != "english"@[0]);
            assert("30e/360"@[0] != "act/364"@[0]);
            assert("30e/360"@[0] != "act/360"@[0]);
            assert(day_count_of_lowercase("30e/360"@) == Some(DayCount::THIRTY_E_360));
        },
        DayCount::THIRTY_E_PLUS_360 => {
            assert(ascii_lowercase(name) =~= "30e+/360"@);
            assert("30e+/360"@[0] != "act/365f"@[0]);
            assert("30e+/360"@[0] != "a/365.25"@[0]);
            assert("30e+/360"@[2] != "30us/360"@[2]);
            assert(day_count_of_lowercase("30e+/360"@) == Some(DayCount::THIRTY_E_PLUS_360));
        },
        DayCount::THIRTY_E_360_ISDA => {
            assert(ascii_lowercase(name) =~= "30e/360 isda"@);
            assert("30e/360 isda"@[0] != "act/act isda"@[0]);
            assert(day_count_of_lowercase("30e/360 isda"@) == Some(DayCount::THIRTY_E_360_ISDA));
        },
        DayCount::THIRTY_U_360 => {
            assert(ascii_lowercase(name) =~= "30u/360"@);
            assert("30u/360"@[0] != "act/act"@[0]);
            assert("30u/360"@[0] != "english"@[0]);
            assert("30u/360"@[0] != "act/364"@[0]);
            assert("30u/360"@[0] != "act/360"@[0]);
            assert("30u/360"@[2] != "30e/360"@[2]);
            assert(day_count_of_lowercase("30u/360"@) == Some(DayCount::THIRTY_U_360));
        },
        DayCount::NL_365 => {
            assert(ascii_lowercase(name) =~= "nl/365"@);
            assert("nl/365"@[0] != "a/365f"@[0]);
            assert("nl/365"@[0] != "french"@[0]);
            assert("nl/365"@[0] != "30/360"@[0]);
            assert("nl/365"@[0] != "german"@[0]);
            assert(day_count_of_lowercase("nl/365"@) == Some(DayCount::NL_365));
        },
        DayCount::NL_360 => {
            assert(ascii_lowercase(name) =~= "nl/360"@);
            assert("nl/360"@[0] != "a/365f"@[0]);
            assert("nl/360"@[0] != "french"@[0]);
            assert("nl/360"@[0] != "30/360"@[0]);
            assert("nl/360"@[0] != "german"@[0]);
            assert("nl/360"@[5] != "nl/365"@[5]);
            assert(day_count_of_lowercase("nl/360"@) == Some(DayCount::NL_360));
        },
    }
}

/// Every documented name of a convention, in any ASCII case, selects that
/// convention.
pub proof fn law_documented_names_select_their_conventions(s: Seq<char>)
    ensures
        ascii_lowercase(s) == "actual/actual"@ ==> parse_day_count(s) == Some(DayCount::ACT_ACT_ISDA),
        ascii_lowercase(s) == "actual/actual isda"@ ==> parse_day_count(s) == Some(DayCount::ACT_ACT_ISDA),
        ascii_lowercase(s) == "act/act"@ ==> parse_day_count(s) == Some(DayCount::ACT_ACT_ISDA),
        ascii_lowercase(s) == "act/act isda"@ ==> parse_day_count(s) == Some(DayCount::ACT_ACT_ISDA),
        ascii_lowercase(s) == "actual/365 fixed"@ ==> parse_day_count(s) == Some(DayCount::ACT_365F),
        ascii_lowercase(s) == "act/365 fixed"@ ==> parse_day_count(s) == Some(DayCount::ACT_365F),
        ascii_lowercase(s) == "a/365 fixed"@ ==> parse_day_count(s) == Some(DayCount::ACT_365F),
        ascii_lowercase(s) == "actual/365f"@ ==> parse_day_count(s) == Some(DayCount::ACT_365F),
        ascii_lowercase(s) == "act/365f"@ ==> parse_day_count(s) == Some(DayCount::ACT_365F),
        ascii_lowercase(s) == "a/365f"@ ==> parse_day_count(s) == Some(DayCount::ACT_365F),
        ascii_lowercase(s) == "english"@ ==> parse_day_count(s) == Some(DayCount::ACT_365F),
        ascii_lowercase(s) == "actual/365.25"@ ==> parse_day_count(s) == Some(DayCount::ACT_365_25),
        ascii_lowercase(s) == "act/365.25"@ ==> parse_day_count(s) == Some(DayCount::ACT_365_25),
        ascii_lowercase(s) == "a/365.25"@ ==> parse_day_count(s) == Some(DayCount::ACT_365_25),
        ascii_lowercase(s) == "actual/364"@ ==> parse_day_count(s) == Some(DayCount::ACT_364),
        ascii_lowercase(s) == "act/364"@ ==> parse_day_count(s) == Some(DayCount::ACT_364),
        ascii_lowercase(s) == "a/364"@ ==> parse_day_count(s) == Some(DayCount::ACT_364),
        ascii_lowercase(s) == "actual/360"@ ==> parse_day_count(s) == Some(DayCount::ACT_360),
        ascii_lowercase(s) == "act/360"@ ==> parse_day_count(s) == Some(DayCount::ACT_360),
        ascii_lowercase(s) == "a/360"@ ==> parse_day_count(s) == Some(DayCount::ACT_360),
        ascii_lowercase(s) == "french"@ ==> parse_day_count(s) == Some(DayCount::ACT_360),
        ascii_lowercase(s) == "30/360"@ ==> parse_day_count(s) == Some(DayCount::THIRTY_360_ISDA),
        ascii_lowercase(s) == "30/360 isda"@ ==> parse_day_count(s) == Some(DayCount::THIRTY_360_ISDA),
        ascii_lowercase(s) == "bond basis"@ ==> parse_day_count(s) == Some(DayCount::THIRTY_360_ISDA),
        ascii_lowercase(s) == "30e/360"@ ==> parse_day_count(s) == Some(DayCount::THIRTY_E_360),
        ascii_lowercase(s) == "30/360 isma"@ ==> parse_day_count(s) == Some(DayCount::THIRTY_E_360),
        ascii_lowercase(s) == "eurobond basis"@ ==> parse_day_count(s) == Some(DayCount::THIRTY_E_360),
        ascii_lowercase(s) == "30u/360"@ ==> parse_day_count(s) == Some(DayCount::THIRTY_U_360),
        ascii_lowercase(s) == "30us/360"@ ==> parse_day_count(s) == Some(DayCount::THIRTY_U_360),
        ascii_lowercase(s) == "30/360 us"@ ==> parse_day_count(s) == Some(DayCount::THIRTY_U_360),
        ascii_lowercase(s) == "30/360 sia"@ ==> parse_day_count(s) == Some(DayCount::THIRTY_U_360),
        ascii_lowercase(s) == "30e+/360"@ ==> parse_day_count(s) == Some(DayCount::THIRTY_E_PLUS_360),
        ascii_lowercase(s) == "30e/360 isda"@ ==> parse_day_count(s) == Some(DayCount::THIRTY_E_360_ISDA),
        ascii_lowercase(s) == "30e/360 german"@ ==> parse_day_count(s) == Some(DayCount::THIRTY_E_360_ISDA),
        ascii_lowercase(s) == "german"@ ==> parse_day_count(s) == Some(DayCount::THIRTY_E_360_ISDA),
        ascii_lowercase(s) == "nl/365"@ ==> parse_day_count(s) == Some(DayCount::NL_365),
        ascii_lowercase(s) == "nl365"@ ==> parse_day_count(s) == Some(DayCount::NL_365),
        ascii_lowercase(s) == "actual/365 no leap year"@ ==> parse_day_count(s) == Some(DayCount::NL_365),
        ascii_lowercase(s) == "nl/360"@ ==> parse_day_count(s) == Some(DayCount::NL_360),
        ascii_lowercase(s) == "nl360"@ ==> parse_day_count(s) == Some(DayCount::NL_360),
{
    reveal_strlit("actual/actual");
    reveal_strlit("actual/actual isda");
    reveal_strlit("act/act");
    reveal_strlit("act/act isda");
    reveal_strlit("actual/365 fixed");
    reveal_strlit("act/365 fixed");
    reveal_strlit("a/365 fixed");
    reveal_strlit("actual/365f");
    reveal_strlit("act/365f");
    reveal_strlit("a/365f");
    reveal_strlit("english");
    reveal_strlit("actual/365.25");
    reveal_strlit("act/365.25");
    reveal_strlit("a/365.25");
    reveal_strlit("actual/364");
    reveal_strlit("act/364");
    reveal_strlit("a/364");
    reveal_strlit("actual/360");
    reveal_strlit("act/360");
    reveal_strlit("a/360");
    reveal_strlit("french");
    reveal_strlit("30/360");
    reveal_strlit("30/360 isda");
    reveal_strlit("bond basis");
    reveal_strlit("30e/360");
    reveal_strlit("30/360 isma");
    reveal_strlit("eurobond basis");
    reveal_strlit("30u/360");
    reveal_strlit("30us/360");
    reveal_strlit("30/360 us");
    reveal_strlit("30/360 sia");
    reveal_strlit("30e+/360");
    reveal_strlit("30e/360 isda");
    reveal_strlit("30e/360 german");
    reveal_strlit("german");
    reveal_strlit("nl/365");
    reveal_strlit("nl365");
    reveal_strlit("actual/365 no leap year");
    reveal_strlit("nl/360");
    reveal_strlit("nl360");
    assert("actual/actual"@.len() == 13);
    assert("actual/actual isda"@.len() == 18);
    assert("act/act"@.len() == 7);
    assert("act/act isda"@.len() == 12);
    assert("actual/365 fixed"@.len() == 16);
    assert("act/365 fixed"@.len() == 13);
    assert("a/365 fixed"@.len() == 11);
    assert("actual/365f"@.len() == 11);
    assert("act/365f"@.len() == 8);
    assert("a/365f"@.len() == 6);
    assert("english"@.len() == 7);
    assert("actual/365.25"@.len() == 13);
    assert("act/365.25"@.len() == 10);
    assert("a/365.25"@.len() == 8);
    assert("actual/364"@.len() == 10);
    assert("act/364"@.len() == 7);
    assert("a/364"@.len() == 5);
    assert("actual/360"@.len() == 10);
    assert("act/360"@.len() == 7);
    assert("a/360"@.len() == 5);
    assert("french"@.len() == 6);
    assert("30/360"@.len() == 6);
    assert("30/360 isda"@.len() == 11);
    assert("bond basis"@.len() == 10);
    assert("30e/360"@.len() == 7);
    assert("30/360 isma"@.len() == 11);
    assert("eurobond basis"@.len() == 14);
    assert("30u/360"@.len() == 7);
    assert("30us/360"@.len() == 8);
    assert("30/360 us"@.len() == 9);
    assert("30/360 sia"@.len() == 10);
    assert("30e+/360"@.len() == 8);
    assert("30e/360 isda"@.len() == 12);
    assert("30e/360 german"@.len() == 14);
    assert("german"@.len() == 6);
    assert("nl/365"@.len() == 6);
    assert("nl365"@.len() == 5);
    assert("actual/365 no leap year"@.len() == 23);
    assert("nl/360"@.len() == 6);
    assert("nl360"@.len() == 5);
    assert("act/365 fixed"@[3] == '/');
    assert("actual/actual"@[3] == 'u');
    assert("english"@[0] == 'e');
    assert("act/act"@[0] == 'a');
    assert("actual/365.25"@[7] == '3');
    assert("actual/actual"@[7] == 'a');
    assert("actual/365.25"@[3] == 'u');
    assert("a/365.25"@[1] == '/');
    assert("act/365f"@[1] == 'c');
    assert("actual/364"@[3] == 'u');
    assert("act/365.25"@[3] == '/');
    assert("act/364"@[4] == '3');
    assert("act/act"@[4] == 'a');
    assert("act/364"@[0] == 'a');
    assert("actual/360"@[3] == 'u');
    assert("actual/360"@[9] == '0');
    assert("actual/364"@[9] == '4');
    assert("act/360"@[4] == '3');
    assert("act/360"@[0] == 'a');
    assert("act/360"@[6] == '0');
    assert("act/364"@[6] == '4');
    assert("a/360"@[4] == '0');
    assert("a/364"@[4] == '4');
    assert("french"@[0] == 'f');
    assert("a/365f"@[0] == 'a');
    assert("30/360"@[0] == '3');
    assert("30/360 isda"@[0] == '3');
    assert("a/365 fixed"@[0] == 'a');
    assert("actual/365f"@[0] == 'a');
    assert("bond basis"@[0] == 'b');
    assert("act/365.25"@[0] == 'a');
    assert("actual/364"@[0] == 'a');
    assert("actual/360"@[0] == 'a');
    assert("30e/360"@[0] == '3');
    assert("30/360 isma"@[0] == '3');
    assert("30/360 isma"@[9] == 'm');
    assert("30/360 isda"@[9] == 'd');
    assert("30u/360"@[0] == '3');
    assert("30u/360"@[2] == 'u');
    assert("30e/360"@[2] == 'e');
    assert("30us/360"@[0] == '3');
    assert("act/365f"@[0] == 'a');
    assert("a/365.25"@[0] == 'a');
    assert("30/360 sia"@[0] == '3');
    assert("30e+/360"@[0] == '3');
    assert("30e+/360"@[2] == 'e');
    assert("30us/360"@[2] == 'u');
    assert("30e/360 isda"@[0] == '3');
    assert("act/act isda"@[0] == 'a');
    assert("30e/360 german"@[0] == '3');
    assert("eurobond basis"@[0] == 'e');
    assert("german"@[0] == 'g');
    assert("nl/365"@[0] == 'n');
    assert("nl365"@[0] == 'n');
    assert("a/364"@[0] == 'a');
    assert("a/360"@[0] == 'a');
    assert("nl/360"@[0] == 'n');
    assert("nl/360"@[5] == '0');
    assert("nl/365"@[5] == '5');
    assert("nl360"@[0] == 'n');
    assert("nl360"@[4] == '0');
    assert("nl365"@[4] == '5');
    assert(day_count_of_lowercase("actual/actual"@) == Some(DayCount::ACT_ACT_ISDA));
    assert(day_count_of_lowercase("actual/actual isda"@) == Some(DayCount::ACT_ACT_ISDA));
    assert(day_count_of_lowercase("act/act"@) == Some(DayCount::ACT_ACT_ISDA));
    assert(day_count_of_lowercase("act/act isda"@) == Some(DayCount::ACT_ACT_ISDA));
    assert(day_count_of_lowercase("actual/365 fixed"@) == Some(DayCount::ACT_365F));
    assert(day_count_of_lowercase("act/365 fixed"@) == Some(DayCount::ACT_365F));
    assert(day_count_of_lowercase("a/365 fixed"@) == Some(DayCount::ACT_365F));
    assert(day_count_of_lowercase("actual/365f"@) == Some(DayCount::ACT_365F));
    assert(day_count_of_lowercase("act/365f"@) == Some(DayCount::ACT_365F));
    assert(day_count_of_lowercase("a/365f"@) == Some(DayCount::ACT_365F));
    assert(day_count_of_lowercase("english"@) == Some(DayCount::ACT_365F));
    assert(day_count_of_lowercase("actual/365.25"@) == Some(DayCount::ACT_365_25));
    assert(day_count_of_lowercase("act/365.25"@) == Some(DayCount::ACT_365_25));
    assert(day_count_of_lowercase("a/365.25"@) == Some(DayCount::ACT_365_25));
    assert(day_count_of_lowercase("actual/364"@) == Some(DayCount::ACT_364));
    assert(day_count_of_lowercase("act/364"@) == Some(DayCount::ACT_364));
    assert(day_count_of_lowercase("a/364"@) == Some(DayCount::ACT_364));
    assert(day_count_of_lowercase("actual/360"@) == Some(DayCount::ACT_360));
    assert(day_count_of_lowercase("act/360"@) == Some(DayCount::ACT_360));
    assert(day_count_of_lowercase("a/360"@) == Some(DayCount::ACT_360));
    assert(day_count_of_lowercase("french"@) == Some(DayCount::ACT_360));
    assert(day_count_of_lowercase("30/360"@) == Some(DayCount::THIRTY_360_ISDA));
    assert(day_count_of_lowercase("30/360 isda"@) == Some(DayCount::THIRTY_360_ISDA));
    assert(day_count_of_lowercase("bond basis"@) == Some(DayCount::THIRTY_360_ISDA));
    assert(day_count_of_lowercase("30e/360"@) == Some(DayCount::THIRTY_E_360));
    assert(day_count_of_lowercase("30/360 isma"@) == Some(DayCount::THIRTY_E_360));
    assert(day_count_of_lowercase("eurobond basis"@) == Some(DayCount::THIRTY_E_360));
    assert(day_count_of_lowercase("30u/360"@) == Some(DayCount::THIRTY_U_360));
    assert(day_count_of_lowercase("30us/360"@) == Some(DayCount::THIRTY_U_360));
    assert(day_count_of_lowercase("30/360 us"@) == Some(DayCount::THIRTY_U_360));
    assert(day_count_of_lowercase("30/360 sia"@) == Some(DayCount::THIRTY_U_360));
    assert(day_count_of_lowercase("30e+/360"@) == Some(DayCount::THIRTY_E_PLUS_360));
    assert(day_count_of_lowercase("30e/360 isda"@) == Some(DayCount::THIRTY_E_360_ISDA));
    assert(day_count_of_lowercase("30e/360 german"@) == Some(DayCount::THIRTY_E_360_ISDA));
    assert(day_count_of_lowercase("german"@) == Some(DayCount::THIRTY_E_360_ISDA));
    assert(day_count_of_lowercase("nl/365"@) == Some(DayCount::NL_365));
    assert(day_count_of_lowercase("nl365"@) == Some(DayCount::NL_365));
    assert(day_count_of_lowercase("actual/365 no leap year"@) == Some(DayCount::NL_365));
    assert(day_count_of_lowercase("nl/360"@) == Some(DayCount::NL_360));
    assert(day_count_of_lowercase("nl360"@) == Some(DayCount::NL_360));
}


} // verus!
