use pyxirr::day_count::DayCount;
use pyxirr::day_count_names::PyDayCount;

const ALL: [DayCount; 12] = [
    DayCount::ACT_ACT_ISDA,
    DayCount::ACT_365F,
    DayCount::ACT_365_25,
    DayCount::ACT_364,
    DayCount::ACT_360,
    DayCount::THIRTY_360_ISDA,
    DayCount::THIRTY_E_360,
    DayCount::THIRTY_E_PLUS_360,
    DayCount::THIRTY_E_360_ISDA,
    DayCount::THIRTY_U_360,
    DayCount::NL_365,
    DayCount::NL_360,
];

#[test]
fn test_names_parse() {
    let cases = [
        ("Act/Act", DayCount::ACT_ACT_ISDA),
        ("actual/actual isda", DayCount::ACT_ACT_ISDA),
        ("Act/365F", DayCount::ACT_365F),
        ("English", DayCount::ACT_365F),
        ("A/365 Fixed", DayCount::ACT_365F),
        ("act/365.25", DayCount::ACT_365_25),
        ("ACT/364", DayCount::ACT_364),
        ("Act/360", DayCount::ACT_360),
        ("French", DayCount::ACT_360),
        ("NL/365", DayCount::NL_365),
        ("nl360", DayCount::NL_360),
        ("30/360 ISDA", DayCount::THIRTY_360_ISDA),
        ("Bond Basis", DayCount::THIRTY_360_ISDA),
        ("30E/360", DayCount::THIRTY_E_360),
        ("Eurobond basis", DayCount::THIRTY_E_360),
        ("30E+/360", DayCount::THIRTY_E_PLUS_360),
        ("30E/360 German", DayCount::THIRTY_E_360_ISDA),
        ("GERMAN", DayCount::THIRTY_E_360_ISDA),
        ("30/360 US", DayCount::THIRTY_U_360),
        ("30/360 SIA", DayCount::THIRTY_U_360),
    ];
    for (name, expected) in cases {
        assert_eq!(DayCount::from_str(name), Ok(expected), "{}", name);
    }
}

#[test]
fn test_invalid_name() {
    assert_eq!(DayCount::from_str("30/365"), Err("Invalid Day Count Convention"));
    assert_eq!(DayCount::from_str(""), Err("Invalid Day Count Convention"));
    assert_eq!(DayCount::of("act/act "), Err("Invalid Day Count Convention".to_string()));
}

#[test]
fn test_names_round_trip() {
    for dc in ALL {
        assert_eq!(DayCount::from_str(dc.to_string().as_str()), Ok(dc));
        assert_eq!(DayCount::of(dc.__str__().as_str()), Ok(dc));
    }
}

#[test]
fn test_names() {
    assert_eq!(DayCount::ACT_ACT_ISDA.to_string(), "Actual/Actual ISDA");
    assert_eq!(DayCount::ACT_365_25.to_string(), "Actual/365.25");
    assert_eq!(DayCount::THIRTY_E_PLUS_360.__str__(), "30E+/360");
    assert_eq!(DayCount::NL_360.to_string(), "NL/360");
}

#[test]
fn test_py_day_count() {
    assert_eq!(PyDayCount::DayCount(DayCount::ACT_364).try_into(), Ok(DayCount::ACT_364));
    assert_eq!(PyDayCount::String("30u/360".to_string()).try_into(), Ok(DayCount::THIRTY_U_360));
    assert_eq!(
        PyDayCount::String("nope".to_string()).try_into(),
        Err("Invalid Day Count Convention".to_string())
    );
}

#[test]
fn test_documented_aliases() {
    let cases = [
        ("Bond basis", DayCount::THIRTY_360_ISDA),
        ("GERMAN", DayCount::THIRTY_E_360_ISDA),
        ("30/360 SIA", DayCount::THIRTY_U_360),
        ("English", DayCount::ACT_365F),
        ("french", DayCount::ACT_360),
        ("Eurobond basis", DayCount::THIRTY_E_360),
        ("Actual/365 No leap year", DayCount::NL_365),
        ("NL/360", DayCount::NL_360),
    ];
    for (name, expected) in cases {
        assert_eq!(DayCount::from_str(name), Ok(expected));
        assert_eq!(DayCount::of(name), Ok(expected));
    }
    assert_eq!(DayCount::from_str("act/366"), Err("Invalid Day Count Convention"));
}
