use rt::text::{is_valid_float, is_valid_number};

#[test]
fn valid_floats_need_a_decimal_point() {
    assert!(is_valid_float("1.5"));
    assert!(is_valid_float(".5"));
    assert!(is_valid_float("5."));
    assert!(is_valid_float("-3.25"));
    assert!(is_valid_float("+0.0"));
    assert!(is_valid_float("1.5e3"));
    assert!(is_valid_float("2.5E-7"));
    // a valid float without a dot is rejected by this stricter check
    assert!(!is_valid_float("15"));
    assert!(!is_valid_float("1e5"));
    assert!(!is_valid_float("inf"));
}

#[test]
fn malformed_floats_are_rejected() {
    assert!(!is_valid_float(""));
    assert!(!is_valid_float("."));
    assert!(!is_valid_float("1.2.3"));
    assert!(!is_valid_float("abc"));
    assert!(!is_valid_float("1.5e"));
    assert!(!is_valid_float("e1.5"));
    assert!(!is_valid_float("--1.0"));
    assert!(!is_valid_float("1.0f"));
}

#[test]
fn numbers_allow_empty_and_special_values() {
    assert!(is_valid_number(""));
    assert!(is_valid_number("5"));
    assert!(is_valid_number("-12"));
    assert!(is_valid_number("3.5"));
    assert!(is_valid_number("1e9"));
    assert!(is_valid_number("inf"));
    assert!(is_valid_number("-INFINITY"));
    assert!(is_valid_number("NaN"));
    assert!(!is_valid_number("x"));
    assert!(!is_valid_number("1..2"));
    assert!(!is_valid_number("+-1"));
}

#[test]
fn validator_agrees_with_std_parser() {
    let samples = [
        "", ".", "1", "1.", ".1", "1.5", "-1.5", "+1.5", "1e5", "1.5e5", "1.5e+5", "1.5e-5",
        "1.5e", "e5", "inf", "INFINITY", "nan", "NAN", "-inf", "abc", "1.2.3", "--1", "1f",
        "0x10", " 1.0", "1.0 ",
    ];
    for s in samples {
        let expected = !s.is_empty() && s.parse::<f64>().is_ok();
        let dotted = s.contains('.');
        assert_eq!(
            is_valid_float(s),
            expected && dotted,
            "is_valid_float({s:?})"
        );
        assert_eq!(
            is_valid_number(s),
            s.is_empty() || expected,
            "is_valid_number({s:?})"
        );
    }
}
