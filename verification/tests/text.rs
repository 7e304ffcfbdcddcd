use ta_core::helpers::MA;
use ta_core::text::{parse_u8, str_eq, u8_to_string};

#[test]
fn decimal_printing_is_canonical() {
    assert_eq!(u8_to_string(0).as_str(), "0");
    assert_eq!(u8_to_string(7).as_str(), "7");
    assert_eq!(u8_to_string(10).as_str(), "10");
    assert_eq!(u8_to_string(42).as_str(), "42");
    assert_eq!(u8_to_string(255).as_str(), "255");
}

#[test]
fn decimal_parsing_accepts_exactly_in_range_digit_strings() {
    assert_eq!(parse_u8("0"), Some(0));
    assert_eq!(parse_u8("007"), Some(7));
    assert_eq!(parse_u8("255"), Some(255));
    assert_eq!(parse_u8("256"), None);
    assert_eq!(parse_u8("999"), None);
    assert_eq!(parse_u8(""), None);
    assert_eq!(parse_u8("12a"), None);
    assert_eq!(parse_u8("-1"), None);
    assert_eq!(parse_u8(" 1"), None);
}

#[test]
fn decimal_round_trip() {
    for n in [0u8, 1, 9, 10, 99, 100, 254, 255] {
        assert_eq!(parse_u8(u8_to_string(n).as_str()), Some(n));
    }
}

#[test]
fn selector_strings_round_trip() {
    for m in [MA::SMA(1), MA::EMA(14), MA::RMA(255), MA::WMA(10)] {
        let s = m.to_config_string();
        assert_eq!(MA::parse(s.as_str()), Some(m));
    }
    assert_eq!(MA::RMA(14).to_config_string().as_str(), "rma-14");
}

#[test]
fn selector_parsing_rejects_malformed_strings() {
    assert_eq!(MA::parse("rma-14"), Some(MA::RMA(14)));
    assert_eq!(MA::parse("sma-0"), Some(MA::SMA(0))); // parses; validation rejects later
    assert_eq!(MA::parse(""), None);
    assert_eq!(MA::parse("rma"), None);
    assert_eq!(MA::parse("rma-"), None);
    assert_eq!(MA::parse("rma14"), None);
    assert_eq!(MA::parse("xma-14"), None);
    assert_eq!(MA::parse("RMA-14"), None);
    assert_eq!(MA::parse("rma-999"), None);
    assert_eq!(MA::parse("rma--1"), None);
}

#[test]
fn str_eq_compares_by_characters() {
    assert!(str_eq("", ""));
    assert!(str_eq("period", "period"));
    assert!(!str_eq("period", "periods"));
    assert!(!str_eq("method1", "method2"));
}
