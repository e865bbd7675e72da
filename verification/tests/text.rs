use wxrs::text::{parse_u32, str_eq_ignore_case};
use wxrs::air::Main;

#[test]
fn parses_plain_numerals() {
    assert_eq!(parse_u32("0"), Some(0));
    assert_eq!(parse_u32("007"), Some(7));
    assert_eq!(parse_u32("2020"), Some(2020));
    assert_eq!(parse_u32("4294967295"), Some(u32::MAX));
}

#[test]
fn rejects_what_is_not_a_u32_numeral() {
    assert_eq!(parse_u32(""), None);
    assert_eq!(parse_u32("4294967296"), None);
    assert_eq!(parse_u32("99999999999999999999"), None);
    assert_eq!(parse_u32("-1"), None);
    assert_eq!(parse_u32("1.5"), None);
    assert_eq!(parse_u32("12a"), None);
    assert_eq!(parse_u32(" 12"), None);
}

#[test]
fn compares_up_to_ascii_case() {
    assert!(str_eq_ignore_case("HOW_MANY", "how_many"));
    assert!(str_eq_ignore_case("Month", "mOnTh"));
    assert!(str_eq_ignore_case("", ""));
    assert!(!str_eq_ignore_case("Month", "Months"));
    assert!(!str_eq_ignore_case("Month", "Month "));
    assert!(!str_eq_ignore_case("DAY", "DAZ"));
}

#[test]
fn first_sample_of_a_report() {
    let samples = vec![Main { aqi: 2 }, Main { aqi: 4 }];
    assert_eq!(Main::first_of(&samples), Some(Main { aqi: 2 }));
    let none: Vec<Main> = Vec::new();
    assert_eq!(Main::first_of(&none), None);
}
