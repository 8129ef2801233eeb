use latex_telegram_bot::decimal::{i64_to_text, parse_i64};

#[test]
fn parse_plain_and_signed_numbers() {
    assert_eq!(parse_i64("123"), Some(123));
    assert_eq!(parse_i64("-42"), Some(-42));
    assert_eq!(parse_i64("+7"), Some(7));
    assert_eq!(parse_i64("007"), Some(7));
    assert_eq!(parse_i64("0"), Some(0));
    assert_eq!(parse_i64("-0"), Some(0));
}

#[test]
fn parse_rejects_what_std_rejects() {
    assert_eq!(parse_i64(""), None);
    assert_eq!(parse_i64("-"), None);
    assert_eq!(parse_i64("+"), None);
    assert_eq!(parse_i64("12a"), None);
    assert_eq!(parse_i64(" 1"), None);
    assert_eq!(parse_i64("1 "), None);
    assert_eq!(parse_i64("--1"), None);
    assert_eq!(parse_i64("+-1"), None);
    assert_eq!(parse_i64("１"), None);
}

#[test]
fn parse_range_edges() {
    assert_eq!(parse_i64("9223372036854775807"), Some(i64::MAX));
    assert_eq!(parse_i64("9223372036854775808"), None);
    assert_eq!(parse_i64("-9223372036854775808"), Some(i64::MIN));
    assert_eq!(parse_i64("-9223372036854775809"), None);
    assert_eq!(parse_i64("99999999999999999999999999"), None);
    assert_eq!(parse_i64("99999999999999999999999999x"), None);
}

#[test]
fn parse_agrees_with_std_on_samples() {
    let samples = [
        "5", "-5", "+5", "", "-", "abc", "123456789012", "-00012", "9223372036854775807",
        "9223372036854775808", "-9223372036854775808", "1e3", "+0", "٣",
    ];
    for s in samples.iter() {
        assert_eq!(parse_i64(s), s.parse::<i64>().ok(), "input {:?}", s);
    }
}

#[test]
fn text_of_numbers() {
    assert_eq!(i64_to_text(0), "0");
    assert_eq!(i64_to_text(7), "7");
    assert_eq!(i64_to_text(-5), "-5");
    assert_eq!(i64_to_text(1234567890), "1234567890");
    assert_eq!(i64_to_text(i64::MAX), "9223372036854775807");
    assert_eq!(i64_to_text(i64::MIN), "-9223372036854775808");
}

#[test]
fn text_reads_back_to_the_same_number() {
    let values = [0i64, 1, -1, 10, -10, 99, 100, 123456, -987654321, i64::MAX, i64::MIN];
    for v in values.iter() {
        let text = i64_to_text(*v);
        assert_eq!(text, v.to_string());
        assert_eq!(parse_i64(&text), Some(*v));
    }
}
