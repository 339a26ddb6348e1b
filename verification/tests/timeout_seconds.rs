use std::time::Duration;
use tzupdate::seconds::{parse_seconds, parse_secs, SecsError};

#[test]
fn digits_are_seconds() {
    assert_eq!(parse_seconds("30"), Ok(30));
    assert_eq!(parse_seconds("0"), Ok(0));
    assert_eq!(parse_seconds("7"), Ok(7));
    assert_eq!(parse_seconds("86400"), Ok(86400));
}

#[test]
fn leading_zeros_do_not_count() {
    assert_eq!(parse_seconds("007"), Ok(7));
    assert_eq!(parse_seconds("0000000000000000000000000030"), Ok(30));
}

#[test]
fn a_plus_sign_may_precede_the_digits() {
    assert_eq!(parse_seconds("+30"), Ok(30));
    assert_eq!(parse_seconds("+0"), Ok(0));
}

#[test]
fn the_largest_number_of_seconds_fits() {
    assert_eq!(parse_seconds("18446744073709551615"), Ok(u64::MAX));
    assert_eq!(parse_seconds("+18446744073709551615"), Ok(u64::MAX));
}

#[test]
fn a_number_beyond_64_bits_is_too_large() {
    assert_eq!(parse_seconds("18446744073709551616"), Err(SecsError::TooLarge));
    assert_eq!(parse_seconds("18446744073709551620"), Err(SecsError::TooLarge));
    assert_eq!(parse_seconds("99999999999999999999"), Err(SecsError::TooLarge));
    assert_eq!(parse_seconds("184467440737095516150"), Err(SecsError::TooLarge));
}

#[test]
fn an_empty_text_is_empty() {
    assert_eq!(parse_seconds(""), Err(SecsError::Empty));
}

#[test]
fn anything_but_digits_is_invalid() {
    assert_eq!(parse_seconds("+"), Err(SecsError::InvalidDigit));
    assert_eq!(parse_seconds("-"), Err(SecsError::InvalidDigit));
    assert_eq!(parse_seconds("-5"), Err(SecsError::InvalidDigit));
    assert_eq!(parse_seconds("++5"), Err(SecsError::InvalidDigit));
    assert_eq!(parse_seconds("5+"), Err(SecsError::InvalidDigit));
    assert_eq!(parse_seconds(" 30"), Err(SecsError::InvalidDigit));
    assert_eq!(parse_seconds("30 "), Err(SecsError::InvalidDigit));
    assert_eq!(parse_seconds("30s"), Err(SecsError::InvalidDigit));
    assert_eq!(parse_seconds("3_0"), Err(SecsError::InvalidDigit));
    assert_eq!(parse_seconds("1.5"), Err(SecsError::InvalidDigit));
    assert_eq!(parse_seconds("0x1e"), Err(SecsError::InvalidDigit));
    assert_eq!(parse_seconds("\u{663}\u{660}"), Err(SecsError::InvalidDigit));
}

#[test]
fn the_first_offence_is_the_error() {
    assert_eq!(parse_seconds("99999999999999999999x"), Err(SecsError::TooLarge));
    assert_eq!(parse_seconds("9x999999999999999999999"), Err(SecsError::InvalidDigit));
    assert_eq!(parse_seconds("1844674407370955161x"), Err(SecsError::InvalidDigit));
}

#[test]
fn reading_agrees_with_the_standard_library() {
    let texts = [
        "",
        "0",
        "30",
        "+30",
        "-30",
        "+",
        "-",
        "007",
        " 7",
        "7 ",
        "3_0",
        "1e3",
        "18446744073709551615",
        "18446744073709551616",
        "99999999999999999999x",
        "x99999999999999999999",
        "+-1",
        "\u{661}\u{662}\u{663}",
    ];
    for text in texts {
        assert_eq!(parse_seconds(text).ok(), text.parse::<u64>().ok(), "{text:?}");
    }
}

#[test]
fn the_timeout_lasts_the_seconds_read() {
    assert_eq!(parse_secs("30"), Ok(Duration::from_secs(30)));
    assert_eq!(parse_secs("0"), Ok(Duration::ZERO));
    assert_eq!(parse_secs("+90"), Ok(Duration::new(90, 0)));
    assert_eq!(parse_secs("18446744073709551615"), Ok(Duration::from_secs(u64::MAX)));
}

#[test]
fn a_timeout_that_is_no_number_is_refused() {
    assert_eq!(parse_secs(""), Err(SecsError::Empty));
    assert_eq!(parse_secs("soon"), Err(SecsError::InvalidDigit));
    assert_eq!(parse_secs("18446744073709551616"), Err(SecsError::TooLarge));
}
