use perf_zoo::error::ParseFailure;
use perf_zoo::parse::{parse_u32, parse_u64, parse_unsigned};
use std::num::IntErrorKind;

fn std_u64(text: &str) -> Result<u64, ParseFailure> {
    match text.parse::<u64>() {
        Ok(value) => Ok(value),
        Err(error) => Err(match error.kind() {
            IntErrorKind::Empty => ParseFailure::Empty,
            IntErrorKind::InvalidDigit => ParseFailure::InvalidDigit,
            IntErrorKind::PosOverflow => ParseFailure::Overflow,
            other => panic!("unexpected kind {:?}", other),
        }),
    }
}

fn std_u32(text: &str) -> Result<u32, ParseFailure> {
    match text.parse::<u32>() {
        Ok(value) => Ok(value),
        Err(error) => Err(match error.kind() {
            IntErrorKind::Empty => ParseFailure::Empty,
            IntErrorKind::InvalidDigit => ParseFailure::InvalidDigit,
            IntErrorKind::PosOverflow => ParseFailure::Overflow,
            other => panic!("unexpected kind {:?}", other),
        }),
    }
}

fn samples() -> Vec<&'static str> {
    vec![
        "",
        "0",
        "1",
        "4",
        "007",
        "+5",
        "+0",
        "+",
        "-",
        "-5",
        "-0",
        "++5",
        "+-5",
        " 5",
        "5 ",
        "5\n",
        "1_000",
        "1.5",
        "1e3",
        "0x10",
        "12a",
        "a12",
        "abc",
        "٣",
        "4294967295",
        "4294967296",
        "+4294967295",
        "00000000004294967295",
        "00000000004294967296",
        "42949672950",
        "18446744073709551615",
        "18446744073709551616",
        "+18446744073709551615",
        "000018446744073709551615",
        "184467440737095516150",
        "99999999999999999999999999",
        "99999999999999999999999999x",
        "9999999999x",
        "x99999999999999999999999999",
        "18446744073709551615x",
        "1844674407370955161x",
        "100000000",
    ]
}

#[test]
fn plain_digits_give_their_number() {
    assert_eq!(parse_u64("0"), Ok(0));
    assert_eq!(parse_u64("4"), Ok(4));
    assert_eq!(parse_u64("100"), Ok(100));
    assert_eq!(parse_u64("100000000"), Ok(100_000_000));
    assert_eq!(parse_u32("25"), Ok(25));
}

#[test]
fn leading_zeros_do_not_count() {
    assert_eq!(parse_u64("007"), Ok(7));
    assert_eq!(parse_u32("0000000000000000000000003"), Ok(3));
}

#[test]
fn one_leading_plus_is_skipped() {
    assert_eq!(parse_u64("+5"), Ok(5));
    assert_eq!(parse_u32("+0"), Ok(0));
    assert_eq!(parse_u64("++5"), Err(ParseFailure::InvalidDigit));
}

#[test]
fn empty_text_is_empty() {
    assert_eq!(parse_u64(""), Err(ParseFailure::Empty));
    assert_eq!(parse_u32(""), Err(ParseFailure::Empty));
}

#[test]
fn lone_sign_is_an_invalid_digit() {
    assert_eq!(parse_u64("+"), Err(ParseFailure::InvalidDigit));
    assert_eq!(parse_u64("-"), Err(ParseFailure::InvalidDigit));
}

#[test]
fn minus_sign_is_an_invalid_digit() {
    assert_eq!(parse_u64("-5"), Err(ParseFailure::InvalidDigit));
    assert_eq!(parse_u32("-0"), Err(ParseFailure::InvalidDigit));
}

#[test]
fn blanks_and_separators_are_invalid_digits() {
    assert_eq!(parse_u64(" 5"), Err(ParseFailure::InvalidDigit));
    assert_eq!(parse_u64("5 "), Err(ParseFailure::InvalidDigit));
    assert_eq!(parse_u64("1_000"), Err(ParseFailure::InvalidDigit));
    assert_eq!(parse_u64("1.5"), Err(ParseFailure::InvalidDigit));
    assert_eq!(parse_u64("abc"), Err(ParseFailure::InvalidDigit));
    assert_eq!(parse_u64("٣"), Err(ParseFailure::InvalidDigit));
}

#[test]
fn largest_values_are_read() {
    assert_eq!(parse_u32("4294967295"), Ok(u32::MAX));
    assert_eq!(parse_u64("18446744073709551615"), Ok(u64::MAX));
    assert_eq!(parse_u64("4294967296"), Ok(4_294_967_296));
}

#[test]
fn one_above_the_largest_overflows() {
    assert_eq!(parse_u32("4294967296"), Err(ParseFailure::Overflow));
    assert_eq!(parse_u64("18446744073709551616"), Err(ParseFailure::Overflow));
    assert_eq!(parse_u32("00000000004294967296"), Err(ParseFailure::Overflow));
}

#[test]
fn first_offending_byte_decides() {
    assert_eq!(parse_u64("99999999999999999999999999x"), Err(ParseFailure::Overflow));
    assert_eq!(parse_u64("9999999999x"), Err(ParseFailure::InvalidDigit));
    assert_eq!(parse_u64("18446744073709551615x"), Err(ParseFailure::InvalidDigit));
    assert_eq!(parse_u32("42949672950x"), Err(ParseFailure::Overflow));
    assert_eq!(parse_u32("4294967295x"), Err(ParseFailure::InvalidDigit));
}

#[test]
fn custom_maximum_is_respected() {
    assert_eq!(parse_unsigned("10", 10), Ok(10));
    assert_eq!(parse_unsigned("11", 10), Err(ParseFailure::Overflow));
    assert_eq!(parse_unsigned("0", 0), Ok(0));
    assert_eq!(parse_unsigned("1", 0), Err(ParseFailure::Overflow));
    assert_eq!(parse_unsigned("000", 0), Ok(0));
}

#[test]
fn agrees_with_std_on_u64() {
    for text in samples() {
        assert_eq!(parse_u64(text), std_u64(text), "input {:?}", text);
    }
}

#[test]
fn agrees_with_std_on_u32() {
    for text in samples() {
        assert_eq!(parse_u32(text), std_u32(text), "input {:?}", text);
    }
}

#[test]
fn agrees_with_std_on_every_small_number() {
    for n in 0u64..2000 {
        let text = format!("{}", n);
        assert_eq!(parse_u64(&text), Ok(n));
        assert_eq!(parse_u32(&text), Ok(n as u32));
    }
}
