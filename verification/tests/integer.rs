use gmp_ecm::integer::{integer_or_invalid, parse_integer, IntegerError};
use rug::Integer;

#[test]
fn reads_plain_decimal() {
    assert_eq!(parse_integer("0"), Ok(Integer::from(0)));
    assert_eq!(parse_integer("1223"), Ok(Integer::from(1223)));
    assert_eq!(parse_integer("007"), Ok(Integer::from(7)));
}

#[test]
fn reads_signs() {
    assert_eq!(parse_integer("-91"), Ok(Integer::from(-91)));
    assert_eq!(parse_integer("+91"), Ok(Integer::from(91)));
    assert_eq!(parse_integer("-0"), Ok(Integer::from(0)));
}

#[test]
fn reads_more_than_a_machine_word() {
    let n = parse_integer("340282366920938463463374607431768211507").unwrap();
    let two_to_128 = Integer::from(1) << 128u32;
    assert_eq!(n, two_to_128 + Integer::from(51));
}

#[test]
fn passes_over_whitespace_everywhere() {
    assert_eq!(parse_integer("123 456 789"), Ok(Integer::from(123_456_789)));
    assert_eq!(parse_integer(" \t- 1\n2\r"), Ok(Integer::from(-12)));
    assert_eq!(parse_integer("1\x0b2\x0c3"), Ok(Integer::from(123)));
}

#[test]
fn passes_over_underscores_behind_the_first_digit() {
    assert_eq!(parse_integer("1_000_000"), Ok(Integer::from(1_000_000)));
    assert_eq!(parse_integer("-1__0_"), Ok(Integer::from(-10)));
}

#[test]
fn refuses_a_text_without_digits() {
    assert_eq!(parse_integer(""), Err(IntegerError::Invalid));
    assert_eq!(parse_integer("   "), Err(IntegerError::Invalid));
    assert_eq!(parse_integer("-"), Err(IntegerError::Invalid));
    assert_eq!(parse_integer("+"), Err(IntegerError::Invalid));
}

#[test]
fn refuses_an_underscore_before_the_first_digit() {
    assert_eq!(parse_integer("_1"), Err(IntegerError::Invalid));
    assert_eq!(parse_integer("-_1"), Err(IntegerError::Invalid));
}

#[test]
fn refuses_a_second_sign_and_a_sign_behind_a_digit() {
    assert_eq!(parse_integer("+-1"), Err(IntegerError::Invalid));
    assert_eq!(parse_integer("--1"), Err(IntegerError::Invalid));
    assert_eq!(parse_integer("1-2"), Err(IntegerError::Invalid));
    assert_eq!(parse_integer("12+"), Err(IntegerError::Invalid));
}

#[test]
fn refuses_other_characters() {
    assert_eq!(parse_integer("789a"), Err(IntegerError::Invalid));
    assert_eq!(parse_integer("ff"), Err(IntegerError::Invalid));
    assert_eq!(parse_integer("1.5"), Err(IntegerError::Invalid));
    assert_eq!(parse_integer("1e3"), Err(IntegerError::Invalid));
    assert_eq!(parse_integer("12\u{a0}3"), Err(IntegerError::Invalid));
    assert_eq!(parse_integer("\u{661}\u{662}"), Err(IntegerError::Invalid));
}

#[test]
fn every_refusal_is_the_same_error() {
    let no_digits = Integer::from_str_radix("", 10);
    let bad_digit = Integer::from_str_radix("x", 10);
    assert_eq!(integer_or_invalid(no_digits), Err(IntegerError::Invalid));
    assert_eq!(integer_or_invalid(bad_digit), Err(IntegerError::Invalid));
    assert_eq!(
        integer_or_invalid(Integer::from_str_radix("42", 10)),
        Ok(Integer::from(42))
    );
}

#[test]
fn error_message() {
    assert_eq!(IntegerError::Invalid.message(), "Invalid integer");
}
