use gmp_ecm::number::{decimal_i32, decimal_u64, hex16_upper, parse_i32, parse_u64, read_digits};

fn cs(s: &str) -> Vec<char> {
    s.chars().collect()
}

fn st(v: Vec<char>) -> String {
    v.into_iter().collect()
}

#[test]
fn parse_i32_agrees_with_str_parse() {
    let cases = [
        "", "0", "7", "-7", "+7", "+", "-", "--1", "+-1", "-+1", "007", "-0", "+0", " 1", "1 ",
        "1_000", "2147483647", "2147483648", "-2147483648", "-2147483649", "99999999999",
        "0000000000000000000000001", "-0000000000000000000002147483648", "12a", "a12", "١٢",
        "1.5", "0x10", "4294967296",
    ];
    for c in cases {
        assert_eq!(parse_i32(&cs(c)), c.parse::<i32>().ok(), "{c:?}");
    }
}

#[test]
fn parse_u64_agrees_with_str_parse() {
    let cases = [
        "", "0", "6", "+6", "-6", "-0", "+", "-", "18446744073709551615",
        "18446744073709551616", "18446744073709551620", "99999999999999999999999",
        "000000000000000000000000000000018446744073709551615", "6 ", " 6", "6a", "٦",
    ];
    for c in cases {
        assert_eq!(parse_u64(&cs(c)), c.parse::<u64>().ok(), "{c:?}");
    }
}

#[test]
fn read_digits_respects_its_limit() {
    assert_eq!(read_digits(&cs("100"), 100), Some(100));
    assert_eq!(read_digits(&cs("101"), 100), None);
    assert_eq!(read_digits(&cs("5"), 4), None);
    assert_eq!(read_digits(&cs("0"), 0), Some(0));
    assert_eq!(read_digits(&cs("00"), 0), Some(0));
    assert_eq!(read_digits(&cs(""), 10), None);
    assert_eq!(read_digits(&cs("+1"), 10), None);
    assert_eq!(read_digits(&cs("1000x"), 10), None);
}

#[test]
fn decimal_agrees_with_to_string() {
    for n in [0u64, 1, 9, 10, 11, 99, 100, 706, 1234567890, u64::MAX, u64::MAX - 1] {
        assert_eq!(st(decimal_u64(n)), n.to_string());
    }
    for n in [0i32, 1, -1, 7, -7, 10, -10, 2147483647, -2147483647, i32::MIN, i32::MAX] {
        assert_eq!(st(decimal_i32(n)), n.to_string());
    }
}

#[test]
fn parse_reads_what_decimal_wrote() {
    for n in [0u64, 5, 10, 1 << 40, u64::MAX] {
        assert_eq!(parse_u64(&decimal_u64(n)), Some(n));
    }
    for n in [0i32, -1, 1, 12345, -12345, i32::MIN, i32::MAX] {
        assert_eq!(parse_i32(&decimal_i32(n)), Some(n));
    }
}

#[test]
fn hex_agrees_with_format() {
    for n in [0u64, 1, 9, 10, 15, 16, 255, 0xDEADBEEF, 0x0123456789ABCDEF, u64::MAX, 1 << 63] {
        assert_eq!(st(hex16_upper(n)), format!("{n:016X}"));
    }
}
