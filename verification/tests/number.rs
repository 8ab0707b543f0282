use rbx_product::number::{parse_u64, u64_to_decimal};

fn parsed(s: &str) -> Option<u64> {
    parse_u64(&s.chars().collect())
}

#[test]
fn decimal_of_small_and_large_numbers() {
    assert_eq!(u64_to_decimal(0), "0");
    assert_eq!(u64_to_decimal(7), "7");
    assert_eq!(u64_to_decimal(10), "10");
    assert_eq!(u64_to_decimal(1234567890), "1234567890");
    assert_eq!(u64_to_decimal(u64::MAX), "18446744073709551615");
}

#[test]
fn decimal_is_what_std_writes() {
    let mut n: u64 = 1;
    for _ in 0..64 {
        assert_eq!(u64_to_decimal(n), n.to_string());
        assert_eq!(u64_to_decimal(n - 1), (n - 1).to_string());
        n = n.wrapping_mul(3).wrapping_add(7);
    }
}

#[test]
fn numbers_are_read() {
    assert_eq!(parsed("0"), Some(0));
    assert_eq!(parsed("2"), Some(2));
    assert_eq!(parsed("007"), Some(7));
    assert_eq!(parsed("+5"), Some(5));
    assert_eq!(parsed("18446744073709551615"), Some(u64::MAX));
}

#[test]
fn what_is_no_number_is_refused() {
    assert_eq!(parsed(""), None);
    assert_eq!(parsed("+"), None);
    assert_eq!(parsed("-5"), None);
    assert_eq!(parsed("++5"), None);
    assert_eq!(parsed("12a"), None);
    assert_eq!(parsed(" 5"), None);
    assert_eq!(parsed("5 "), None);
    assert_eq!(parsed("1.5"), None);
    assert_eq!(parsed("\u{663}"), None);
}

#[test]
fn numbers_that_do_not_fit_are_refused() {
    assert_eq!(parsed("18446744073709551616"), None);
    assert_eq!(parsed("99999999999999999999999"), None);
    assert_eq!(parsed("184467440737095516150"), None);
}

#[test]
fn reading_is_what_std_does() {
    let samples = [
        "", "+", "-", "0", "+0", "-0", "00", "1", "42", "+42", "4 2", "42x", "x42",
        "18446744073709551615", "18446744073709551616", "+18446744073709551615", "9999999999999999999999",
        "1_000", "0x10", "\u{ff11}",
    ];
    for s in samples {
        assert_eq!(parsed(s), s.parse::<u64>().ok(), "{:?}", s);
    }
}
