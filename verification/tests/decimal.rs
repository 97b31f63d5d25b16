use chainqueue::decimal::{parse_decimal, render_decimal};
use chainqueue::text::same_text;

#[test]
fn parse_reads_plain_digits() {
    assert_eq!(parse_decimal("0", 10), Some(0));
    assert_eq!(parse_decimal("7", 10), Some(7));
    assert_eq!(parse_decimal("10", 10), Some(10));
    assert_eq!(parse_decimal("1234", 65535), Some(1234));
    assert_eq!(parse_decimal("18446744073709551615", u64::MAX), Some(u64::MAX));
}

#[test]
fn parse_accepts_one_plus_sign_and_leading_zeros() {
    assert_eq!(parse_decimal("+5", 10), Some(5));
    assert_eq!(parse_decimal("+0", 10), Some(0));
    assert_eq!(parse_decimal("007", 10), Some(7));
    assert_eq!(parse_decimal("+007", 10), Some(7));
    assert_eq!(parse_decimal("000000000000000000000000000001", 1), Some(1));
}

#[test]
fn parse_refuses_what_is_no_number() {
    for text in ["", "+", "-", "-1", "++1", "+-1", " 1", "1 ", "1_000", "12a", "a", "1.5", "0x10", "\u{ff11}", "1\u{0661}", "é"] {
        assert_eq!(parse_decimal(text, u64::MAX), None, "{:?}", text);
    }
}

#[test]
fn parse_refuses_what_exceeds_the_bound() {
    assert_eq!(parse_decimal("11", 10), None);
    assert_eq!(parse_decimal("65535", 65535), Some(65535));
    assert_eq!(parse_decimal("65536", 65535), None);
    assert_eq!(parse_decimal("18446744073709551616", u64::MAX), None);
    assert_eq!(parse_decimal("99999999999999999999999999999999999999999999", u64::MAX), None);
    assert_eq!(parse_decimal("1", 0), None);
    assert_eq!(parse_decimal("0", 0), Some(0));
}

#[test]
fn parse_agrees_with_the_standard_library() {
    let texts = [
        "", "0", "1", "9", "10", "42", "+42", "-42", "+", "-", "0042", "65535", "65536", "65537",
        "99999", "100000", "4294967295", "4294967296", "18446744073709551615",
        "18446744073709551616", " 7", "7 ", "7\n", "\t7", "7a", "a7", "+-7", "++7", "+7+", "７",
        "1_0", "1e3", "١٢٣", "+00000000000000000000000000000065535", "00000000000000000000065536",
    ];
    for text in texts {
        assert_eq!(
            parse_decimal(text, u16::MAX as u64),
            text.parse::<u16>().ok().map(u64::from),
            "{:?} as u16",
            text
        );
        assert_eq!(parse_decimal(text, u64::MAX), text.parse::<u64>().ok(), "{:?} as u64", text);
        assert_eq!(
            parse_decimal(text, u32::MAX as u64),
            text.parse::<u32>().ok().map(u64::from),
            "{:?} as u32",
            text
        );
    }
}

#[test]
fn render_writes_digits_without_sign_or_leading_zeros() {
    assert_eq!(render_decimal(0), "0");
    assert_eq!(render_decimal(9), "9");
    assert_eq!(render_decimal(10), "10");
    assert_eq!(render_decimal(100), "100");
    assert_eq!(render_decimal(9999), "9999");
    assert_eq!(render_decimal(u64::MAX), "18446744073709551615");
}

#[test]
fn render_agrees_with_the_standard_library_and_reads_back() {
    let mut n: u64 = 1;
    for _ in 0..200 {
        let text = render_decimal(n);
        assert_eq!(text, n.to_string());
        assert_eq!(parse_decimal(&text, u64::MAX), Some(n));
        n = n.wrapping_mul(6364136223846793005).wrapping_add(1442695040888963407) >> (n % 60);
    }
    for n in 0..1100u64 {
        assert_eq!(render_decimal(n), n.to_string());
        assert_eq!(parse_decimal(&render_decimal(n), 2000), Some(n));
    }
}

#[test]
fn same_text_compares_character_by_character() {
    assert!(same_text("", ""));
    assert!(same_text("school", "school"));
    assert!(!same_text("school", "schools"));
    assert!(!same_text("school", "schooL"));
    assert!(!same_text("", " "));
    assert!(same_text("žluťoučký", "žluťoučký"));
    assert!(!same_text("žluťoučký", "zlutoucky"));
}
