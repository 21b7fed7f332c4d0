use harbour_chat::num::{decimal_chars, parse_i64, parse_unsigned, signed_decimal_chars};

fn text(v: Vec<char>) -> String {
    v.into_iter().collect()
}

#[test]
fn decimal_text() {
    assert_eq!(text(decimal_chars(0)), "0");
    assert_eq!(text(decimal_chars(1_700_000_060)), "1700000060");
    assert_eq!(text(decimal_chars(u64::MAX)), u64::MAX.to_string());
    assert_eq!(text(signed_decimal_chars(-42)), "-42");
    assert_eq!(text(signed_decimal_chars(i64::MIN)), i64::MIN.to_string());
}

#[test]
fn parsing_matches_std() {
    for t in ["0", "+7", "65535", "65536", "", "+", "-1", "1 ", "00012", "18446744073709551615", "18446744073709551616"] {
        assert_eq!(parse_unsigned(t, 65535), t.parse::<u16>().ok().map(u64::from), "u16 {t:?}");
        assert_eq!(parse_unsigned(t, u64::MAX), t.parse::<u64>().ok(), "u64 {t:?}");
    }
    for t in ["-9223372036854775808", "9223372036854775807", "9223372036854775808", "-", "-0", "+12", "x1", "-12"] {
        assert_eq!(parse_i64(t), t.parse::<i64>().ok(), "i64 {t:?}");
    }
}

#[test]
fn decimal_reads_back() {
    for n in [0u64, 9, 10, 99, 100, 12345, u64::MAX] {
        assert_eq!(parse_unsigned(&text(decimal_chars(n)), u64::MAX), Some(n));
    }
}
