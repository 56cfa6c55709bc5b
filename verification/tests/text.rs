use smsdev::text::{contains, decimal, eq_ignore_ascii_case, parse_u64, text_eq, trim};

#[test]
fn decimal_rendering() {
    assert_eq!(decimal(0), "0");
    assert_eq!(decimal(7), "7");
    assert_eq!(decimal(1200), "1200");
    assert_eq!(decimal(u64::MAX), u64::MAX.to_string());
}

#[test]
fn decimal_reads_back() {
    for n in [0u64, 9, 10, 99, 100, 5511988887777, u64::MAX] {
        assert_eq!(parse_u64(&decimal(n)), Some(n));
    }
}

#[test]
fn parse_matches_std() {
    for t in ["", "+", "-", "+1", "-1", "01", "1_000", " 1", "18446744073709551615", "18446744073709551616", "abc"] {
        assert_eq!(parse_u64(t), t.parse::<u64>().ok(), "text {:?}", t);
    }
}

#[test]
fn trim_matches_std() {
    for t in ["", "  ", " a ", "\u{2003}x\u{2029}", "\u{200b}y", "a b", "\n\t\r"] {
        assert_eq!(trim(t), t.trim(), "text {:?}", t);
    }
}

#[test]
fn case_and_equality() {
    assert!(eq_ignore_ascii_case("RecebidA", "recebida"));
    assert!(!eq_ignore_ascii_case("Ä", "ä"));
    assert!(!eq_ignore_ascii_case("ok", "okay"));
    assert!(text_eq("abc", "abc"));
    assert!(!text_eq("abc", "abd"));
    assert!(contains("BLACK LIST", "BLACK"));
    assert!(contains("x", ""));
    assert!(!contains("BLA", "BLACK"));
}
