use gpt_reg::moemail::{i64_or_string, string_or_u64, JsonScalar, ScalarError, UserRole};
use gpt_reg::numeric::{parse_i64, u64_to_decimal, IntErrorKind};
use gpt_reg::text::{is_blank_str, trim_end_slashes_str, trim_start_slashes_str};

#[test]
fn role_names_any_case() {
    assert_eq!(UserRole::from_name("civilian"), Some(UserRole::Civilian));
    assert_eq!(UserRole::from_name("KNIGHT"), Some(UserRole::Knight));
    assert_eq!(UserRole::from_name("Duke"), Some(UserRole::Duke));
    assert_eq!(UserRole::from_name("dUkE"), Some(UserRole::Duke));
    assert_eq!(UserRole::from_name("baron"), None);
    assert_eq!(UserRole::from_name("duke "), None);
    assert_eq!(UserRole::from_name(""), None);
}

#[test]
fn role_names_round_trip() {
    for r in [UserRole::Civilian, UserRole::Knight, UserRole::Duke] {
        assert_eq!(UserRole::from_name(r.name()), Some(r.clone()));
    }
    assert_eq!(UserRole::Civilian.name(), "CIVILIAN");
    assert_eq!(UserRole::Knight.name(), "KNIGHT");
    assert_eq!(UserRole::Duke.name(), "DUKE");
}

#[test]
fn counts_as_text() {
    assert_eq!(string_or_u64(JsonScalar::Text("unlimited".to_string())), Ok("unlimited".to_string()));
    assert_eq!(string_or_u64(JsonScalar::Unsigned(42)), Ok("42".to_string()));
    assert_eq!(string_or_u64(JsonScalar::Unsigned(u64::MAX)), Ok("18446744073709551615".to_string()));
    assert_eq!(string_or_u64(JsonScalar::Signed(7)), Ok("7".to_string()));
    assert_eq!(string_or_u64(JsonScalar::Signed(-1)), Err(ScalarError::Negative));
    assert_eq!(ScalarError::Negative.message(), "expected a non-negative integer");
}

#[test]
fn timestamps() {
    assert_eq!(i64_or_string(JsonScalar::Signed(-5)), Ok(-5));
    assert_eq!(i64_or_string(JsonScalar::Unsigned(1_700_000_000_000)), Ok(1_700_000_000_000));
    assert_eq!(i64_or_string(JsonScalar::Unsigned(i64::MAX as u64)), Ok(i64::MAX));
    assert_eq!(i64_or_string(JsonScalar::Unsigned(i64::MAX as u64 + 1)), Err(ScalarError::TooLarge));
    assert_eq!(ScalarError::TooLarge.message(), "timestamp is too large");
    assert_eq!(i64_or_string(JsonScalar::Text("1712345678".to_string())), Ok(1712345678));
    assert_eq!(
        i64_or_string(JsonScalar::Text("12a".to_string())),
        Err(ScalarError::NotInteger(IntErrorKind::InvalidDigit))
    );
    assert_eq!(
        ScalarError::NotInteger(IntErrorKind::Empty).message(),
        "".parse::<i64>().unwrap_err().to_string()
    );
}

#[test]
fn decimal_text() {
    assert_eq!(u64_to_decimal(0), "0");
    assert_eq!(u64_to_decimal(9), "9");
    assert_eq!(u64_to_decimal(10), "10");
    assert_eq!(u64_to_decimal(1234567890), "1234567890");
    for n in [1u64, 99, 100, 65535, 1 << 40, u64::MAX - 1] {
        assert_eq!(u64_to_decimal(n), n.to_string());
    }
}

#[test]
fn decimal_reads_back() {
    for n in [0u64, 1, 42, 1 << 33, i64::MAX as u64] {
        assert_eq!(parse_i64(&u64_to_decimal(n)), Ok(n as i64));
    }
}

fn kind_of(e: &std::num::ParseIntError) -> IntErrorKind {
    match e.kind() {
        std::num::IntErrorKind::Empty => IntErrorKind::Empty,
        std::num::IntErrorKind::InvalidDigit => IntErrorKind::InvalidDigit,
        std::num::IntErrorKind::PosOverflow => IntErrorKind::PosOverflow,
        std::num::IntErrorKind::NegOverflow => IntErrorKind::NegOverflow,
        _ => panic!("unexpected kind"),
    }
}

#[test]
fn parsing_agrees_with_std() {
    let cases = [
        "", "+", "-", "0", "-0", "+0", "007", "123", "-123", "+123", " 1", "1 ", "1_000", "12a",
        "a12", "--1", "+-1", "-+1", "9223372036854775807", "9223372036854775808",
        "-9223372036854775808", "-9223372036854775809", "99999999999999999999x",
        "x99999999999999999999", "-99999999999999999999", "00000000000000000000000000001",
        "١٢٣", "1é", "+9223372036854775807", "18446744073709551616",
    ];
    for c in cases {
        let mine = parse_i64(c);
        let theirs = c.parse::<i64>().map_err(|e| kind_of(&e));
        assert_eq!(mine, theirs, "input {:?}", c);
    }
}

#[test]
fn parse_error_messages_match_std() {
    for (input, kind) in [
        ("", IntErrorKind::Empty),
        ("x", IntErrorKind::InvalidDigit),
        ("9223372036854775808", IntErrorKind::PosOverflow),
        ("-9223372036854775809", IntErrorKind::NegOverflow),
    ] {
        assert_eq!(kind.message(), input.parse::<i64>().unwrap_err().to_string());
    }
}

#[test]
fn trimming_slashes() {
    assert_eq!(trim_end_slashes_str("a/b///"), "a/b");
    assert_eq!(trim_end_slashes_str("///"), "");
    assert_eq!(trim_end_slashes_str("ab"), "ab");
    assert_eq!(trim_start_slashes_str("//a/b/"), "a/b/");
    assert_eq!(trim_start_slashes_str(""), "");
    assert_eq!(trim_start_slashes_str("/é/"), "é/");
}

#[test]
fn blank_bodies() {
    assert!(is_blank_str(""));
    assert!(is_blank_str(" \t\r\n\u{85}\u{a0}\u{2009}\u{3000}"));
    assert!(!is_blank_str(" x "));
    assert!(!is_blank_str("\u{200b}"));
    for s in ["", " ", "\u{1680}", "a", "\u{202f}b"] {
        assert_eq!(is_blank_str(s), s.trim().is_empty());
    }
}

#[test]
fn signed_text_reads_back() {
    for n in [i64::MIN, -9_000_000_000, -1, 0, 7, i64::MAX] {
        assert_eq!(i64_or_string(JsonScalar::Text(n.to_string())), Ok(n));
        assert_eq!(i64_or_string(JsonScalar::Signed(n)), Ok(n));
    }
}

#[test]
fn role_case_never_matters() {
    for s in ["civilian", "Knight", "dUKE", "baron", "", "ßduke"] {
        assert_eq!(UserRole::from_name(&s.to_ascii_uppercase()), UserRole::from_name(s));
        assert_eq!(UserRole::from_name(&s.to_ascii_lowercase()), UserRole::from_name(s));
    }
}

#[test]
fn leading_path_slashes_are_trimmed() {
    assert_eq!(trim_start_slashes_str("///api"), trim_start_slashes_str("api"));
}
