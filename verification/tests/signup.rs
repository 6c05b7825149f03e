use gpt_reg::signup::{account_record, contains_str, extract_code, is_code_subject};

#[test]
fn code_subjects() {
    assert!(is_code_subject("你的 ChatGPT验证码"));
    assert!(is_code_subject("ChatGPT验证码: 123456"));
    assert!(!is_code_subject("ChatGPT 验证码"));
    assert!(!is_code_subject("Welcome"));
    assert!(!is_code_subject(""));
}

#[test]
fn substring_search() {
    assert!(contains_str("abc", ""));
    assert!(contains_str("", ""));
    assert!(contains_str("abcabd", "abd"));
    assert!(!contains_str("ab", "abc"));
    assert!(!contains_str("aab", "abb"));
    for (h, n) in [("hello world", "o w"), ("ééé", "éé"), ("xyz", "zz"), ("aaaa", "aaa")] {
        assert_eq!(contains_str(h, n), h.contains(n));
    }
}

#[test]
fn codes_are_found() {
    assert_eq!(extract_code("<p>Your code is 123456.</p>").as_deref(), Some("123456"));
    assert_eq!(extract_code("123456").as_deref(), Some("123456"));
    assert_eq!(extract_code("<td>654321</td>").as_deref(), Some("654321"));
    assert_eq!(extract_code("color #123456; code 000111 ").as_deref(), Some("000111"));
}

#[test]
fn non_codes_are_skipped() {
    assert_eq!(extract_code("#123456"), None);
    assert_eq!(extract_code("1234567"), None);
    assert_eq!(extract_code("x123456"), None);
    assert_eq!(extract_code("12345"), None);
    assert_eq!(extract_code(""), None);
}

#[test]
fn account_records() {
    assert_eq!(account_record("a@b.c", "pw!"), "Email: a@b.c\nPassword: pw!");
}
