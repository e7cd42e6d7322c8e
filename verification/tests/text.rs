use talbot::text::{
    contains, decimal_text, hexadecimal_text, is_white_space, parse_unsigned, same_text,
    strip_prefix, trim, trim_end, trim_start,
};

#[test]
fn white_space_is_what_the_standard_library_says() {
    for code in 0..=0x10ffffu32 {
        if let Some(c) = char::from_u32(code) {
            assert_eq!(is_white_space(c), c.is_whitespace());
        }
    }
}

#[test]
fn trims_like_the_standard_library() {
    for text in ["", " ", "\u{3000}\t", " a ", "a\u{a0}", "\n\nä b\u{2028}", "none", "🟠 \u{200b}"] {
        assert_eq!(trim(text), text.trim());
        assert_eq!(trim_start(text), text.trim_start());
        assert_eq!(trim_end(text), text.trim_end());
    }
}

#[test]
fn strips_a_prefix_once() {
    assert_eq!(strip_prefix("ää b", "ä"), Some("ä b"));
    assert_eq!(strip_prefix("abc", ""), Some("abc"));
    assert_eq!(strip_prefix("abc", "abc"), Some(""));
    assert_eq!(strip_prefix("abc", "abcd"), None);
    assert_eq!(strip_prefix("abc", "b"), None);
}

#[test]
fn finds_text_inside_text() {
    assert!(contains("Bad Request: message is not modified: same", "message is not modified"));
    assert!(contains("aab", "ab"));
    assert!(contains("", ""));
    assert!(!contains("message is not found", "message is not modified"));
    assert!(!contains("a", "aa"));
}

#[test]
fn compares_text() {
    assert!(same_text("private", "private"));
    assert!(!same_text("private", "Private"));
    assert!(!same_text("", "a"));
}

#[test]
fn numbers_read_back_from_decimal() {
    for number in [0, 7, 10, 99, 1200, u32::MAX as u64, u64::MAX] {
        let text = decimal_text(number);
        assert_eq!(text, number.to_string());
        assert_eq!(parse_unsigned(&text, u64::MAX), Some(number));
    }
}

#[test]
fn reads_numbers_like_the_standard_library() {
    for text in [
        "", "+", "+7", "++7", "-0", "007", " 7", "7 ", "4294967295", "4294967296", "7_0", "٣",
        "99999999999999999999999999", "0000000000000000000000000001",
    ] {
        assert_eq!(
            parse_unsigned(text, u32::MAX as u64),
            text.parse::<u32>().ok().map(u64::from)
        );
    }
}

#[test]
fn writes_hexadecimal_in_lower_case() {
    assert_eq!(hexadecimal_text(0), "0");
    assert_eq!(hexadecimal_text(0xbeef), "beef");
    assert_eq!(hexadecimal_text(u128::MAX), format!("{:x}", u128::MAX));
}
