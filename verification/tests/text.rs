use purple_capture::text::{ascii_alnum, blank, chars_of, decimal, same_text, starts_with_text, text_byte_len, white_space};

#[test]
fn decimals_are_written_without_padding() {
    assert_eq!(decimal(0), "0");
    assert_eq!(decimal(7), "7");
    assert_eq!(decimal(1920), "1920");
    assert_eq!(decimal(u64::MAX), u64::MAX.to_string());
}

#[test]
fn text_helpers_agree_with_std() {
    assert_eq!(text_byte_len("共有タブ"), "共有タブ".len());
    assert_eq!(chars_of("aé"), vec!['a', 'é']);
    assert!(same_text("abc", "abc") && !same_text("abc", "abd") && !same_text("ab", "abc"));
    assert!(starts_with_text("v=0\r\n", "v=0") && !starts_with_text("v", "v=0"));
    assert!(blank("") && blank(" \t\r\n\u{3000}") && !blank(" x "));
    assert!(white_space('\u{3000}') && white_space('\n') && !white_space('x'));
    assert!(ascii_alnum('Z') && ascii_alnum('0') && !ascii_alnum('_') && !ascii_alnum('é'));
}
