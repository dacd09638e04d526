use adminapi::text::{chars_of, decimal, hex, same_text, string_from_chars, to_ascii_lower};

#[test]
fn decimal_writes_numerals_without_leading_zeros() {
    assert_eq!(decimal(0), "0");
    assert_eq!(decimal(7), "7");
    assert_eq!(decimal(10), "10");
    assert_eq!(decimal(1000), "1000");
    assert_eq!(decimal(1234567890), "1234567890");
    assert_eq!(decimal(u64::MAX), "18446744073709551615");
}

#[test]
fn hex_writes_two_lower_case_digits_per_byte() {
    assert_eq!(hex(&[]), "");
    assert_eq!(hex(&[0]), "00");
    assert_eq!(hex(&[0x0f, 0xf0, 0xab]), "0ff0ab");
    assert_eq!(hex(&[255, 16, 1, 154]), "ff10019a");
}

#[test]
fn only_ascii_capitals_are_lowered() {
    assert_eq!(to_ascii_lower('A'), 'a');
    assert_eq!(to_ascii_lower('Z'), 'z');
    assert_eq!(to_ascii_lower('m'), 'm');
    assert_eq!(to_ascii_lower('@'), '@');
    assert_eq!(to_ascii_lower('['), '[');
    assert_eq!(to_ascii_lower('\u{c4}'), '\u{c4}');
    assert_eq!(to_ascii_lower('\u{212a}'), '\u{212a}');
}

#[test]
fn characters_go_in_and_out_of_strings() {
    let chars = chars_of("a\u{e4}\u{1f600}b");
    assert_eq!(chars, vec!['a', '\u{e4}', '\u{1f600}', 'b']);
    assert_eq!(string_from_chars(&chars), "a\u{e4}\u{1f600}b");
    assert!(chars_of("").is_empty());
    assert_eq!(string_from_chars(&Vec::new()), "");
}

#[test]
fn same_text_compares_content() {
    assert!(same_text("abc", "abc"));
    assert!(same_text("", ""));
    assert!(!same_text("abc", "abd"));
    assert!(!same_text("abc", "ab"));
}
