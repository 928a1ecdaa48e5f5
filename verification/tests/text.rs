use cargox::text::{chars_of, decimal_text, is_whitespace, reads, starts_with_char, to_ascii_lower};

#[test]
fn whitespace_is_what_the_standard_library_says() {
    for code in 0..=0x10FFFFu32 {
        if let Some(c) = char::from_u32(code) {
            assert_eq!(is_whitespace(c), c.is_whitespace(), "U+{code:04X}");
        }
    }
}

#[test]
fn ascii_lower_is_what_the_standard_library_says() {
    for code in 0..=0x10FFFFu32 {
        if let Some(c) = char::from_u32(code) {
            assert_eq!(to_ascii_lower(c), c.to_ascii_lowercase(), "U+{code:04X}");
        }
    }
}

#[test]
fn chars_of_lists_characters_not_bytes() {
    assert_eq!(chars_of("a\u{e9}\u{4e2d}\u{1F600}"), vec!['a', '\u{e9}', '\u{4e2d}', '\u{1F600}']);
    assert!(chars_of("").is_empty());
}

#[test]
fn decimal_text_is_what_the_standard_library_prints() {
    let mut values = vec![0, 1, -1, 9, 10, 11, 99, 100, 101, 255, 256, -9, -10, i32::MAX, i32::MIN];
    let mut n: i32 = 1;
    for _ in 0..30 {
        values.push(n);
        values.push(-n);
        values.push(n - 1);
        n = n.wrapping_mul(2);
    }
    for value in values {
        assert_eq!(decimal_text(value), value.to_string());
    }
    assert_eq!(decimal_text(2024), "2024");
    assert_eq!(decimal_text(-305), "-305");
}

#[test]
fn reads_compares_whole_texts() {
    assert!(reads(&"--force".to_string(), "--force"));
    assert!(!reads(&"--force".to_string(), "--forc"));
    assert!(!reads(&"--forc".to_string(), "--force"));
    assert!(!reads(&"--Force".to_string(), "--force"));
    assert!(reads(&String::new(), ""));
}

#[test]
fn starts_with_char_looks_at_the_first_character() {
    assert!(starts_with_char("-x", '-'));
    assert!(!starts_with_char("x-", '-'));
    assert!(!starts_with_char("", '-'));
    assert!(starts_with_char("\u{e9}t\u{e9}", '\u{e9}'));
}
