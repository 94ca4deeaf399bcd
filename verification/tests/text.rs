use imager::text::{chars_of, digit_value, digits_end, is_ascii_digit, parse_decimal, run_end};

fn chars(text: &str) -> Vec<char> {
    text.chars().collect()
}

#[test]
fn the_characters_of_a_text() {
    assert_eq!(chars_of("a1\u{e9}\u{4e2d}"), vec!['a', '1', '\u{e9}', '\u{4e2d}']);
    assert!(chars_of("").is_empty());
}

#[test]
fn the_ten_digits_and_their_values() {
    for (value, c) in "0123456789".chars().enumerate() {
        assert!(is_ascii_digit(c));
        assert_eq!(digit_value(c) as usize, value);
    }
    for c in ['/', ':', 'a', ' ', '+', '-', '\u{0660}', '\u{ff10}'] {
        assert!(!is_ascii_digit(c));
    }
}

#[test]
fn where_a_run_of_digits_ends() {
    let text = chars("12ab345");
    assert_eq!(digits_end(&text, 0), 2);
    assert_eq!(digits_end(&text, 1), 2);
    assert_eq!(digits_end(&text, 2), 2);
    assert_eq!(digits_end(&text, 4), 7);
    assert_eq!(digits_end(&text, 7), 7);
}

#[test]
fn where_a_run_of_one_character_ends() {
    let text = chars("aaxxxbx");
    assert_eq!(run_end(&text, 0, 'x', false), 2);
    assert_eq!(run_end(&text, 2, 'x', true), 5);
    assert_eq!(run_end(&text, 2, 'x', false), 2);
    assert_eq!(run_end(&text, 5, 'x', true), 5);
    assert_eq!(run_end(&text, 6, 'x', true), 7);
    assert_eq!(run_end(&text, 7, 'x', true), 7);
    assert_eq!(run_end(&chars("abc"), 0, 'x', false), 3);
}

#[test]
fn numbers_in_decimal_digits() {
    let text = chars("x0120y");
    assert_eq!(parse_decimal(&text, 1, 5, u64::MAX), Some(120));
    assert_eq!(parse_decimal(&text, 1, 2, u64::MAX), Some(0));
    assert_eq!(parse_decimal(&text, 2, 4, 12), Some(12));
    assert_eq!(parse_decimal(&text, 2, 4, 11), None);
    assert_eq!(parse_decimal(&text, 1, 1, u64::MAX), None);
    assert_eq!(parse_decimal(&text, 0, 3, u64::MAX), None);
    assert_eq!(parse_decimal(&text, 3, 6, u64::MAX), None);
}

#[test]
fn numbers_up_to_the_largest() {
    let text = chars("18446744073709551615");
    assert_eq!(parse_decimal(&text, 0, text.len(), u64::MAX), Some(u64::MAX));
    let above = chars("18446744073709551616");
    assert_eq!(parse_decimal(&above, 0, above.len(), u64::MAX), None);
    let long = chars("000000000000000000000000000000000000000007");
    assert_eq!(parse_decimal(&long, 0, long.len(), 7), Some(7));
    let huge = chars("99999999999999999999999999999999");
    assert_eq!(parse_decimal(&huge, 0, huge.len(), u64::MAX), None);
}
