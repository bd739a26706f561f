use last_project::text::{append_decimal, chars_of, is_blank_char, starts_with};

fn chars(s: &str) -> Vec<char> {
    s.chars().collect()
}

fn decimal(n: usize) -> String {
    let mut out = String::new();
    append_decimal(&mut out, n);
    out
}

#[test]
fn chars_of_lists_the_characters() {
    assert_eq!(chars_of(""), Vec::<char>::new());
    assert_eq!(chars_of("aé𝄞"), vec!['a', 'é', '𝄞']);
}

#[test]
fn blank_characters_are_those_of_std() {
    let mut blanks: usize = 0;
    for code in 0..=0x10FFFFu32 {
        if let Some(c) = char::from_u32(code) {
            assert_eq!(is_blank_char(c), c.is_whitespace(), "U+{:04X}", code);
            if is_blank_char(c) {
                blanks += 1;
            }
        }
    }
    assert_eq!(blanks, 25);
}

#[test]
fn some_blank_and_some_solid_characters() {
    for c in [' ', '\t', '\n', '\r', '\u{b}', '\u{c}', '\u{85}', '\u{a0}', '\u{3000}'] {
        assert!(is_blank_char(c));
    }
    for c in ['a', '0', '\u{0}', '\u{8}', '\u{e}', '\u{200b}', '\u{feff}', '\u{180e}'] {
        assert!(!is_blank_char(c));
    }
}

#[test]
fn starts_with_compares_the_front() {
    assert!(starts_with(&chars("hello"), &chars("he")));
    assert!(starts_with(&chars("hello"), &chars("")));
    assert!(starts_with(&chars("hello"), &chars("hello")));
    assert!(!starts_with(&chars("hello"), &chars("hello!")));
    assert!(!starts_with(&chars("hello"), &chars("el")));
    assert!(!starts_with(&chars(""), &chars("a")));
}

#[test]
fn decimal_writes_numbers_without_leading_zeros() {
    assert_eq!(decimal(0), "0");
    assert_eq!(decimal(7), "7");
    assert_eq!(decimal(10), "10");
    assert_eq!(decimal(44), "44");
    assert_eq!(decimal(1005), "1005");
    assert_eq!(decimal(9876543210), "9876543210");
    assert_eq!(decimal(usize::MAX), usize::MAX.to_string());
}

#[test]
fn decimal_is_written_at_the_end() {
    let mut out = String::from("n=");
    append_decimal(&mut out, 120);
    assert_eq!(out, "n=120");
}
