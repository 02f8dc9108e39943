use process_manager::text::{
    char_is_whitespace, char_to_lower, chars_of, contains_folded, digit_char, push_decimal,
    skip_whitespace, skip_whitespace_back, starts_with, str_eq, string_of, trim_bounds,
};

fn chars(s: &str) -> Vec<char> {
    s.chars().collect()
}

#[test]
fn whitespace_is_what_the_standard_library_calls_whitespace() {
    for n in 0..=0x10FFFFu32 {
        if let Some(c) = char::from_u32(n) {
            assert_eq!(char_is_whitespace(c), c.is_whitespace(), "U+{:04X}", n);
        }
    }
}

#[test]
fn lower_case_is_ascii_lower_case() {
    for n in 0..=0x10FFFFu32 {
        if let Some(c) = char::from_u32(n) {
            assert_eq!(char_to_lower(c), c.to_ascii_lowercase(), "U+{:04X}", n);
        }
    }
    assert_eq!(char_to_lower('A'), 'a');
    assert_eq!(char_to_lower('Z'), 'z');
    assert_eq!(char_to_lower('É'), 'É');
}

#[test]
fn chars_of_gives_the_characters() {
    assert_eq!(chars_of("héllo ✓"), chars("héllo ✓"));
    assert_eq!(chars_of(""), Vec::<char>::new());
}

#[test]
fn string_of_gives_the_range() {
    let v = chars("hello world");
    assert_eq!(string_of(&v, 6, 11), "world");
    assert_eq!(string_of(&v, 3, 3), "");
}

#[test]
fn trimming_agrees_with_the_standard_library() {
    for s in ["", "   ", "a", " a", "a ", "  a b  ", "\t\nx\u{a0}\u{2003}", "\u{3000}y z\r\n"] {
        let v = chars(s);
        let (a, b) = trim_bounds(&v, 0, v.len());
        assert_eq!(string_of(&v, a, b), s.trim(), "{:?}", s);
        let start = skip_whitespace(&v, 0, v.len());
        assert_eq!(string_of(&v, start, v.len()), s.trim_start(), "{:?}", s);
        let end = skip_whitespace_back(&v, 0, v.len());
        assert_eq!(string_of(&v, 0, end), s.trim_end(), "{:?}", s);
    }
}

#[test]
fn prefix_test() {
    let v = chars("[stderr] boom");
    assert!(starts_with(&v, 0, v.len(), &chars("[stderr]")));
    assert!(starts_with(&v, 0, v.len(), &chars("")));
    assert!(!starts_with(&v, 0, v.len(), &chars("[stdout]")));
    assert!(!starts_with(&v, 0, 4, &chars("[stderr]")));
    assert!(starts_with(&v, 9, v.len(), &chars("boom")));
}

#[test]
fn folded_search() {
    let v = chars("Fatal ERROR: x");
    assert!(contains_folded(&v, 0, v.len(), &chars("error")));
    assert!(contains_folded(&v, 0, v.len(), &chars("fatal")));
    assert!(contains_folded(&v, 0, v.len(), &chars("")));
    assert!(contains_folded(&v, 0, v.len(), &chars(": x")));
    assert!(!contains_folded(&v, 0, v.len(), &chars("panic")));
    assert!(!contains_folded(&v, 0, 10, &chars("error")));
    assert!(!contains_folded(&v, 0, v.len(), &chars("ERROR")));
    assert!(!contains_folded(&v, 0, 3, &chars("fatal")));
}

#[test]
fn string_equality() {
    assert!(str_eq("", ""));
    assert!(str_eq("abc", "abc"));
    assert!(str_eq("héllo", "héllo"));
    assert!(!str_eq("abc", "abd"));
    assert!(!str_eq("abc", "ab"));
    assert!(!str_eq("", "a"));
}

#[test]
fn decimal_numbers() {
    for n in [0u32, 7, 9, 10, 11, 99, 100, 101, 4242, 65535, 1_000_000, u32::MAX] {
        let mut s = String::from("pid ");
        push_decimal(&mut s, n);
        assert_eq!(s, format!("pid {}", n));
    }
    assert_eq!(digit_char(0), '0');
    assert_eq!(digit_char(9), '9');
}
