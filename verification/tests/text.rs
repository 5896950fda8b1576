use qamydata::text::{chars_of, contains, contains_text, render_integer, render_unsigned};

#[test]
fn zero_renders_as_one_digit() {
    assert_eq!(render_unsigned(0), "0");
    assert_eq!(render_integer(0), "0");
}

#[test]
fn unsigned_renders_in_decimal() {
    assert_eq!(render_unsigned(7), "7");
    assert_eq!(render_unsigned(10), "10");
    assert_eq!(render_unsigned(1000), "1000");
    assert_eq!(render_unsigned(9876543210), "9876543210");
    assert_eq!(render_unsigned(u64::MAX), "18446744073709551615");
}

#[test]
fn negative_renders_with_minus() {
    assert_eq!(render_integer(-1), "-1");
    assert_eq!(render_integer(-120), "-120");
}

#[test]
fn integer_limits_render() {
    assert_eq!(render_integer(i64::MAX), "9223372036854775807");
    assert_eq!(render_integer(i64::MIN), "-9223372036854775808");
}

#[test]
fn rendering_agrees_with_the_standard_library() {
    for value in [-1000i64, -99, -10, -9, 0, 5, 9, 10, 11, 99, 100, 101, 65535, 1234567] {
        assert_eq!(render_integer(value), value.to_string());
    }
}

#[test]
fn chars_of_keeps_order() {
    assert_eq!(chars_of("a%é"), vec!['a', '%', 'é']);
    assert_eq!(chars_of(""), Vec::<char>::new());
}

#[test]
fn pattern_found_in_the_middle() {
    assert!(contains_text("%tcHH:MM:SS", "HH:MM"));
}

#[test]
fn pattern_found_at_the_start_and_at_the_end() {
    assert!(contains_text("%tcHH:MM:SS", "%tc"));
    assert!(contains_text("%tcHH:MM:SS", ":SS"));
    assert!(contains_text("abc", "abc"));
}

#[test]
fn pattern_not_found() {
    assert!(!contains_text("%td", "HH:MM:SS"));
    assert!(!contains_text("abc", "abd"));
    assert!(!contains_text("ab", "abc"));
}

#[test]
fn empty_pattern_is_in_every_text() {
    assert!(contains_text("abc", ""));
    assert!(contains_text("", ""));
}

#[test]
fn nothing_but_the_empty_pattern_is_in_the_empty_text() {
    assert!(!contains_text("", "a"));
}

#[test]
fn repeated_prefix_does_not_hide_a_match() {
    assert!(contains_text("aaab", "aab"));
}

#[test]
fn any_of_the_patterns_is_enough() {
    let patterns = vec!["ss".to_string(), "HH:MM:SS".to_string()];
    assert!(contains("%tcHH:MM:SS", &patterns));
    assert!(!contains("%td", &patterns));
}

#[test]
fn no_patterns_match_nothing() {
    assert!(!contains("%tcHH:MM:SS", &Vec::new()));
}

#[test]
fn different_integers_render_differently() {
    let values: Vec<i64> = (-120..=120).collect();
    for a in values.iter() {
        for b in values.iter() {
            assert_eq!(render_integer(*a) == render_integer(*b), a == b);
        }
    }
}
