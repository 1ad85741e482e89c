use mf2_parser::validators::{
    is_bidi_char, is_name_char, is_name_start_char, is_valid_name_string, is_ws_char,
    trim_tail_ws_and_bidi,
};

#[test]
fn test_name_start_chars() {
    assert!(is_name_start_char('a'));
    assert!(is_name_start_char('Z'));
    assert!(is_name_start_char('_'));
    assert!(is_name_start_char('+'));
    assert!(is_name_start_char('\u{00E9}'));
    assert!(!is_name_start_char('1'));
    assert!(!is_name_start_char('-'));
    assert!(!is_name_start_char('.'));
    assert!(!is_name_start_char('{'));
    assert!(!is_name_start_char(' '));
}

#[test]
fn test_name_chars() {
    assert!(is_name_char('a'));
    assert!(is_name_char('7'));
    assert!(is_name_char('-'));
    assert!(is_name_char('.'));
    assert!(!is_name_char('$'));
    assert!(!is_name_char('}'));
}

#[test]
fn test_ws_chars() {
    assert!(is_ws_char(' '));
    assert!(is_ws_char('\t'));
    assert!(is_ws_char('\r'));
    assert!(is_ws_char('\n'));
    assert!(is_ws_char('\u{3000}'));
    assert!(!is_ws_char('a'));
    assert!(!is_ws_char('\u{200E}'));
}

#[test]
fn test_bidi_chars() {
    assert!(is_bidi_char('\u{061C}'));
    assert!(is_bidi_char('\u{200E}'));
    assert!(is_bidi_char('\u{200F}'));
    assert!(is_bidi_char('\u{2066}'));
    assert!(is_bidi_char('\u{2069}'));
    assert!(!is_bidi_char(' '));
    assert!(!is_bidi_char('a'));
}

#[test]
fn test_valid_name_strings() {
    assert!(is_valid_name_string("abc"));
    assert!(is_valid_name_string("_a1-.b"));
    assert!(is_valid_name_string("\u{200E}abc"));
    assert!(is_valid_name_string("abc\u{200E}"));
}

#[test]
fn test_invalid_name_strings() {
    assert!(!is_valid_name_string(""));
    assert!(!is_valid_name_string("1abc"));
    assert!(!is_valid_name_string("-abc"));
    assert!(!is_valid_name_string("a b"));
    assert!(!is_valid_name_string("a\u{200E}b"));
    assert!(!is_valid_name_string("\u{200E}abc\u{200E}"));
    assert!(!is_valid_name_string("\u{200E}"));
}

#[test]
fn test_trim_tail_ws_and_bidi() {
    assert_eq!(trim_tail_ws_and_bidi("ab  "), "ab");
    assert_eq!(trim_tail_ws_and_bidi("ab\u{200E}"), "ab");
    assert_eq!(trim_tail_ws_and_bidi("ab \u{200E}\t"), "ab");
    assert_eq!(trim_tail_ws_and_bidi("  ab"), "  ab");
    assert_eq!(trim_tail_ws_and_bidi(""), "");
    assert_eq!(trim_tail_ws_and_bidi(" \u{200E}"), "");
}
