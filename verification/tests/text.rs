use sms_engine::text::{chars_of, contains, is_whitespace_char, same_text, starts_with, trim};

#[test]
fn contains_finds_a_token_anywhere() {
    assert!(contains("\r\nOK\r\n", "OK"));
    assert!(contains("OK", "OK"));
    assert!(contains("+CREG: 0,1", ",1"));
    assert!(contains("xxERROR", "ERROR"));
    assert!(contains("> ", ">"));
}

#[test]
fn contains_misses_what_is_not_there() {
    assert!(!contains("", "OK"));
    assert!(!contains("O", "OK"));
    assert!(!contains("O K", "OK"));
    assert!(!contains("ok", "OK"));
    assert!(!contains("+CREG: 0,2", ",1"));
    assert!(!contains("ERRO", "ERROR"));
}

#[test]
fn the_empty_text_is_in_every_text() {
    assert!(contains("", ""));
    assert!(contains("abc", ""));
}

#[test]
fn contains_works_on_characters_not_bytes() {
    assert!(contains("héllo 😀 OK", "OK"));
    assert!(contains("héllo 😀", "😀"));
    assert!(!contains("héllo", "hello"));
}

#[test]
fn contains_agrees_with_the_standard_search() {
    let texts = ["", "a", "ab", "aab", "abab", "OKOK", "ERROR: 12", "\r\n+CMS ERROR: 500\r\n"];
    let needles = ["", "a", "b", "ab", "aba", "OK", "ERROR", ">", "500\r"];
    for text in texts {
        for needle in needles {
            assert_eq!(contains(text, needle), text.contains(needle), "{:?} {:?}", text, needle);
        }
    }
}

#[test]
fn starts_with_looks_at_the_front_only() {
    assert!(starts_with("sqlite://x", "sqlite://"));
    assert!(starts_with("sqlite:x", "sqlite:"));
    assert!(!starts_with("sqlite:x", "sqlite://"));
    assert!(!starts_with("xsqlite:", "sqlite:"));
    assert!(starts_with("abc", ""));
    assert!(!starts_with("", "a"));
}

#[test]
fn same_text_compares_character_by_character() {
    assert!(same_text("round_robin", "round_robin"));
    assert!(!same_text("round_robin", "Round_Robin"));
    assert!(!same_text("round_robin", "round_robin "));
    assert!(same_text("", ""));
    assert!(!same_text("a", ""));
}

#[test]
fn trim_removes_white_space_at_both_ends() {
    assert_eq!(trim("\r\n+CMS ERROR: 500\r\n"), "+CMS ERROR: 500");
    assert_eq!(trim("  a b  "), "a b");
    assert_eq!(trim("abc"), "abc");
    assert_eq!(trim(""), "");
    assert_eq!(trim(" \t\r\n"), "");
    assert_eq!(trim("\u{a0}x\u{3000}"), "x");
    assert_eq!(trim("\u{2003}é😀\u{2028}"), "é😀");
}

#[test]
fn trim_agrees_with_the_standard_trim() {
    for text in [" a ", "\u{85}b\u{1680}", "\u{200b}c", "\u{1c}d\u{1f}", "\u{feff}e", "\u{202f}f\u{205f}"] {
        assert_eq!(trim(text), text.trim(), "{:?}", text);
    }
}

#[test]
fn white_space_is_what_the_standard_library_calls_so() {
    let mut code: u32 = 0;
    while code <= 0x3100 {
        if let Some(c) = char::from_u32(code) {
            assert_eq!(is_whitespace_char(c), c.is_whitespace(), "{:?}", c);
        }
        code += 1;
    }
}

#[test]
fn chars_of_lists_the_characters() {
    assert_eq!(chars_of("hé😀"), vec!['h', 'é', '😀']);
    assert_eq!(chars_of(""), Vec::<char>::new());
}
