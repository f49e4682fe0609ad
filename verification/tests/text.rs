use sline_transpiler::text::{
    equals, find, is_whitespace, match_end, matches_at, push_chars, push_decimal, starts_with,
    strip_prefix, to_text, trim,
};
use sline_transpiler::to_chars;

fn decimal(n: usize) -> String {
    let mut out = String::new();
    push_decimal(&mut out, n);
    out
}

#[test]
fn to_chars_gives_one_element_per_character() {
    assert_eq!(to_chars("aé✓"), vec!['a', 'é', '✓']);
    assert_eq!(to_chars(""), Vec::<char>::new());
}

#[test]
fn to_text_gives_the_characters_back() {
    assert_eq!(to_text(&['a', 'é', '✓']), "aé✓");
    assert_eq!(to_text(&[]), "");
}

#[test]
fn push_chars_appends() {
    let mut out = String::from("ab");
    push_chars(&mut out, &['c', 'd']);
    assert_eq!(out, "abcd");
    push_chars(&mut out, &[]);
    assert_eq!(out, "abcd");
}

#[test]
fn whitespace_is_unicode_white_space() {
    let mut code: u32 = 0;
    while code <= 0x10ffff {
        if let Some(c) = char::from_u32(code) {
            assert_eq!(is_whitespace(c), c.is_whitespace(), "U+{:04X}", code);
        }
        code += 1;
    }
}

#[test]
fn trim_removes_white_space_at_both_ends() {
    assert_eq!(trim(&to_chars("  a b \t\n")), &to_chars("a b")[..]);
    assert_eq!(trim(&to_chars("a")), &['a'][..]);
    assert_eq!(trim(&to_chars(" \u{2003}\u{a0} ")), &[][..] as &[char]);
    assert_eq!(trim(&to_chars("")), &[][..] as &[char]);
    assert_eq!(trim(&to_chars("\u{3000}x\u{85}")), &['x'][..]);
}

#[test]
fn trim_agrees_with_str_trim() {
    for s in ["", " ", "a", " a", "a ", "\t a \u{1680} b \r\n", "\u{200b} x", "é \u{2028}"] {
        assert_eq!(to_text(trim(&to_chars(s))), s.trim());
    }
}

#[test]
fn match_end_gives_offset_past_the_pattern() {
    let s = to_chars("abcabc");
    assert_eq!(match_end(&s, 0, "abc"), Some(3));
    assert_eq!(match_end(&s, 3, "abc"), Some(6));
    assert_eq!(match_end(&s, 1, "abc"), None);
    assert_eq!(match_end(&s, 4, "abc"), None);
    assert_eq!(match_end(&s, 6, ""), Some(6));
    assert_eq!(match_end(&s, 7, ""), None);
}

#[test]
fn matches_at_and_starts_with() {
    let s = to_chars("{{{x");
    assert!(matches_at(&s, 0, "{{"));
    assert!(matches_at(&s, 1, "{{"));
    assert!(!matches_at(&s, 2, "{{"));
    assert!(starts_with(&s, "{{{"));
    assert!(!starts_with(&s, "{{{{"));
    assert!(starts_with(&s, ""));
}

#[test]
fn equals_compares_whole_text() {
    assert!(equals(&to_chars("/each"), "/each"));
    assert!(!equals(&to_chars("/each "), "/each"));
    assert!(!equals(&to_chars("/eac"), "/each"));
    assert!(equals(&to_chars(""), ""));
    assert!(!equals(&to_chars(""), "a"));
}

#[test]
fn strip_prefix_gives_the_rest() {
    let s = to_chars("this.name");
    assert_eq!(strip_prefix(&s, "this."), Some(&to_chars("name")[..]));
    assert_eq!(strip_prefix(&s, "that."), None);
    assert_eq!(strip_prefix(&s, "this.name"), Some(&[][..] as &[char]));
    assert_eq!(strip_prefix(&s, "this.names"), None);
}

#[test]
fn find_gives_first_offset() {
    let s = to_chars("a}}b}}}c");
    assert_eq!(find(&s, 0, "}}"), Some(1));
    assert_eq!(find(&s, 1, "}}"), Some(1));
    assert_eq!(find(&s, 2, "}}"), Some(4));
    assert_eq!(find(&s, 0, "}}}"), Some(4));
    assert_eq!(find(&s, 6, "}}"), None);
    assert_eq!(find(&s, 8, "}}"), None);
    assert_eq!(find(&s, 0, "x"), None);
}

#[test]
fn find_agrees_with_str_find_on_ascii() {
    let text = "ab as |cd as || as |";
    let s = to_chars(text);
    let mut from = 0;
    while from <= text.len() {
        assert_eq!(find(&s, from, " as |"), text[from..].find(" as |").map(|i| i + from));
        from += 1;
    }
}

#[test]
fn decimal_digits() {
    assert_eq!(decimal(0), "0");
    assert_eq!(decimal(7), "7");
    assert_eq!(decimal(10), "10");
    assert_eq!(decimal(120), "120");
    assert_eq!(decimal(9876543210), "9876543210");
    assert_eq!(decimal(usize::MAX), usize::MAX.to_string());
}

#[test]
fn push_decimal_appends() {
    let mut out = String::from("n=");
    push_decimal(&mut out, 42);
    assert_eq!(out, "n=42");
}
