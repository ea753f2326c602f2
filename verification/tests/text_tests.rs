use homo::error::AppError;
use homo::gui::view::safe_truncate;
use homo::text::{
    char_is_whitespace, count_lines, decimal_string, replace_char_in, str_contains, str_ends_with,
    str_equals, string_from_chars, text_less, to_chars, trim_bounds,
};

#[test]
fn whitespace_follows_unicode() {
    assert!(char_is_whitespace(' '));
    assert!(char_is_whitespace('\t'));
    assert!(char_is_whitespace('\n'));
    assert!(char_is_whitespace('\u{00A0}'));
    assert!(char_is_whitespace('\u{3000}'));
    assert!(!char_is_whitespace('`'));
    assert!(!char_is_whitespace('a'));
    assert!(!char_is_whitespace('\u{200B}'));
}

#[test]
fn whitespace_agrees_with_std_on_every_char() {
    let mut code: u32 = 0;
    while code <= 0x10FFFF {
        if let Some(c) = char::from_u32(code) {
            assert_eq!(char_is_whitespace(c), c.is_whitespace(), "U+{:04X}", code);
        }
        code += 1;
    }
}

#[test]
fn trim_bounds_match_std_trim() {
    for text in ["", "   ", "abc", "  abc", "abc  ", " \t a b \n", "\u{3000}x\u{00A0}"] {
        let chars = to_chars(text);
        let (start, end) = trim_bounds(&chars);
        assert_eq!(string_from_chars(&chars, start, end), text.trim());
    }
}

#[test]
fn to_chars_and_back() {
    let chars = to_chars("héllo");
    assert_eq!(chars, vec!['h', 'é', 'l', 'l', 'o']);
    assert_eq!(string_from_chars(&chars, 1, 4), "éll");
    assert_eq!(string_from_chars(&chars, 2, 2), "");
}

#[test]
fn string_equality_and_search() {
    assert!(str_equals("mermaid", "mermaid"));
    assert!(!str_equals("mermaid", "mermaids"));
    assert!(!str_equals("a", "b"));
    assert!(str_equals("", ""));
    assert!(str_contains("a # b", "# "));
    assert!(!str_contains("a #b", "# "));
    assert!(str_contains("abc", ""));
    assert!(!str_contains("ab", "abc"));
    assert!(str_ends_with("notes.md", ".md"));
    assert!(!str_ends_with("notes.mdx", ".md"));
    assert!(!str_ends_with("md", ".md"));
}

#[test]
fn replace_char_replaces_every_occurrence() {
    assert_eq!(replace_char_in("a&b&&", '&', "&amp;"), "a&amp;b&amp;&amp;");
    assert_eq!(replace_char_in("plain", '&', "&amp;"), "plain");
    assert_eq!(replace_char_in("", '<', "&lt;"), "");
    assert_eq!(replace_char_in("a<b", '<', ""), "ab");
}

#[test]
fn decimal_string_has_no_leading_zeros() {
    assert_eq!(decimal_string(0), "0");
    assert_eq!(decimal_string(7), "7");
    assert_eq!(decimal_string(14), "14");
    assert_eq!(decimal_string(1_000_000), "1000000");
    assert_eq!(decimal_string(u64::MAX), "18446744073709551615");
}

#[test]
fn line_counts_match_std_lines() {
    for text in ["", "a", "a\n", "a\nb", "a\nb\n", "\n", "\n\n", "a\n\nb"] {
        assert_eq!(count_lines(text), text.lines().count(), "{:?}", text);
    }
}

#[test]
fn text_order_matches_string_order() {
    let samples = ["", "a", "ab", "b", "B", "é", "z", "https://x/katex", "https://x/mermaid"];
    for a in samples {
        for b in samples {
            assert_eq!(text_less(&to_chars(a), &to_chars(b)), a < b, "{:?} {:?}", a, b);
        }
    }
}

#[test]
fn safe_truncate_keeps_short_text() {
    assert_eq!(safe_truncate("hello", 10), "hello");
    assert_eq!(safe_truncate("hello", 5), "hello");
    assert_eq!(safe_truncate("", 0), "");
}

#[test]
fn safe_truncate_cuts_at_a_character_boundary() {
    assert_eq!(safe_truncate("hello world", 5), "hello");
    assert_eq!(safe_truncate("hello", 0), "");
    // The second character starts before byte 2 and is kept whole.
    assert_eq!(safe_truncate("héllo", 2), "hé");
    assert_eq!(safe_truncate("héllo", 3), "hé");
    assert_eq!(safe_truncate("日本語", 1), "日");
    assert_eq!(safe_truncate("日本語", 4), "日本");
}

#[test]
fn app_error_messages() {
    assert_eq!(AppError::Io("not found".to_string()).message(), "I/O Error: not found");
    assert_eq!(
        AppError::ChannelSend("closed".to_string()).message(),
        "Channel Send Error: closed"
    );
}
