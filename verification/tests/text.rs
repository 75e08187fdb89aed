use coop_gateway::text::{
    byte_length, cat5, comes_before, contains_text, decimal_text, holds_text, is_blank,
    is_white_space, join_texts, same_text, split_at_colon, split_lines, split_words, starts_with,
    strip_prefix_text, strip_suffix_text, to_lower_ascii, to_upper_ascii, trim_text,
};

#[test]
fn white_space_is_that_of_unicode() {
    for n in 0..0x11_0000u32 {
        if let Some(c) = char::from_u32(n) {
            assert_eq!(is_white_space(c), c.is_whitespace(), "{n:x}");
        }
    }
}

#[test]
fn texts_are_cut_like_those_of_the_standard_library() {
    for s in ["", " ", " a b ", "\u{2003}x\n", "a\r\nb\n\nc", "no end\r", "é:ß:x", ":", "YES yes"] {
        assert_eq!(trim_text(s), s.trim());
        assert_eq!(is_blank(s), s.trim().is_empty());
        assert_eq!(split_lines(s), s.lines().map(str::to_owned).collect::<Vec<_>>());
        assert_eq!(split_words(s), s.split_whitespace().map(str::to_owned).collect::<Vec<_>>());
        assert_eq!(to_lower_ascii(s), s.to_ascii_lowercase());
        assert_eq!(to_upper_ascii(s), s.to_ascii_uppercase());
        assert_eq!(byte_length(s), s.len());
        let (before, after) = split_at_colon(s);
        let expected = s.split_once(':');
        assert_eq!(before, expected.map_or(s, |p| p.0));
        assert_eq!(after.as_deref(), expected.map(|p| p.1));
        for p in ["", "a", " ", "b", "\n", "yes"] {
            assert_eq!(contains_text(s, p), s.contains(p));
            assert_eq!(starts_with(s, p), s.starts_with(p));
            assert_eq!(strip_prefix_text(s, p).as_deref(), s.strip_prefix(p));
            assert_eq!(strip_suffix_text(s, p).as_deref(), s.strip_suffix(p));
            assert_eq!(comes_before(s, p), s < p);
            assert_eq!(same_text(s, p), s == p);
        }
    }
}

#[test]
fn numbers_are_written_out() {
    for n in [0, 7, 10, 1234567890, u64::MAX] {
        assert_eq!(decimal_text(n), n.to_string());
    }
}

#[test]
fn texts_are_joined() {
    let parts: Vec<String> = ["a", "", "b"].iter().map(|s| (*s).to_owned()).collect();
    assert_eq!(join_texts(&parts, ", "), parts.join(", "));
    assert_eq!(join_texts(&vec![], ", "), "");
    assert!(holds_text(&parts, "b"));
    assert!(!holds_text(&parts, "c"));
    assert_eq!(cat5("a", "b", "c", "d", "e"), "abcde");
}
