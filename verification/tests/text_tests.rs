use umbra_relay::text::{chars_of, is_blank, is_white_space_char, last_segment_of, starts_with, str_eq};

#[test]
fn string_equality() {
    assert!(str_eq("", ""));
    assert!(str_eq("abc", "abc"));
    assert!(!str_eq("abc", "abd"));
    assert!(!str_eq("abc", "ab"));
    assert!(str_eq("\u{3a3}", "\u{3a3}"));
}

#[test]
fn blank_strings_trim_to_nothing() {
    assert!(is_blank(""));
    assert!(is_blank("   "));
    assert!(is_blank(" \t\r\n\u{b}\u{c}"));
    assert!(is_blank("\u{85}\u{a0}\u{1680}\u{2000}\u{200a}\u{2028}\u{2029}\u{202f}\u{205f}\u{3000}"));
    assert!(!is_blank(" x "));
    assert!(!is_blank("\u{200b}"));
    for s in ["", " ", "\t a", "\u{3000}", "a", "\u{feff}"] {
        assert_eq!(is_blank(s), s.trim().is_empty());
    }
}

#[test]
fn white_space_matches_std() {
    for u in 0u32..0x3100 {
        if let Some(c) = char::from_u32(u) {
            assert_eq!(is_white_space_char(c), c.is_whitespace(), "U+{:04X}", u);
        }
    }
}

#[test]
fn prefixes() {
    assert!(starts_with("--gen-config", "--"));
    assert!(starts_with("--", "--"));
    assert!(!starts_with("-", "--"));
    assert!(!starts_with("cfg.toml", "--"));
    assert!(starts_with("anything", ""));
}

#[test]
fn last_segments_follow_rsplit() {
    for (s, want) in [
        ("127.0.0.1:9910", "9910"),
        ("[::1]:9900", "9900"),
        ("noport", "noport"),
        ("host:", ""),
        ("", ""),
        (":", ""),
        ("a:b:c", "c"),
    ] {
        assert_eq!(last_segment_of(s, ':'), want);
        assert_eq!(last_segment_of(s, ':'), s.rsplit(':').next().unwrap());
    }
}

#[test]
fn chars_in_order() {
    assert_eq!(chars_of("a\u{e9}b"), vec!['a', '\u{e9}', 'b']);
    assert!(chars_of("").is_empty());
}
