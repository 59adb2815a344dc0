use youtube_helper_rs::text::{
    chars_of, first_nonblank_line, is_blank_range, is_white_space_char, last_nonempty_trimmed_line,
    line_ranges, str_contains, str_starts_with, trim_range,
};

#[test]
fn white_space_matches_std() {
    for c in ['\t', '\n', '\u{b}', '\u{c}', '\r', ' ', '\u{85}', '\u{a0}', '\u{1680}', '\u{2000}', '\u{200a}', '\u{2028}', '\u{2029}', '\u{202f}', '\u{205f}', '\u{3000}', 'a', '\u{200b}', '\u{feff}', '\u{180e}', '0', 'é'] {
        assert_eq!(is_white_space_char(c), c.is_whitespace(), "{:?}", c);
    }
}

#[test]
fn line_ranges_follow_std_lines() {
    for s in ["", "\n", "a", "a\n", "a\r\nb", "a\rb\n", "\n\n", "x\r\n\r\ny", "a\r"] {
        let v = chars_of(s);
        let ranges = line_ranges(&v);
        let got: Vec<String> = ranges.iter().map(|&(a, b)| v[a..b].iter().collect()).collect();
        let want: Vec<String> = s.lines().map(|l| l.to_string()).collect();
        assert_eq!(got, want, "{:?}", s);
    }
}

#[test]
fn trim_and_blank_follow_std() {
    for s in ["", "  ", " a b ", "\u{3000}x\t", "abc"] {
        let v = chars_of(s);
        let (a, b) = trim_range(&v, 0, v.len());
        let got: String = v[a..b].iter().collect();
        assert_eq!(got, s.trim());
        assert_eq!(is_blank_range(&v, 0, v.len()), s.trim().is_empty());
    }
}

#[test]
fn first_and_last_lines() {
    assert_eq!(first_nonblank_line(" \n a \nb"), Some(" a ".to_string()));
    assert_eq!(first_nonblank_line(" \n\t"), None);
    assert_eq!(last_nonempty_trimmed_line("a\n b \n \n"), Some("b".to_string()));
    assert_eq!(last_nonempty_trimmed_line(""), None);
}

#[test]
fn contains_and_starts_with() {
    assert!(str_contains("ERROR: [generic] is not a valid URL", "is not a valid URL"));
    assert!(!str_contains("ERROR: network unreachable", "Unsupported URL"));
    assert!(str_contains("abc", ""));
    assert!(!str_contains("ab", "abc"));
    assert!(str_starts_with("https://x", "https://"));
    assert!(!str_starts_with("http:", "http://"));
}
