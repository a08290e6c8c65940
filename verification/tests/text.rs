use batch_run::text::{
    char_is_ascii_whitespace, char_is_whitespace, chars_of, join_texts, has_char, has_prefix_at,
    replace_crlf, same_str, slice_of, split_lines, trim_bounds, trim_end_len,
};

fn chars(s: &str) -> Vec<char> {
    s.chars().collect()
}

fn strings(lines: Vec<Vec<char>>) -> Vec<String> {
    lines.into_iter().map(|l| l.into_iter().collect()).collect()
}

#[test]
fn white_space_is_the_unicode_property() {
    for c in [' ', '\t', '\n', '\u{b}', '\u{c}', '\r', '\u{85}', '\u{a0}', '\u{1680}', '\u{2000}',
        '\u{200a}', '\u{2028}', '\u{2029}', '\u{202f}', '\u{205f}', '\u{3000}'] {
        assert!(char_is_whitespace(c));
    }
    for c in ['a', '\u{8}', '\u{e}', '\u{200b}', '\u{feff}', '\u{180e}', '0', '\u{1f}'] {
        assert!(!char_is_whitespace(c));
    }
    for code in 0u32..0x3100 {
        if let Some(c) = char::from_u32(code) {
            assert_eq!(char_is_whitespace(c), c.is_whitespace());
            assert_eq!(char_is_ascii_whitespace(c), c.is_ascii_whitespace());
        }
    }
}

#[test]
fn characters_of_a_text() {
    assert_eq!(chars_of("h\u{e9}!"), vec!['h', '\u{e9}', '!']);
    assert_eq!(chars_of(""), Vec::<char>::new());
    assert_eq!(join_texts("ab", "cd"), "abcd");
    assert!(same_str("x", "x"));
    assert!(!same_str("x", "X"));
}

#[test]
fn lines_follow_line_feeds() {
    assert_eq!(strings(split_lines(&chars("a\nb\n"))), vec!["a", "b"]);
    assert_eq!(strings(split_lines(&chars("a\nb"))), vec!["a", "b"]);
    assert_eq!(strings(split_lines(&chars(""))), Vec::<String>::new());
    assert_eq!(strings(split_lines(&chars("\n"))), vec![""]);
    assert_eq!(strings(split_lines(&chars("a\n\n"))), vec!["a", ""]);
    assert_eq!(strings(split_lines(&chars("a\r\nb\r"))), vec!["a", "b\r"]);
    assert_eq!(strings(split_lines(&chars("a\r\r\n"))), vec!["a\r"]);
}

#[test]
fn lines_agree_with_the_standard_library() {
    for text in ["", "x", "x\n", "\n\nx", "a\r\nb\n\rc\r", "one\ntwo\r\n\r\nthree", "\r", "\r\n"] {
        let expected: Vec<String> = text.lines().map(String::from).collect();
        assert_eq!(strings(split_lines(&chars(text))), expected);
    }
}

#[test]
fn carriage_returns_before_line_feeds_go() {
    let out: String = replace_crlf(&chars("a\r\nb\rc\n\r\r\n")).into_iter().collect();
    assert_eq!(out, "a\nb\rc\n\r\n");
    assert_eq!(out, "a\r\nb\rc\n\r\r\n".replace("\r\n", "\n"));
}

#[test]
fn trimming_finds_the_bounds() {
    assert_eq!(trim_bounds(&chars("  ab c \n")), (2, 6));
    assert_eq!(trim_bounds(&chars("   ")), (3, 3));
    assert_eq!(trim_bounds(&chars("")), (0, 0));
    assert_eq!(trim_end_len(&chars("ab \t")), 2);
    assert_eq!(trim_end_len(&chars(" ")), 0);
}

#[test]
fn prefixes_and_parts() {
    let s = chars("  error: x");
    assert!(has_prefix_at(&s, 2, s.len(), &chars("error:")));
    assert!(!has_prefix_at(&s, 0, s.len(), &chars("error:")));
    assert!(!has_prefix_at(&s, 2, 5, &chars("error:")));
    assert!(has_prefix_at(&s, 3, 3, &chars("")));
    assert_eq!(slice_of(&s, 2, 7), chars("error"));
    assert!(has_char(&s, ':'));
    assert!(!has_char(&s, '*'));
}
