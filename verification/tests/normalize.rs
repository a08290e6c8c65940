use batch_run::normalize::{diagnostics, filter_map, process, trim, variations_of};

#[test]
fn closing_lines_are_cut_out() {
    let raw = "error: foo\n  --> src/main.rs:1:1\n\nerror: aborting due to previous error\n\nFor more information about this error, try `rustc --explain E0308`.\n";
    assert_eq!(process(raw), "error: foo\n  --> src/main.rs:1:1\n");
}

#[test]
fn any_number_of_closing_lines_is_removed() {
    let body = "error[E0308]: mismatched types\n --> a.rs:2:5\n";
    let expected = process(body);
    assert_eq!(expected, body);
    let mut text = String::from(body);
    let closing = [
        "error: aborting due to 3 previous errors",
        "Some errors have detailed explanations: E0106, E0255.",
        "For more information about an error, try `rustc --explain E0106`.",
        "For more information about this error, try `rustc --explain E0308`.",
    ];
    for round in 0..12 {
        text.push_str(closing[round % closing.len()]);
        text.push('\n');
        assert_eq!(process(&text), expected);
    }
}

#[test]
fn closing_lines_may_be_indented_or_end_with_a_carriage_return() {
    assert_eq!(process("x\n   \terror: aborting due to 2 previous errors\r\n"), "x\n");
    assert_eq!(filter_map("  error: aborting due to 2 previous errors  "), None);
}

#[test]
fn other_lines_are_kept() {
    assert_eq!(filter_map("error: mismatched types"), Some(String::from("error: mismatched types")));
    assert_eq!(filter_map(""), Some(String::new()));
    assert_eq!(filter_map("note: error: aborting due to"), Some(String::from("note: error: aborting due to")));
    assert_eq!(filter_map("Some errors have detailed explanations: E0106."), None);
    assert_eq!(filter_map("For more information about an error, try `rustc --explain E1`."), None);
    assert_eq!(filter_map("For more information about this error, try `rustc --explain E1`."), None);
    assert_eq!(filter_map("For more information"), Some(String::from("For more information")));
}

#[test]
fn blank_lines_do_not_pile_up() {
    assert_eq!(process("a\n\n\n\nb\n"), "a\n\nb\n");
    assert_eq!(process("\n\n\na\n"), "\n\na\n");
}

#[test]
fn text_without_final_line_feed_gets_one() {
    assert_eq!(process("a\nb"), "a\nb\n");
    assert_eq!(process(""), "");
    assert_eq!(process("error: aborting due to previous error"), "");
}

#[test]
fn trim_drops_trailing_white_space() {
    assert_eq!(trim(b"abc  \n\n"), "abc\n");
    assert_eq!(trim(b"  abc"), "  abc\n");
    assert_eq!(trim(b""), "");
    assert_eq!(trim(b" \t\r\n"), "");
    assert_eq!(trim("abc\u{a0}\u{2003}".as_bytes()), "abc\n");
}

#[test]
fn trim_reads_bytes_as_lossy_utf8() {
    assert_eq!(trim(b"a\xffb"), "a\u{fffd}b\n");
    assert_eq!(trim("h\u{e9}llo\n".as_bytes()), "h\u{e9}llo\n");
}

#[test]
fn diagnostics_unify_line_ends_first() {
    let variations = diagnostics(b"error: x\r\n  at y\r\nerror: aborting due to previous error\r\n");
    assert_eq!(variations.preferred(), "error: x\n  at y\n");
}

#[test]
fn diagnostics_hold_one_variation() {
    let variations = diagnostics(b"warning: unused\n");
    assert_eq!(variations.preferred(), "warning: unused\n");
    let mut seen: Vec<String> = Vec::new();
    let found = variations.any(|text: &str| text == "warning: unused\n");
    assert!(found);
    assert!(!variations.any(|text: &str| text == "warning: unused"));
    assert!(!variations.any(|text: &str| text.is_empty()));
    seen.push(String::from(variations.preferred()));
    assert_eq!(seen.len(), 1);
}

#[test]
fn variations_of_text_agree_with_diagnostics_of_bytes() {
    let text = "error: y\r\n\r\nerror: aborting due to previous error\n";
    assert_eq!(variations_of(text).preferred(), diagnostics(text.as_bytes()).preferred());
    assert_eq!(variations_of(text).preferred(), "error: y\n");
}

#[test]
fn a_lone_carriage_return_before_the_line_end_is_dropped() {
    assert_eq!(process("abc\r\nd\re\n"), "abc\nd\re\n");
}

#[test]
fn trim_agrees_with_the_standard_library() {
    for text in ["", "a", "a\n", "a \u{3000}\r\n\n", " a b ", "\n\n", "x\u{85}", "\u{feff}"] {
        let mut expected = String::from(text.trim_end());
        if !expected.is_empty() {
            expected.push('\n');
        }
        assert_eq!(trim(text.as_bytes()), expected);
    }
}

const SAMPLES: [&str; 8] = [
    "",
    "error: x\n\n\n\nnote: y  \nerror: aborting due to previous error\n\n  \n\t\n",
    "\n\n\nwarning: unused\r\n   For more information about this error, try `rustc --explain E0001`.\nlast line \u{a0}",
    "Some errors have detailed explanations: E0106.\nerror: aborting due to 2 previous errors\n",
    "a\n \nb\n\n\n \n\nc\n\n",
    "only\ttabs\t\t\n",
    "x\r\r\ny\n",
    "help: For more information about an error, try `rustc --explain E1`.\nerror: aborting due to\n",
];

#[test]
fn no_line_of_a_normalized_text_is_cut_out() {
    for text in SAMPLES {
        for line in process(text).lines() {
            assert_eq!(filter_map(line), Some(String::from(line)));
        }
    }
}

#[test]
fn a_normalized_text_ends_with_one_line_feed() {
    for text in SAMPLES {
        let result = process(text);
        if !result.is_empty() {
            assert!(result.ends_with('\n'));
            let before = result[..result.len() - 1].chars().last().unwrap();
            assert!(!before.is_whitespace());
        }
    }
}

#[test]
fn lines_with_content_are_kept_in_their_order() {
    for text in SAMPLES {
        let mut expected: Vec<String> = text
            .lines()
            .filter(|line| !line.trim().is_empty() && filter_map(line).is_some())
            .map(String::from)
            .collect();
        if let Some(last) = expected.last_mut() {
            *last = String::from(last.trim_end());
        }
        let expected: Vec<String> =
            expected.iter().map(|line| String::from(line.strip_suffix('\r').unwrap_or(line))).collect();
        let result = process(text);
        let kept: Vec<String> =
            result.lines().filter(|line| !line.trim().is_empty()).map(String::from).collect();
        assert_eq!(kept, expected);
    }
}
