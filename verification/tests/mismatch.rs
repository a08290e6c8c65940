use batch_run::mismatch::{
    bytes_to_lines, copy_lines, lines_match, match_with_backslashes, text_to_lines,
    CompileFailMismatch, ExecutionOutcome, LocalOutput, NoStatusCode, RunMismatch,
};

fn lines(items: &[&str]) -> Vec<String> {
    items.iter().map(|s| String::from(*s)).collect()
}

#[test]
fn separators_do_not_matter() {
    assert!(match_with_backslashes("error at C:\\x\\y.rs", "error at C:/x/y.rs"));
    assert!(match_with_backslashes("error at C:/x/y.rs", "error at C:\\x\\y.rs"));
    assert!(match_with_backslashes("a\\b/c", "a/b\\c"));
    assert!(match_with_backslashes("", ""));
    assert!(match_with_backslashes("same", "same"));
}

#[test]
fn other_differences_matter() {
    assert!(!match_with_backslashes("a/b", "a/c"));
    assert!(!match_with_backslashes("a/b", "a//b"));
    assert!(!match_with_backslashes("a/b", "a|b"));
    assert!(!match_with_backslashes("a", ""));
    assert!(!match_with_backslashes("A", "a"));
}

#[test]
fn bytes_become_lines() {
    assert_eq!(bytes_to_lines(b"a\r\nb\nc"), lines(&["a", "b", "c"]));
    assert_eq!(bytes_to_lines(b""), Vec::<String>::new());
    assert_eq!(bytes_to_lines(b"a\n\n"), lines(&["a", ""]));
    assert_eq!(bytes_to_lines(b"x\xfe\n"), lines(&["x\u{fffd}"]));
    assert_eq!(text_to_lines("hello\r\nworld\r\n"), lines(&["hello", "world"]));
}

#[test]
fn fingerprint_of_an_outcome() {
    let outcome = ExecutionOutcome {
        status: Some(3),
        stdout: b"out 1\nout 2\n".to_vec(),
        stderr: b"err\r\n".to_vec(),
    };
    assert!(!outcome.success());
    let output = LocalOutput::try_from(&outcome).unwrap();
    assert_eq!(output, LocalOutput::new(3, lines(&["out 1", "out 2"]), lines(&["err"])));
    assert_eq!(output.status, 3);
    assert_eq!(output.duplicate(), output);
}

#[test]
fn an_outcome_without_exit_code_has_no_fingerprint() {
    let outcome = ExecutionOutcome { status: None, stdout: Vec::new(), stderr: Vec::new() };
    assert!(!outcome.success());
    assert_eq!(LocalOutput::try_from(&outcome), Err(NoStatusCode));
}

#[test]
fn success_is_exit_code_zero() {
    let ok = ExecutionOutcome { status: Some(0), stdout: Vec::new(), stderr: Vec::new() };
    let failed = ExecutionOutcome { status: Some(1), stdout: Vec::new(), stderr: Vec::new() };
    let negative = ExecutionOutcome { status: Some(-1), stdout: Vec::new(), stderr: Vec::new() };
    assert!(ok.success());
    assert!(!failed.success());
    assert!(!negative.success());
}

#[test]
fn fingerprints_match_up_to_separators() {
    let a = LocalOutput::new(0, lines(&["at src\\main.rs", "done"]), lines(&[]));
    let b = LocalOutput::new(0, lines(&["at src/main.rs", "done"]), lines(&[]));
    assert!(a.matches(&b));
    assert!(b.matches(&a));
    assert!(a.matches(&a));
}

#[test]
fn fingerprints_differ_in_status_or_lines() {
    let base = LocalOutput::new(0, lines(&["x"]), lines(&["y"]));
    assert!(!base.matches(&LocalOutput::new(1, lines(&["x"]), lines(&["y"]))));
    assert!(!base.matches(&LocalOutput::new(0, lines(&["x", ""]), lines(&["y"]))));
    assert!(!base.matches(&LocalOutput::new(0, lines(&["x"]), lines(&["z"]))));
    assert!(!base.matches(&LocalOutput::new(0, lines(&["y"]), lines(&["x"]))));
    assert!(!base.matches(&LocalOutput::new(0, lines(&[]), lines(&[]))));
}

#[test]
fn lists_of_lines_match_line_by_line() {
    assert!(lines_match(&lines(&["a\\b", "c"]), &lines(&["a/b", "c"])));
    assert!(!lines_match(&lines(&["a", "b"]), &lines(&["a"])));
    assert!(lines_match(&lines(&[]), &lines(&[])));
    assert_eq!(copy_lines(&lines(&["p", "q"])), lines(&["p", "q"]));
}

#[test]
fn mismatches_keep_both_sides() {
    let m = CompileFailMismatch::new(String::from("expected"), String::from("actual"));
    assert_eq!(m.0.expected, "expected");
    assert_eq!(m.0.actual, "actual");
    let e = LocalOutput::new(0, lines(&["a"]), lines(&[]));
    let a = LocalOutput::new(1, lines(&["b"]), lines(&[]));
    let r = RunMismatch::new(e.clone(), a.clone());
    assert_eq!(r.0.expected, e);
    assert_eq!(r.0.actual, a);
}
