use batch_run::config::Update;
use batch_run::error::{EntryError, EntryFailed, NoExpected};
use batch_run::mismatch::{CompileFailMismatch, ExecutionOutcome, LocalOutput, RunMismatch};
use batch_run::normalize::diagnostics;
use batch_run::snapshot::{
    check_build, check_compile_fail, check_run_match, plan_write, reconcile_diagnostics,
    unify_line_ends, write_overwrite, write_wip, Expectation, FileStep, Verdict, WriteOutcome,
    WritePlan,
};

fn failed_build(stderr: &str) -> ExecutionOutcome {
    ExecutionOutcome { status: Some(1), stdout: Vec::new(), stderr: stderr.as_bytes().to_vec() }
}

fn successful_build() -> ExecutionOutcome {
    ExecutionOutcome { status: Some(0), stdout: Vec::new(), stderr: b"warning: unused\n".to_vec() }
}

fn output(status: i32, stdout: &[&str], stderr: &[&str]) -> LocalOutput {
    LocalOutput::new(
        status,
        stdout.iter().map(|s| String::from(*s)).collect(),
        stderr.iter().map(|s| String::from(*s)).collect(),
    )
}

const DIAGNOSTICS: &str = "error: expected `;`\n --> tests/ui/a.rs:2:5\n\nerror: aborting due to previous error\n";
const NORMALIZED: &str = "error: expected `;`\n --> tests/ui/a.rs:2:5\n";

#[test]
fn compile_fail_with_matching_expectation_passes() {
    for mode in [Update::Wip, Update::Overwrite] {
        let verdict = check_compile_fail(
            "tests/ui/a.rs",
            &failed_build(DIAGNOSTICS),
            Expectation::Found(String::from(NORMALIZED)),
            mode,
        );
        assert_eq!(verdict, Verdict::Pass);
    }
}

#[test]
fn compile_fail_expectation_may_have_other_line_ends_and_separators() {
    let recorded = "error: expected `;`\r\n --> tests\\ui\\a.rs:2:5\r\n";
    let verdict = check_compile_fail(
        "tests/ui/a.rs",
        &failed_build(DIAGNOSTICS),
        Expectation::Found(String::from(recorded)),
        Update::Wip,
    );
    assert_eq!(verdict, Verdict::Pass);
}

#[test]
fn compile_fail_that_compiles_fails_under_either_mode() {
    for mode in [Update::Wip, Update::Overwrite] {
        for expectation in [
            Expectation::Missing,
            Expectation::Unreadable(String::from("denied")),
            Expectation::Found(String::from("warning: unused\n")),
        ] {
            let verdict = check_compile_fail("tests/ui/a.rs", &successful_build(), expectation, mode);
            assert_eq!(verdict, Verdict::Fail(EntryFailed::ShouldNotCompile));
        }
    }
}

#[test]
fn compile_fail_without_expectation_is_staged_under_wip() {
    let verdict = check_compile_fail(
        "tests/ui/a.rs",
        &failed_build(DIAGNOSTICS),
        Expectation::Missing,
        Update::Wip,
    );
    let plan = WritePlan::Staged {
        path: String::from("wip/a.stderr"),
        target: String::from("tests/ui/a.stderr"),
        content: String::from(NORMALIZED),
    };
    assert_eq!(verdict, Verdict::Write(plan.clone()));
    assert!(plan.is_staged());
    assert_eq!(plan.path(), "wip/a.stderr");
    assert_eq!(plan.content(), NORMALIZED);
    assert_eq!(
        plan.conclude(WriteOutcome::Written),
        EntryFailed::ExpectedNotExist(NoExpected::ToWip(String::from(NORMALIZED)))
    );
}

#[test]
fn compile_fail_without_expectation_is_written_under_overwrite() {
    let verdict = check_compile_fail(
        "tests/ui/a.rs",
        &failed_build(DIAGNOSTICS),
        Expectation::Missing,
        Update::Overwrite,
    );
    let plan = WritePlan::Direct {
        path: String::from("tests/ui/a.stderr"),
        content: String::from(NORMALIZED),
    };
    assert_eq!(verdict, Verdict::Write(plan.clone()));
    assert!(!plan.is_staged());
    assert_eq!(
        plan.conclude(WriteOutcome::Written),
        EntryFailed::ExpectedNotExist(NoExpected::Direct(String::from(NORMALIZED)))
    );
}

#[test]
fn compile_fail_mismatch_fails_under_wip() {
    let verdict = check_compile_fail(
        "tests/ui/a.rs",
        &failed_build(DIAGNOSTICS),
        Expectation::Found(String::from("error: something else\r\n")),
        Update::Wip,
    );
    assert_eq!(
        verdict,
        Verdict::Fail(EntryFailed::CompileFailMismatch(CompileFailMismatch::new(
            String::from("error: something else\n"),
            String::from(NORMALIZED),
        )))
    );
}

#[test]
fn compile_fail_mismatch_is_overwritten_under_overwrite() {
    let verdict = check_compile_fail(
        "tests/ui/a.rs",
        &failed_build(DIAGNOSTICS),
        Expectation::Found(String::from("error: something else\n")),
        Update::Overwrite,
    );
    assert_eq!(
        verdict,
        Verdict::Write(WritePlan::Direct {
            path: String::from("tests/ui/a.stderr"),
            content: String::from(NORMALIZED),
        })
    );
}

#[test]
fn unreadable_expectation_is_an_error() {
    let verdict = check_compile_fail(
        "a.rs",
        &failed_build(DIAGNOSTICS),
        Expectation::Unreadable(String::from("permission denied")),
        Update::Overwrite,
    );
    assert_eq!(
        verdict,
        Verdict::Fail(EntryFailed::Error(EntryError::ReadExpected(String::from("permission denied"))))
    );
    let verdict = check_run_match(
        "a.rs",
        output(0, &[], &[]),
        "()",
        Expectation::Unreadable(String::from("is a directory")),
        Update::Wip,
    );
    assert_eq!(
        verdict,
        Verdict::Fail(EntryFailed::Error(EntryError::ReadExpected(String::from("is a directory"))))
    );
}

#[test]
fn reconciliation_of_given_variations() {
    let variations = diagnostics(b"error: x\n");
    assert_eq!(
        reconcile_diagnostics("x.rs", &variations, Expectation::Found(String::from("error: x\n")), Update::Wip),
        Verdict::Pass
    );
    assert_eq!(
        reconcile_diagnostics("x.rs", &variations, Expectation::Found(String::from("error: x")), Update::Wip),
        Verdict::Fail(EntryFailed::CompileFailMismatch(CompileFailMismatch::new(
            String::from("error: x"),
            String::from("error: x\n"),
        )))
    );
}

#[test]
fn run_match_without_snapshot_is_staged_under_wip() {
    let rendered = "(status: 0, stdout: [\"hi\"], stderr: [])";
    let verdict = check_run_match(
        "tests/basic/run-hello.rs",
        output(0, &["hi"], &[]),
        rendered,
        Expectation::Missing,
        Update::Wip,
    );
    let plan = WritePlan::Staged {
        path: String::from("wip/run-hello.snapshot"),
        target: String::from("tests/basic/run-hello.snapshot"),
        content: String::from(rendered),
    };
    assert_eq!(verdict, Verdict::Write(plan.clone()));
    assert!(plan.path().starts_with("wip/"));
    let ended = plan.conclude(WriteOutcome::Written);
    assert_eq!(ended, EntryFailed::ExpectedNotExist(NoExpected::ToWip(String::from(rendered))));
}

#[test]
fn run_match_with_other_stdout_is_rewritten_under_overwrite() {
    let rendered = "(status: 0, stdout: [\"new\"], stderr: [\"e\"])";
    let verdict = check_run_match(
        "tests/basic/run-hello.rs",
        output(0, &["new"], &["e"]),
        rendered,
        Expectation::Found(output(0, &["old"], &["e"])),
        Update::Overwrite,
    );
    let plan = WritePlan::Direct {
        path: String::from("tests/basic/run-hello.snapshot"),
        content: String::from(rendered),
    };
    assert_eq!(verdict, Verdict::Write(plan.clone()));
    assert_eq!(
        plan.conclude(WriteOutcome::Written),
        EntryFailed::ExpectedNotExist(NoExpected::Direct(String::from(rendered)))
    );
}

#[test]
fn run_match_mismatch_fails_under_wip() {
    let verdict = check_run_match(
        "r.rs",
        output(2, &["a"], &[]),
        "rendered",
        Expectation::Found(output(0, &["a"], &[])),
        Update::Wip,
    );
    assert_eq!(
        verdict,
        Verdict::Fail(EntryFailed::RunMismatch(RunMismatch::new(
            output(0, &["a"], &[]),
            output(2, &["a"], &[]),
        )))
    );
}

#[test]
fn run_match_with_matching_snapshot_passes() {
    for mode in [Update::Wip, Update::Overwrite] {
        let verdict = check_run_match(
            "r.rs",
            output(0, &["at a/b.rs"], &["warn"]),
            "rendered",
            Expectation::Found(output(0, &["at a\\b.rs"], &["warn"])),
            mode,
        );
        assert_eq!(verdict, Verdict::Pass);
    }
}

#[test]
fn written_snapshot_matches_on_the_next_run() {
    let actual = output(7, &["line 1", "line 2"], &["oops"]);
    let rendered = "the rendering";
    let first = check_run_match("r.rs", actual.clone(), rendered, Expectation::Missing, Update::Overwrite);
    assert_eq!(
        first,
        Verdict::Write(WritePlan::Direct { path: String::from("r.snapshot"), content: String::from(rendered) })
    );
    for mode in [Update::Wip, Update::Overwrite] {
        let second = check_run_match("r.rs", actual.clone(), rendered, Expectation::Found(actual.clone()), mode);
        assert_eq!(second, Verdict::Pass);
    }
}

#[test]
fn a_matching_run_is_the_same_twice() {
    let build = failed_build(DIAGNOSTICS);
    let first = check_compile_fail("a.rs", &build, Expectation::Found(String::from(NORMALIZED)), Update::Wip);
    let second = check_compile_fail("a.rs", &build, Expectation::Found(String::from(NORMALIZED)), Update::Wip);
    assert_eq!(first, Verdict::Pass);
    assert_eq!(first, second);
}

#[test]
fn failed_writes_are_errors() {
    let plan = write_wip("tests/a.stderr", "content");
    assert_eq!(
        plan,
        WritePlan::Staged {
            path: String::from("wip/a.stderr"),
            target: String::from("tests/a.stderr"),
            content: String::from("content"),
        }
    );
    assert_eq!(
        plan.clone().conclude(WriteOutcome::SetupFailed(String::from("read-only"))),
        EntryFailed::Error(EntryError::Io(String::from("read-only")))
    );
    assert_eq!(
        plan.conclude(WriteOutcome::WriteFailed(String::from("disk full"))),
        EntryFailed::Error(EntryError::WriteExpected(String::from("disk full")))
    );
    let direct = write_overwrite("tests/a.stderr", "content");
    assert_eq!(
        direct,
        WritePlan::Direct { path: String::from("tests/a.stderr"), content: String::from("content") }
    );
    assert_eq!(direct, plan_write(Update::Overwrite, String::from("tests/a.stderr"), String::from("content")));
    assert_eq!(
        direct.conclude(WriteOutcome::WriteFailed(String::from("disk full"))),
        EntryFailed::Error(EntryError::WriteExpected(String::from("disk full")))
    );
}

#[test]
fn a_failed_build_settles_a_run_match_entry() {
    let build = failed_build("error: cannot find value\r\n");
    assert_eq!(
        check_build(true, &build),
        Some(EntryFailed::ShouldCompile(String::from("error: cannot find value\r\n")))
    );
    assert_eq!(check_build(false, &build), None);
    assert_eq!(check_build(true, &successful_build()), None);
    assert_eq!(check_build(false, &successful_build()), None);
}

#[test]
fn line_ends_are_unified() {
    assert_eq!(unify_line_ends("a\r\nb\n\rc\r\n"), "a\nb\n\rc\n");
}

#[test]
fn a_staged_file_needs_its_directory_and_the_ignore_file() {
    let plan = write_wip("tests/a.stderr", "content");
    assert_eq!(
        plan.steps(),
        vec![
            FileStep::MakeDir { path: String::from("wip") },
            FileStep::Write { path: String::from("wip/.gitignore"), content: String::from("*\n") },
            FileStep::Write { path: String::from("wip/a.stderr"), content: String::from("content") },
        ]
    );
    assert_eq!(plan.outcome(None), WriteOutcome::Written);
    assert_eq!(plan.outcome(Some((0, String::from("e")))), WriteOutcome::SetupFailed(String::from("e")));
    assert_eq!(plan.outcome(Some((1, String::from("e")))), WriteOutcome::SetupFailed(String::from("e")));
    assert_eq!(plan.outcome(Some((2, String::from("e")))), WriteOutcome::WriteFailed(String::from("e")));
}

#[test]
fn a_direct_write_is_one_operation() {
    let plan = write_overwrite("tests/a.snapshot", "content");
    assert_eq!(
        plan.steps(),
        vec![FileStep::Write { path: String::from("tests/a.snapshot"), content: String::from("content") }]
    );
    assert_eq!(plan.outcome(None), WriteOutcome::Written);
    assert_eq!(plan.outcome(Some((0, String::from("e")))), WriteOutcome::WriteFailed(String::from("e")));
}
