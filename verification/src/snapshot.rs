//! Reconciliation of actual output with a recorded expectation.
//!
//! For one entry that has been built, and for a run-match entry also run,
//! the functions here decide how it ends: it passes, it fails, or its
//! expectation has to be written. Writing never counts as passing: once the
//! file is written, the entry fails with a note of what was written, so that
//! a changed expectation does not go unnoticed.

use crate::config::Update;
use crate::error::{
    EntryError, EntryErrorView, EntryFailed, EntryFailedView, NoExpected, NoExpectedView,
};
use crate::mismatch::{
    CompileFailMismatch, ExecutionOutcome, LocalOutput, LocalOutputView, match_with_backslashes,
    RunMismatch, same_output, same_text, SingleMismatch,
};
use crate::normalize::{diagnostics, normalized, Variations};
use crate::paths::{
    file_name, IGNORE_ALL, IGNORE_FILE, replace_extension, SNAPSHOT, stage, staged_path, STDERR,
    WIP_DIR, with_extension,
};
use crate::text::{chars_of, decode_lossy, replace_crlf, string_of, unify_newlines, utf8_lossy};
use vstd::prelude::*;

verus! {

/// What was found where the expectation of an entry is kept.
#[derive(Debug, Clone, PartialEq, Eq)]
pub enum Expectation<T> {
    /// There is no such file.
    Missing,
    /// The file is there and could not be read, for the given reason.
    Unreadable(String),
    /// The file holds this.
    Found(T),
}

/// `Expectation` over mathematical values.
pub enum ExpectationView<V> {
    Missing,
    Unreadable(Seq<char>),
    Found(V),
}

impl<T: View> View for Expectation<T> {
    type V = ExpectationView<T::V>;

    open spec fn view(&self) -> ExpectationView<T::V> {
        match self {
            Expectation::Missing => ExpectationView::Missing,
            Expectation::Unreadable(reason) => ExpectationView::Unreadable(reason@),
            Expectation::Found(value) => ExpectationView::Found(value@),
        }
    }
}

/// An expectation that is to be written.
#[derive(Debug, Clone, PartialEq, Eq)]
pub enum WritePlan {
    /// `content` goes to `path` in the review directory, which is made if
    /// need be, together with its ignore file. `target` is the committed
    /// file that it would replace once accepted.
    Staged { path: String, target: String, content: String },
    /// `content` goes to the committed file `path`.
    Direct { path: String, content: String },
}

/// `WritePlan` over mathematical text.
pub enum WritePlanView {
    Staged { path: Seq<char>, target: Seq<char>, content: Seq<char> },
    Direct { path: Seq<char>, content: Seq<char> },
}

impl View for WritePlan {
    type V = WritePlanView;

    open spec fn view(&self) -> WritePlanView {
        match self {
            WritePlan::Staged { path, target, content } => WritePlanView::Staged {
                path: path@,
                target: target@,
                content: content@,
            },
            WritePlan::Direct { path, content } => WritePlanView::Direct {
                path: path@,
                content: content@,
            },
        }
    }
}

/// One file operation.
#[derive(Debug, Clone, PartialEq, Eq)]
pub enum FileStep {
    /// Make the directory `path`, and what lies above it, unless it is
    /// there.
    MakeDir { path: String },
    /// Write `content` to the file `path`, in place of what it holds.
    Write { path: String, content: String },
}

/// `FileStep` over mathematical text.
pub enum FileStepView {
    MakeDir { path: Seq<char> },
    Write { path: Seq<char>, content: Seq<char> },
}

impl View for FileStep {
    type V = FileStepView;

    open spec fn view(&self) -> FileStepView {
        match self {
            FileStep::MakeDir { path } => FileStepView::MakeDir { path: path@ },
            FileStep::Write { path, content } => FileStepView::Write {
                path: path@,
                content: content@,
            },
        }
    }
}

/// The views of a list of file operations.
pub open spec fn step_views(steps: Seq<FileStep>) -> Seq<FileStepView> {
    steps.map_values(|step: FileStep| step@)
}

/// The file operations that carry out a plan, in their order. A staged
/// file needs the review directory and, in it, the file that keeps the
/// directory out of version control; the expectation itself is written
/// last.
pub open spec fn planned_steps(plan: WritePlanView) -> Seq<FileStepView> {
    match plan {
        WritePlanView::Staged { path, content, .. } => seq![
            FileStepView::MakeDir { path: WIP_DIR@ },
            FileStepView::Write { path: IGNORE_FILE@, content: IGNORE_ALL@ },
            FileStepView::Write { path, content },
        ],
        WritePlanView::Direct { path, content } => seq![FileStepView::Write { path, content }],
    }
}

/// How carrying out a plan went, where `failed` names the operation that
/// failed, counted from zero, with the reason; the operations after it were
/// not tried. The last operation writes the expectation, those before it
/// set the review directory up.
pub open spec fn outcome_of(plan: WritePlanView, failed: Option<(usize, Seq<char>)>)
    -> WriteOutcomeView {
    match failed {
        None => WriteOutcomeView::Written,
        Some((index, reason)) => if index + 1 < planned_steps(plan).len() {
            WriteOutcomeView::SetupFailed(reason)
        } else {
            WriteOutcomeView::WriteFailed(reason)
        },
    }
}

/// The view of a failed operation.
pub open spec fn failed_view(failed: Option<(usize, String)>) -> Option<(usize, Seq<char>)> {
    match failed {
        None => None,
        Some((index, reason)) => Some((index, reason@)),
    }
}

/// How carrying out a `WritePlan` went.
#[derive(Debug, Clone, PartialEq, Eq)]
pub enum WriteOutcome {
    /// The file is written.
    Written,
    /// The review directory or its ignore file could not be made.
    SetupFailed(String),
    /// The file itself could not be written.
    WriteFailed(String),
}

/// `WriteOutcome` over mathematical text.
pub enum WriteOutcomeView {
    Written,
    SetupFailed(Seq<char>),
    WriteFailed(Seq<char>),
}

impl View for WriteOutcome {
    type V = WriteOutcomeView;

    open spec fn view(&self) -> WriteOutcomeView {
        match self {
            WriteOutcome::Written => WriteOutcomeView::Written,
            WriteOutcome::SetupFailed(reason) => WriteOutcomeView::SetupFailed(reason@),
            WriteOutcome::WriteFailed(reason) => WriteOutcomeView::WriteFailed(reason@),
        }
    }
}

/// How the reconciliation of one entry ends.
#[derive(Debug, Clone, PartialEq, Eq)]
pub enum Verdict {
    /// The actual output is the expected one.
    Pass,
    /// The entry fails for the given reason; nothing is written.
    Fail(EntryFailed),
    /// The expectation is to be written as planned; the entry then fails
    /// with what `conclude` gives.
    Write(WritePlan),
}

/// `Verdict` over mathematical text.
pub enum VerdictView {
    Pass,
    Fail(EntryFailedView),
    Write(WritePlanView),
}

impl View for Verdict {
    type V = VerdictView;

    open spec fn view(&self) -> VerdictView {
        match self {
            Verdict::Pass => VerdictView::Pass,
            Verdict::Fail(reason) => VerdictView::Fail(reason@),
            Verdict::Write(plan) => VerdictView::Write(plan@),
        }
    }
}

/// The plan to write `content` as the expectation kept at `path`: staged
/// for review under `Update::Wip`, over the committed file under
/// `Update::Overwrite`.
pub open spec fn write_plan(mode: Update, path: Seq<char>, content: Seq<char>) -> WritePlanView {
    match mode {
        Update::Wip => WritePlanView::Staged { path: staged_path(path), target: path, content },
        Update::Overwrite => WritePlanView::Direct { path, content },
    }
}

/// The content that a plan writes.
pub open spec fn planned_content(plan: WritePlanView) -> Seq<char> {
    match plan {
        WritePlanView::Staged { content, .. } => content,
        WritePlanView::Direct { content, .. } => content,
    }
}

/// How an entry ends once its plan has been carried out.
pub open spec fn concluded(plan: WritePlanView, outcome: WriteOutcomeView) -> EntryFailedView {
    match outcome {
        WriteOutcomeView::Written => match plan {
            WritePlanView::Staged { content, .. } => EntryFailedView::ExpectedNotExist(
                NoExpectedView::ToWip(content),
            ),
            WritePlanView::Direct { content, .. } => EntryFailedView::ExpectedNotExist(
                NoExpectedView::Direct(content),
            ),
        },
        WriteOutcomeView::SetupFailed(reason) => EntryFailedView::Error(
            EntryErrorView::Io(reason),
        ),
        WriteOutcomeView::WriteFailed(reason) => EntryFailedView::Error(
            EntryErrorView::WriteExpected(reason),
        ),
    }
}

/// The recorded text agrees with one of the variations.
pub open spec fn any_matches(expected: Seq<char>, variations: Seq<Seq<char>>) -> bool {
    exists|i: int| 0 <= i < variations.len() && same_text(expected, #[trigger] variations[i])
}

/// How a compile-fail entry ends whose diagnostics have the given
/// variations: `source` is the path of its source file, `expectation` what
/// was found at its `.stderr` file.
pub open spec fn reconciled_diagnostics(
    source: Seq<char>,
    variations: Seq<Seq<char>>,
    expectation: ExpectationView<Seq<char>>,
    mode: Update,
) -> VerdictView
    recommends
        variations.len() > 0,
{
    let path = with_extension(source, STDERR@);
    let preferred = variations.last();
    match expectation {
        ExpectationView::Missing => VerdictView::Write(write_plan(mode, path, preferred)),
        ExpectationView::Unreadable(reason) => VerdictView::Fail(
            EntryFailedView::Error(EntryErrorView::ReadExpected(reason)),
        ),
        ExpectationView::Found(raw) => {
            let expected = unify_newlines(raw);
            if any_matches(expected, variations) {
                VerdictView::Pass
            } else {
                match mode {
                    Update::Wip => VerdictView::Fail(
                        EntryFailedView::CompileFailMismatch(
                            SingleMismatch { expected, actual: preferred },
                        ),
                    ),
                    Update::Overwrite => VerdictView::Write(
                        WritePlanView::Direct { path, content: preferred },
                    ),
                }
            }
        },
    }
}

/// How a compile-fail entry ends whose build left `output` behind.
pub open spec fn checked_compile_fail(
    source: Seq<char>,
    output: ExecutionOutcome,
    expectation: ExpectationView<Seq<char>>,
    mode: Update,
) -> VerdictView {
    if output.succeeded() {
        VerdictView::Fail(EntryFailedView::ShouldNotCompile)
    } else {
        reconciled_diagnostics(
            source,
            seq![normalized(unify_newlines(utf8_lossy(output.stderr@)))],
            expectation,
            mode,
        )
    }
}

/// How a run-match entry ends whose run has the fingerprint `actual`:
/// `source` is the path of its source file, `rendered` the fingerprint as
/// it would be stored, `expectation` what was found at its `.snapshot`
/// file.
pub open spec fn checked_run_match(
    source: Seq<char>,
    actual: LocalOutputView,
    rendered: Seq<char>,
    expectation: ExpectationView<LocalOutputView>,
    mode: Update,
) -> VerdictView {
    let path = with_extension(source, SNAPSHOT@);
    match expectation {
        ExpectationView::Missing => VerdictView::Write(write_plan(mode, path, rendered)),
        ExpectationView::Unreadable(reason) => VerdictView::Fail(
            EntryFailedView::Error(EntryErrorView::ReadExpected(reason)),
        ),
        ExpectationView::Found(expected) => {
            if same_output(actual, expected) {
                VerdictView::Pass
            } else {
                match mode {
                    Update::Wip => VerdictView::Fail(
                        EntryFailedView::RunMismatch(SingleMismatch { expected, actual }),
                    ),
                    Update::Overwrite => VerdictView::Write(
                        WritePlanView::Direct { path, content: rendered },
                    ),
                }
            }
        },
    }
}

/// How an entry ends that was built with the outcome `build`, as far as
/// the build alone decides it: a run-match entry whose build failed ends
/// with the compiler's own words.
pub open spec fn build_failure(run: bool, build: ExecutionOutcome) -> Option<EntryFailedView> {
    if run && !build.succeeded() {
        Some(EntryFailedView::ShouldCompile(utf8_lossy(build.stderr@)))
    } else {
        None
    }
}

/// The view of an optional failure.
pub open spec fn failure_view(failure: Option<EntryFailed>) -> Option<EntryFailedView> {
    match failure {
        None => None,
        Some(reason) => Some(reason@),
    }
}

/// The file that a plan writes.
pub open spec fn planned_path(plan: WritePlanView) -> Seq<char> {
    match plan {
        WritePlanView::Staged { path, .. } => path,
        WritePlanView::Direct { path, .. } => path,
    }
}

/// What is found at the committed expectation `path` once `verdict` has
/// been acted on: where the verdict has that very file written, what is
/// read back from it, which is `read_back`; else what was there before.
pub open spec fn found_after<V>(
    path: Seq<char>,
    before: ExpectationView<V>,
    verdict: VerdictView,
    read_back: V,
) -> ExpectationView<V> {
    match verdict {
        VerdictView::Write(plan) => if planned_path(plan) == path {
            ExpectationView::Found(read_back)
        } else {
            before
        },
        _ => before,
    }
}

/// Writing an expectation is never a pass: once the file is written, the
/// entry fails, and the failure carries what was written.
pub proof fn lemma_write_is_reported(plan: WritePlanView)
    ensures
        concluded(plan, WriteOutcomeView::Written) matches EntryFailedView::ExpectedNotExist(
            written,
        ) && match written {
            NoExpectedView::ToWip(content) => plan is Staged && content == planned_content(plan),
            NoExpectedView::Direct(content) => plan is Direct && content == planned_content(plan),
        },
{
}

/// A missing expectation leads to a write, under either mode and for both
/// kinds of entry: staged under `Update::Wip`, over the committed file
/// under `Update::Overwrite`.
pub proof fn lemma_missing_expectation_is_written(
    source: Seq<char>,
    output: ExecutionOutcome,
    actual: LocalOutputView,
    rendered: Seq<char>,
    mode: Update,
)
    requires
        !output.succeeded(),
    ensures
        checked_compile_fail(source, output, ExpectationView::Missing, mode) == VerdictView::Write(
            write_plan(
                mode,
                with_extension(source, STDERR@),
                normalized(unify_newlines(utf8_lossy(output.stderr@))),
            ),
        ),
        checked_run_match(source, actual, rendered, ExpectationView::Missing, mode)
            == VerdictView::Write(write_plan(mode, with_extension(source, SNAPSHOT@), rendered)),
{
    let variations = seq![normalized(unify_newlines(utf8_lossy(output.stderr@)))];
    assert(variations.last() == variations[0]);
}

/// A compile-fail entry that compiles fails for that reason, whatever the
/// mode and whatever its expectation holds.
pub proof fn lemma_unexpected_success_fails(
    source: Seq<char>,
    output: ExecutionOutcome,
    expectation: ExpectationView<Seq<char>>,
    mode: Update,
)
    requires
        output.succeeded(),
    ensures
        checked_compile_fail(source, output, expectation, mode) == VerdictView::Fail(
            EntryFailedView::ShouldNotCompile,
        ),
{
}

/// Under `Update::Wip`, a compile-fail entry whose expectation is there
/// and matches passes and has nothing written; a second run finds what the
/// first found and ends as the first did.
pub proof fn lemma_wip_diagnostics_rerun(
    source: Seq<char>,
    variations: Seq<Seq<char>>,
    raw: Seq<char>,
)
    requires
        variations.len() > 0,
        any_matches(unify_newlines(raw), variations),
    ensures
        ({
            let found = ExpectationView::Found(raw);
            let first = reconciled_diagnostics(source, variations, found, Update::Wip);
            let then = found_after(with_extension(source, STDERR@), found, first, raw);
            &&& first == VerdictView::Pass
            &&& then == found
            &&& reconciled_diagnostics(source, variations, then, Update::Wip) == first
        }),
{
}

/// Under `Update::Wip`, a run-match entry whose snapshot is there and
/// matches passes and has nothing written; a second run finds what the
/// first found and ends as the first did.
pub proof fn lemma_wip_run_rerun(
    source: Seq<char>,
    actual: LocalOutputView,
    rendered: Seq<char>,
    expected: LocalOutputView,
)
    requires
        same_output(actual, expected),
    ensures
        ({
            let found = ExpectationView::Found(expected);
            let first = checked_run_match(source, actual, rendered, found, Update::Wip);
            let then = found_after(with_extension(source, SNAPSHOT@), found, first, expected);
            &&& first == VerdictView::Pass
            &&& then == found
            &&& checked_run_match(source, actual, rendered, then, Update::Wip) == first
        }),
{
}

/// A snapshot that was written under `Update::Overwrite` matches when the
/// entry is run again: with the snapshot missing or different, the first
/// run has the rendering of the actual fingerprint written over it; the
/// second run reads that fingerprint back, passes under either mode, and
/// has nothing written.
pub proof fn lemma_overwrite_round_trip(
    source: Seq<char>,
    actual: LocalOutputView,
    rendered: Seq<char>,
    before: ExpectationView<LocalOutputView>,
    second_mode: Update,
)
    requires
        before is Missing || (before matches ExpectationView::Found(expected) && !same_output(
            actual,
            expected,
        )),
    ensures
        ({
            let path = with_extension(source, SNAPSHOT@);
            let first = checked_run_match(source, actual, rendered, before, Update::Overwrite);
            let then = found_after(path, before, first, actual);
            &&& first == VerdictView::Write(WritePlanView::Direct { path, content: rendered })
            &&& then == ExpectationView::Found(actual)
            &&& checked_run_match(source, actual, rendered, then, second_mode) == VerdictView::Pass
        }),
{
}

/// The plan to write `content` as the expectation kept at `path`.
pub fn plan_write(mode: Update, path: String, content: String) -> (r: WritePlan)
    requires
        mode is Wip ==> file_name(path@) is Some,
    ensures
        r@ == write_plan(mode, path@, content@),
{
    match mode {
        Update::Wip => {
            match stage(path.as_str()) {
                Some(staged) => WritePlan::Staged { path: staged, target: path, content },
                None => WritePlan::Direct { path, content },
            }
        },
        Update::Overwrite => WritePlan::Direct { path, content },
    }
}

/// The plan to stage `content` for review as the expectation kept at
/// `path`.
pub fn write_wip(path: &str, content: &str) -> (r: WritePlan)
    requires
        file_name(path@) is Some,
    ensures
        r@ == write_plan(Update::Wip, path@, content@),
{
    plan_write(Update::Wip, path.to_owned(), content.to_owned())
}

/// The plan to write `content` over the committed expectation at `path`.
pub fn write_overwrite(path: &str, content: &str) -> (r: WritePlan)
    ensures
        r@ == write_plan(Update::Overwrite, path@, content@),
{
    plan_write(Update::Overwrite, path.to_owned(), content.to_owned())
}

impl WritePlan {
    /// The file that is written.
    pub fn path(&self) -> (r: &str)
        ensures
            self@ matches WritePlanView::Staged { path, .. } ==> r@ == path,
            self@ matches WritePlanView::Direct { path, .. } ==> r@ == path,
    {
        match self {
            WritePlan::Staged { path, .. } => path.as_str(),
            WritePlan::Direct { path, .. } => path.as_str(),
        }
    }

    /// What is written to it.
    pub fn content(&self) -> (r: &str)
        ensures
            r@ == planned_content(self@),
    {
        match self {
            WritePlan::Staged { content, .. } => content.as_str(),
            WritePlan::Direct { content, .. } => content.as_str(),
        }
    }

    /// Whether the file is staged for review.
    pub fn is_staged(&self) -> (r: bool)
        ensures
            r == (self@ is Staged),
    {
        match self {
            WritePlan::Staged { .. } => true,
            WritePlan::Direct { .. } => false,
        }
    }

    /// The file operations that carry out the plan, in their order.
    pub fn steps(&self) -> (r: Vec<FileStep>)
        ensures
            step_views(r@) == planned_steps(self@),
    {
        let mut steps: Vec<FileStep> = Vec::new();
        match self {
            WritePlan::Staged { path, content, .. } => {
                steps.push(FileStep::MakeDir { path: WIP_DIR.to_owned() });
                steps.push(
                    FileStep::Write { path: IGNORE_FILE.to_owned(), content: IGNORE_ALL.to_owned() },
                );
                steps.push(FileStep::Write { path: path.clone(), content: content.clone() });
            },
            WritePlan::Direct { path, content } => {
                steps.push(FileStep::Write { path: path.clone(), content: content.clone() });
            },
        }
        proof {
            assert(step_views(steps@) =~= planned_steps(self@));
        }
        steps
    }

    /// How carrying out the plan went, where `failed` names the operation
    /// that failed, counted from zero, with the reason.
    pub fn outcome(&self, failed: Option<(usize, String)>) -> (r: WriteOutcome)
        ensures
            r@ == outcome_of(self@, failed_view(failed)),
    {
        let count: usize = match self {
            WritePlan::Staged { .. } => 3,
            WritePlan::Direct { .. } => 1,
        };
        match failed {
            None => WriteOutcome::Written,
            Some((index, reason)) => {
                if index < count - 1 {
                    WriteOutcome::SetupFailed(reason)
                } else {
                    WriteOutcome::WriteFailed(reason)
                }
            },
        }
    }

    /// How the entry ends once this plan has been carried out with the
    /// given outcome. It never passes: where the file was written, the
    /// failure names what was written and where.
    pub fn conclude(self, outcome: WriteOutcome) -> (r: EntryFailed)
        ensures
            r@ == concluded(self@, outcome@),
    {
        match outcome {
            WriteOutcome::Written => match self {
                WritePlan::Staged { content, .. } => EntryFailed::ExpectedNotExist(
                    NoExpected::ToWip(content),
                ),
                WritePlan::Direct { content, .. } => EntryFailed::ExpectedNotExist(
                    NoExpected::Direct(content),
                ),
            },
            WriteOutcome::SetupFailed(reason) => EntryFailed::Error(EntryError::Io(reason)),
            WriteOutcome::WriteFailed(reason) => EntryFailed::Error(
                EntryError::WriteExpected(reason),
            ),
        }
    }
}

/// `text` with its line ends unified.
pub fn unify_line_ends(text: &str) -> (r: String)
    ensures
        r@ == unify_newlines(text@),
{
    string_of(&replace_crlf(&chars_of(text)))
}

/// Reconciles the diagnostics of a compile-fail entry, given by their
/// variations, with what was found at its `.stderr` file.
pub fn reconcile_diagnostics(
    path: &str,
    variations: &Variations,
    expectation: Expectation<String>,
    update_mode: Update,
) -> (r: Verdict)
    requires
        expectation is Missing && update_mode is Wip ==> file_name(
            with_extension(path@, STDERR@),
        ) is Some,
    ensures
        r@ == reconciled_diagnostics(path@, variations@, expectation@, update_mode),
{
    let stderr_path = replace_extension(path, STDERR);
    let preferred = variations.preferred();
    match expectation {
        Expectation::Missing => Verdict::Write(
            plan_write(update_mode, stderr_path, preferred.to_owned()),
        ),
        Expectation::Unreadable(reason) => Verdict::Fail(
            EntryFailed::Error(EntryError::ReadExpected(reason)),
        ),
        Expectation::Found(raw) => {
            let expected = unify_line_ends(raw.as_str());
            let matcher = |stderr: &str| -> (b: bool)
                ensures
                    b == same_text(expected@, stderr@),
                { match_with_backslashes(expected.as_str(), stderr) };
            let matched = variations.any(matcher);
            proof {
                if matched {
                    assert(any_matches(expected@, variations@));
                } else {
                    assert(!any_matches(expected@, variations@));
                }
            }
            if matched {
                Verdict::Pass
            } else {
                match update_mode {
                    Update::Wip => Verdict::Fail(
                        EntryFailed::CompileFailMismatch(
                            CompileFailMismatch::new(expected, preferred.to_owned()),
                        ),
                    ),
                    Update::Overwrite => Verdict::Write(
                        plan_write(update_mode, stderr_path, preferred.to_owned()),
                    ),
                }
            }
        },
    }
}

/// Decides how a compile-fail entry ends: `path` is its source file,
/// `output` what building it left behind, `expectation` what was found at
/// its `.stderr` file.
pub fn check_compile_fail(
    path: &str,
    output: &ExecutionOutcome,
    expectation: Expectation<String>,
    update_mode: Update,
) -> (r: Verdict)
    requires
        !output.succeeded() && expectation is Missing && update_mode is Wip ==> file_name(
            with_extension(path@, STDERR@),
        ) is Some,
    ensures
        r@ == checked_compile_fail(path@, *output, expectation@, update_mode),
{
    if output.success() {
        return Verdict::Fail(EntryFailed::ShouldNotCompile);
    }
    let variations = diagnostics(output.stderr.as_slice());
    reconcile_diagnostics(path, &variations, expectation, update_mode)
}

/// Decides how a run-match entry ends: `path` is its source file, `actual`
/// the fingerprint of its run, `rendered` that fingerprint as it is stored
/// in a snapshot, `expectation` what was found at its `.snapshot` file.
pub fn check_run_match(
    path: &str,
    actual: LocalOutput,
    rendered: &str,
    expectation: Expectation<LocalOutput>,
    update_mode: Update,
) -> (r: Verdict)
    requires
        expectation is Missing && update_mode is Wip ==> file_name(
            with_extension(path@, SNAPSHOT@),
        ) is Some,
    ensures
        r@ == checked_run_match(path@, actual@, rendered@, expectation@, update_mode),
{
    let snapshot_path = replace_extension(path, SNAPSHOT);
    match expectation {
        Expectation::Missing => Verdict::Write(
            plan_write(update_mode, snapshot_path, rendered.to_owned()),
        ),
        Expectation::Unreadable(reason) => Verdict::Fail(
            EntryFailed::Error(EntryError::ReadExpected(reason)),
        ),
        Expectation::Found(expected) => {
            if actual.matches(&expected) {
                Verdict::Pass
            } else {
                match update_mode {
                    Update::Wip => Verdict::Fail(
                        EntryFailed::RunMismatch(RunMismatch::new(expected, actual)),
                    ),
                    Update::Overwrite => Verdict::Write(
                        plan_write(update_mode, snapshot_path, rendered.to_owned()),
                    ),
                }
            }
        },
    }
}

/// Whether the build alone settles how the entry ends: a run-match entry
/// (`run` is true) that did not build fails with the compiler's own words.
pub fn check_build(run: bool, build: &ExecutionOutcome) -> (r: Option<EntryFailed>)
    ensures
        failure_view(r) == build_failure(run, *build),
{
    if run && !build.success() {
        Some(EntryFailed::ShouldCompile(decode_lossy(build.stderr.as_slice())))
    } else {
        None
    }
}

} // verus!
