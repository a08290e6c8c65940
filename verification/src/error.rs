//! What can go wrong: for a whole batch, and for one entry.

use crate::config::{ConfigError, ConfigErrorView};
use crate::mismatch::{CompileFailMismatch, LocalOutputView, RunMismatch, SingleMismatch};
use crate::text::join_texts;
use vstd::prelude::*;

verus! {

/// An expectation was written, to one of two places.
#[derive(Debug, Clone, PartialEq, Eq)]
pub enum NoExpected {
    /// The given content was staged in the review directory.
    ToWip(String),
    /// The given content was written over the committed expectation.
    Direct(String),
}

/// What stopped the work on one entry, apart from its own outcome. A text
/// is the description that the operating system or the pattern matcher gave.
#[derive(Debug, Clone, PartialEq, Eq)]
pub enum EntryError {
    /// The compiler could not be started.
    Rustc(String),
    /// The build tool reported an error.
    CargoFail,
    /// A directory could not be read while a pattern was matched.
    Glob(String),
    /// A file operation failed.
    Io(String),
    /// The source file, named first, could not be opened.
    Open(String, String),
    /// The pattern is not well formed.
    Pattern(String),
    /// The expectation could not be read.
    ReadExpected(String),
    /// The built program could not be started.
    RunFailed(String),
    /// The expectation could not be written.
    WriteExpected(String),
}

/// Why an entry did not pass.
#[derive(Debug, Clone, PartialEq, Eq)]
pub enum EntryFailed {
    /// It should have compiled; the compiler said what is given.
    ShouldCompile(String),
    /// It should not have compiled, and did.
    ShouldNotCompile,
    /// Its expectation was missing or replaced, and has been written.
    ExpectedNotExist(NoExpected),
    /// The compiler's diagnostics are not the recorded ones.
    CompileFailMismatch(CompileFailMismatch),
    /// The output of the run is not the recorded one.
    RunMismatch(RunMismatch),
    /// The work on it could not be carried out.
    Error(EntryError),
}

/// Why a batch could not run at all.
#[derive(Debug, Clone, PartialEq, Eq)]
pub enum BatchError {
    /// The build tool could not be started.
    Cargo(String),
    /// A setting cannot be used.
    ConfigError(ConfigError),
    /// A file operation failed.
    Io(String),
}

/// Why a log could not be printed.
#[derive(Debug, Clone, PartialEq, Eq)]
pub enum PrintError {
    /// It has been printed before.
    AlreadyPrinted,
    /// Writing it failed.
    Io(String),
}

/// `NoExpected` over mathematical text.
pub enum NoExpectedView {
    ToWip(Seq<char>),
    Direct(Seq<char>),
}

/// `EntryError` over mathematical text.
pub enum EntryErrorView {
    Rustc(Seq<char>),
    CargoFail,
    Glob(Seq<char>),
    Io(Seq<char>),
    Open(Seq<char>, Seq<char>),
    Pattern(Seq<char>),
    ReadExpected(Seq<char>),
    RunFailed(Seq<char>),
    WriteExpected(Seq<char>),
}

/// `EntryFailed` over mathematical text.
pub enum EntryFailedView {
    ShouldCompile(Seq<char>),
    ShouldNotCompile,
    ExpectedNotExist(NoExpectedView),
    CompileFailMismatch(SingleMismatch<Seq<char>>),
    RunMismatch(SingleMismatch<LocalOutputView>),
    Error(EntryErrorView),
}

/// `BatchError` over mathematical text.
pub enum BatchErrorView {
    Cargo(Seq<char>),
    ConfigError(ConfigErrorView),
    Io(Seq<char>),
}

/// `PrintError` over mathematical text.
pub enum PrintErrorView {
    AlreadyPrinted,
    Io(Seq<char>),
}

impl View for NoExpected {
    type V = NoExpectedView;

    open spec fn view(&self) -> NoExpectedView {
        match self {
            NoExpected::ToWip(content) => NoExpectedView::ToWip(content@),
            NoExpected::Direct(content) => NoExpectedView::Direct(content@),
        }
    }
}

impl View for EntryError {
    type V = EntryErrorView;

    open spec fn view(&self) -> EntryErrorView {
        match self {
            EntryError::Rustc(e) => EntryErrorView::Rustc(e@),
            EntryError::CargoFail => EntryErrorView::CargoFail,
            EntryError::Glob(e) => EntryErrorView::Glob(e@),
            EntryError::Io(e) => EntryErrorView::Io(e@),
            EntryError::Open(path, e) => EntryErrorView::Open(path@, e@),
            EntryError::Pattern(e) => EntryErrorView::Pattern(e@),
            EntryError::ReadExpected(e) => EntryErrorView::ReadExpected(e@),
            EntryError::RunFailed(e) => EntryErrorView::RunFailed(e@),
            EntryError::WriteExpected(e) => EntryErrorView::WriteExpected(e@),
        }
    }
}

impl View for EntryFailed {
    type V = EntryFailedView;

    open spec fn view(&self) -> EntryFailedView {
        match self {
            EntryFailed::ShouldCompile(diagnostics) => EntryFailedView::ShouldCompile(
                diagnostics@,
            ),
            EntryFailed::ShouldNotCompile => EntryFailedView::ShouldNotCompile,
            EntryFailed::ExpectedNotExist(written) => EntryFailedView::ExpectedNotExist(written@),
            EntryFailed::CompileFailMismatch(m) => EntryFailedView::CompileFailMismatch(m@),
            EntryFailed::RunMismatch(m) => EntryFailedView::RunMismatch(m@),
            EntryFailed::Error(e) => EntryFailedView::Error(e@),
        }
    }
}

impl View for BatchError {
    type V = BatchErrorView;

    open spec fn view(&self) -> BatchErrorView {
        match self {
            BatchError::Cargo(e) => BatchErrorView::Cargo(e@),
            BatchError::ConfigError(e) => BatchErrorView::ConfigError(e@),
            BatchError::Io(e) => BatchErrorView::Io(e@),
        }
    }
}

impl View for PrintError {
    type V = PrintErrorView;

    open spec fn view(&self) -> PrintErrorView {
        match self {
            PrintError::AlreadyPrinted => PrintErrorView::AlreadyPrinted,
            PrintError::Io(e) => PrintErrorView::Io(e@),
        }
    }
}

/// The message of a `NoExpected`.
pub open spec fn no_expected_text(e: NoExpectedView) -> Seq<char> {
    match e {
        NoExpectedView::ToWip(_) => "Output written to WIP folder"@,
        NoExpectedView::Direct(_) => "Output written directly to snapshot"@,
    }
}

/// The message of a `ConfigError`.
pub open spec fn config_error_text(e: ConfigErrorView) -> Seq<char> {
    match e {
        ConfigErrorView::UpdateEnvVar(value) =>
            "Incorrect value of BATCH_RUN environmental variable: expected either \"Overwrite\" or \"Wip\", got "@
                + value,
    }
}

/// The message of an `EntryError`.
pub open spec fn entry_error_text(e: EntryErrorView) -> Seq<char> {
    match e {
        EntryErrorView::Rustc(e) => "Failed to execute rustc: "@ + e,
        EntryErrorView::CargoFail => "Cargo reported an error"@,
        EntryErrorView::Glob(e) => "Error executing glob: "@ + e,
        EntryErrorView::Io(e) => "General IO error: "@ + e,
        EntryErrorView::Open(path, e) => "Unable to open provided path: "@ + path + ", error: "@
            + e,
        EntryErrorView::Pattern(e) => "Incorrect glob pattern: "@ + e,
        EntryErrorView::ReadExpected(e) => "Error reading snapshot: "@ + e,
        EntryErrorView::RunFailed(e) => "Cannot execute compiled binary: "@ + e,
        EntryErrorView::WriteExpected(e) => "Error writing snapshot: "@ + e,
    }
}

/// The message of an `EntryFailed`.
pub open spec fn entry_failed_text(e: EntryFailedView) -> Seq<char> {
    match e {
        EntryFailedView::ShouldCompile(diagnostics) =>
            "Entry should compile, but compilation failed; error message:\n"@ + diagnostics,
        EntryFailedView::ShouldNotCompile =>
            "Entry should not compile, but it compiled successfully"@,
        EntryFailedView::ExpectedNotExist(written) => "There's no expected output for entry. "@
            + no_expected_text(written),
        EntryFailedView::CompileFailMismatch(_) => "Compiler error mismatch"@,
        EntryFailedView::RunMismatch(_) => "Runtime output mismatch"@,
        EntryFailedView::Error(_) => "Internal error"@,
    }
}

/// The message of a `BatchError`.
pub open spec fn batch_error_text(e: BatchErrorView) -> Seq<char> {
    match e {
        BatchErrorView::Cargo(e) => "Failed to execute cargo: "@ + e,
        BatchErrorView::ConfigError(e) => "Configuration error: "@ + config_error_text(e),
        BatchErrorView::Io(e) => "General IO error: "@ + e,
    }
}

/// The message of a `PrintError`.
pub open spec fn print_error_text(e: PrintErrorView) -> Seq<char> {
    match e {
        PrintErrorView::AlreadyPrinted => "The internal buffer was already printed"@,
        PrintErrorView::Io(e) => "I/O error while printing: "@ + e,
    }
}

impl NoExpected {
    /// A copy of this value.
    pub fn duplicate(&self) -> (r: NoExpected)
        ensures
            r@ == self@,
    {
        match self {
            NoExpected::ToWip(content) => NoExpected::ToWip(content.clone()),
            NoExpected::Direct(content) => NoExpected::Direct(content.clone()),
        }
    }

    /// The content that was written.
    pub fn content(&self) -> (r: &str)
        ensures
            self@ matches NoExpectedView::ToWip(c) ==> r@ == c,
            self@ matches NoExpectedView::Direct(c) ==> r@ == c,
    {
        match self {
            NoExpected::ToWip(content) => content.as_str(),
            NoExpected::Direct(content) => content.as_str(),
        }
    }

    /// What happened, in words.
    pub fn message(&self) -> (r: String)
        ensures
            r@ == no_expected_text(self@),
    {
        match self {
            NoExpected::ToWip(_) => "Output written to WIP folder".to_owned(),
            NoExpected::Direct(_) => "Output written directly to snapshot".to_owned(),
        }
    }
}

impl ConfigError {
    /// What is wrong, in words.
    pub fn message(&self) -> (r: String)
        ensures
            r@ == config_error_text(self@),
    {
        match self {
            ConfigError::UpdateEnvVar(value) => join_texts(
                "Incorrect value of BATCH_RUN environmental variable: expected either \"Overwrite\" or \"Wip\", got ",
                value.as_str(),
            ),
        }
    }
}

impl EntryError {
    /// A copy of this value.
    pub fn duplicate(&self) -> (r: EntryError)
        ensures
            r@ == self@,
    {
        match self {
            EntryError::Rustc(e) => EntryError::Rustc(e.clone()),
            EntryError::CargoFail => EntryError::CargoFail,
            EntryError::Glob(e) => EntryError::Glob(e.clone()),
            EntryError::Io(e) => EntryError::Io(e.clone()),
            EntryError::Open(path, e) => EntryError::Open(path.clone(), e.clone()),
            EntryError::Pattern(e) => EntryError::Pattern(e.clone()),
            EntryError::ReadExpected(e) => EntryError::ReadExpected(e.clone()),
            EntryError::RunFailed(e) => EntryError::RunFailed(e.clone()),
            EntryError::WriteExpected(e) => EntryError::WriteExpected(e.clone()),
        }
    }

    /// What went wrong, in words.
    pub fn message(&self) -> (r: String)
        ensures
            r@ == entry_error_text(self@),
    {
        match self {
            EntryError::Rustc(e) => join_texts("Failed to execute rustc: ", e.as_str()),
            EntryError::CargoFail => "Cargo reported an error".to_owned(),
            EntryError::Glob(e) => join_texts("Error executing glob: ", e.as_str()),
            EntryError::Io(e) => join_texts("General IO error: ", e.as_str()),
            EntryError::Open(path, e) => {
                let mut r = join_texts("Unable to open provided path: ", path.as_str());
                r.append(", error: ");
                r.append(e.as_str());
                r
            },
            EntryError::Pattern(e) => join_texts("Incorrect glob pattern: ", e.as_str()),
            EntryError::ReadExpected(e) => join_texts("Error reading snapshot: ", e.as_str()),
            EntryError::RunFailed(e) => join_texts("Cannot execute compiled binary: ", e.as_str()),
            EntryError::WriteExpected(e) => join_texts("Error writing snapshot: ", e.as_str()),
        }
    }
}

impl EntryFailed {
    /// A copy of this value.
    pub fn duplicate(&self) -> (r: EntryFailed)
        ensures
            r@ == self@,
    {
        match self {
            EntryFailed::ShouldCompile(diagnostics) => EntryFailed::ShouldCompile(
                diagnostics.clone(),
            ),
            EntryFailed::ShouldNotCompile => EntryFailed::ShouldNotCompile,
            EntryFailed::ExpectedNotExist(written) => EntryFailed::ExpectedNotExist(
                written.duplicate(),
            ),
            EntryFailed::CompileFailMismatch(m) => EntryFailed::CompileFailMismatch(
                CompileFailMismatch::new(m.0.expected.clone(), m.0.actual.clone()),
            ),
            EntryFailed::RunMismatch(m) => EntryFailed::RunMismatch(
                RunMismatch::new(m.0.expected.duplicate(), m.0.actual.duplicate()),
            ),
            EntryFailed::Error(e) => EntryFailed::Error(e.duplicate()),
        }
    }

    /// Why the entry did not pass, in words.
    pub fn message(&self) -> (r: String)
        ensures
            r@ == entry_failed_text(self@),
    {
        match self {
            EntryFailed::ShouldCompile(diagnostics) => join_texts(
                "Entry should compile, but compilation failed; error message:\n",
                diagnostics.as_str(),
            ),
            EntryFailed::ShouldNotCompile =>
                "Entry should not compile, but it compiled successfully".to_owned(),
            EntryFailed::ExpectedNotExist(written) => join_texts(
                "There's no expected output for entry. ",
                written.message().as_str(),
            ),
            EntryFailed::CompileFailMismatch(_) => "Compiler error mismatch".to_owned(),
            EntryFailed::RunMismatch(_) => "Runtime output mismatch".to_owned(),
            EntryFailed::Error(_) => "Internal error".to_owned(),
        }
    }
}

impl BatchError {
    /// Why the batch could not run, in words.
    pub fn message(&self) -> (r: String)
        ensures
            r@ == batch_error_text(self@),
    {
        match self {
            BatchError::Cargo(e) => join_texts("Failed to execute cargo: ", e.as_str()),
            BatchError::ConfigError(e) => join_texts("Configuration error: ", e.message().as_str()),
            BatchError::Io(e) => join_texts("General IO error: ", e.as_str()),
        }
    }
}

impl PrintError {
    /// Why the log could not be printed, in words.
    pub fn message(&self) -> (r: String)
        ensures
            r@ == print_error_text(self@),
    {
        match self {
            PrintError::AlreadyPrinted => "The internal buffer was already printed".to_owned(),
            PrintError::Io(e) => join_texts("I/O error while printing: ", e.as_str()),
        }
    }
}

} // verus!
