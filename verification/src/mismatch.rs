//! What a process left behind, and how two such records are compared.

use crate::text::{
    chars_of, decode_lossy, lines, replace_crlf, split_lines, string_of, string_texts, texts,
    unify_newlines, utf8_lossy,
};
use vstd::prelude::*;

verus! {

/// What a finished process left behind.
#[derive(Debug, Clone, PartialEq, Eq)]
pub struct ExecutionOutcome {
    /// The exit code; `None` where the process ended without one.
    pub status: Option<i32>,
    /// What it wrote to standard output.
    pub stdout: Vec<u8>,
    /// What it wrote to standard error.
    pub stderr: Vec<u8>,
}

impl ExecutionOutcome {
    /// The process ended with exit code zero.
    pub open spec fn succeeded(&self) -> bool {
        self.status == Some(0i32)
    }

    /// Whether the process ended with exit code zero.
    pub fn success(&self) -> (r: bool)
        ensures
            r == self.succeeded(),
    {
        match self.status {
            Some(code) => code == 0,
            None => false,
        }
    }
}

/// The fingerprint of a run: its exit code and the lines of its two
/// streams.
#[derive(Debug, Clone, PartialEq, Eq)]
pub struct LocalOutput {
    pub status: i32,
    pub stdout: Vec<String>,
    pub stderr: Vec<String>,
}

/// `LocalOutput` over mathematical text.
pub struct LocalOutputView {
    pub status: i32,
    pub stdout: Seq<Seq<char>>,
    pub stderr: Seq<Seq<char>>,
}

impl View for LocalOutput {
    type V = LocalOutputView;

    open spec fn view(&self) -> LocalOutputView {
        LocalOutputView {
            status: self.status,
            stdout: string_texts(self.stdout@),
            stderr: string_texts(self.stderr@),
        }
    }
}

/// The process ended without an exit code, so it has no fingerprint.
#[derive(Debug, Clone, Copy, PartialEq, Eq)]
pub struct NoStatusCode;

/// Slash and backslash, the two characters that separate the parts of a
/// path.
pub open spec fn is_separator(c: char) -> bool {
    c == '/' || c == '\\'
}

/// `s` with every backslash turned into a slash.
pub open spec fn slashed(s: Seq<char>) -> Seq<char> {
    s.map_values(|c: char| if c == '\\' { '/' } else { c })
}

/// The two texts are equal once backslashes are read as slashes.
pub open spec fn same_text(a: Seq<char>, b: Seq<char>) -> bool {
    slashed(a) == slashed(b)
}

/// The two lists of lines have the same length and equal lines, backslashes
/// read as slashes.
pub open spec fn same_lines(a: Seq<Seq<char>>, b: Seq<Seq<char>>) -> bool {
    a.len() == b.len() && forall|i: int| 0 <= i < a.len() ==> same_text(#[trigger] a[i], b[i])
}

/// The two fingerprints agree: the same exit code, and the same lines on
/// both streams, backslashes read as slashes.
pub open spec fn same_output(a: LocalOutputView, b: LocalOutputView) -> bool {
    a.status == b.status && same_lines(a.stdout, b.stdout) && same_lines(a.stderr, b.stderr)
}

/// The lines of the text that `bytes` hold, line ends unified first.
pub open spec fn lines_of_text(text: Seq<char>) -> Seq<Seq<char>> {
    lines(unify_newlines(text))
}

/// The fingerprint of an outcome that has an exit code.
pub open spec fn fingerprint(outcome: ExecutionOutcome) -> LocalOutputView
    recommends
        outcome.status is Some,
{
    LocalOutputView {
        status: outcome.status->0,
        stdout: lines_of_text(utf8_lossy(outcome.stdout@)),
        stderr: lines_of_text(utf8_lossy(outcome.stderr@)),
    }
}

/// Texts are equal, backslashes read as slashes, exactly when they have
/// the same length and at each place hold the same character or two
/// separators.
pub proof fn lemma_same_text_pointwise(a: Seq<char>, b: Seq<char>)
    ensures
        same_text(a, b) <==> (a.len() == b.len() && forall|i: int|
            0 <= i < a.len() ==> a[i] == b[i] || (is_separator(a[i]) && is_separator(b[i]))),
{
    let sa = slashed(a);
    let sb = slashed(b);
    if same_text(a, b) {
        assert(sa.len() == sb.len());
        assert forall|i: int| 0 <= i < a.len() implies a[i] == b[i] || (is_separator(a[i])
            && is_separator(b[i])) by {
            assert(sa[i] == sb[i]);
        }
    }
    if a.len() == b.len() && forall|i: int|
        0 <= i < a.len() ==> a[i] == b[i] || (is_separator(a[i]) && is_separator(b[i])) {
        assert(sa =~= sb);
    }
}

/// Comparison is insensitive to how path separators are written: a text
/// matches every text that differs from it only in showing a slash where
/// it shows a backslash, or the other way round.
pub proof fn lemma_separators_do_not_matter(a: Seq<char>, b: Seq<char>)
    requires
        a.len() == b.len(),
        forall|i: int|
            0 <= i < a.len() ==> a[i] == b[i] || (is_separator(a[i]) && is_separator(b[i])),
    ensures
        same_text(a, b),
{
    lemma_same_text_pointwise(a, b);
}

/// Matching of texts is an equivalence.
pub proof fn lemma_same_text_equivalence(a: Seq<char>, b: Seq<char>, c: Seq<char>)
    ensures
        same_text(a, a),
        same_text(a, b) ==> same_text(b, a),
        same_text(a, b) && same_text(b, c) ==> same_text(a, c),
{
}

/// A fingerprint agrees with itself.
pub proof fn lemma_same_output_reflexive(a: LocalOutputView)
    ensures
        same_output(a, a),
{
}

/// Whether the two texts are equal once backslashes are read as slashes.
pub fn match_with_backslashes(expected: &str, actual: &str) -> (r: bool)
    ensures
        r == same_text(expected@, actual@),
{
    let a = chars_of(expected);
    let b = chars_of(actual);
    proof {
        lemma_same_text_pointwise(a@, b@);
    }
    if a.len() != b.len() {
        return false;
    }
    let mut i: usize = 0;
    while i < a.len()
        invariant
            i <= a.len(),
            a.len() == b.len(),
            a@ == expected@,
            b@ == actual@,
            forall|j: int|
                0 <= j < i ==> a@[j] == b@[j] || (is_separator(a@[j]) && is_separator(b@[j])),
        decreases a.len() - i,
    {
        let x = a[i];
        let y = b[i];
        if !(x == y || ((x == '/' || x == '\\') && (y == '/' || y == '\\'))) {
            proof {
                let k = i as int;
                lemma_same_text_pointwise(a@, b@);
                assert(!(a@[k] == b@[k] || (is_separator(a@[k]) && is_separator(b@[k]))));
            }
            return false;
        }
        i = i + 1;
    }
    proof {
        lemma_same_text_pointwise(a@, b@);
    }
    true
}

/// Whether the two lists of lines agree.
pub fn lines_match(a: &Vec<String>, b: &Vec<String>) -> (r: bool)
    ensures
        r == same_lines(string_texts(a@), string_texts(b@)),
{
    if a.len() != b.len() {
        return false;
    }
    let mut i: usize = 0;
    while i < a.len()
        invariant
            i <= a.len(),
            a.len() == b.len(),
            forall|j: int|
                0 <= j < i ==> same_text(#[trigger] string_texts(a@)[j], string_texts(b@)[j]),
        decreases a.len() - i,
    {
        if !match_with_backslashes(a[i].as_str(), b[i].as_str()) {
            proof {
                assert(!same_text(string_texts(a@)[i as int], string_texts(b@)[i as int]));
            }
            return false;
        }
        i = i + 1;
    }
    true
}

/// The lines of `text`, line ends unified first.
pub fn text_to_lines(text: &str) -> (r: Vec<String>)
    ensures
        string_texts(r@) == lines_of_text(text@),
{
    let unified = replace_crlf(&chars_of(text));
    let ls = split_lines(&unified);
    let mut out: Vec<String> = Vec::new();
    let mut i: usize = 0;
    while i < ls.len()
        invariant
            i <= ls.len(),
            string_texts(out@) == texts(ls@).take(i as int),
        decreases ls.len() - i,
    {
        let line = string_of(&ls[i]);
        out.push(line);
        proof {
            assert(string_texts(out@) =~= texts(ls@).take(i as int).push(ls@[i as int]@));
            assert(texts(ls@).take(i + 1) =~= texts(ls@).take(i as int).push(ls@[i as int]@));
        }
        i = i + 1;
    }
    proof {
        assert(texts(ls@).take(ls.len() as int) =~= texts(ls@));
    }
    out
}

/// The lines of the text that `input` holds.
pub fn bytes_to_lines(input: &[u8]) -> (r: Vec<String>)
    ensures
        string_texts(r@) == lines_of_text(utf8_lossy(input@)),
{
    let text = decode_lossy(input);
    text_to_lines(text.as_str())
}

impl LocalOutput {
    /// A fingerprint made of its three parts.
    pub fn new(status: i32, stdout: Vec<String>, stderr: Vec<String>) -> (r: LocalOutput)
        ensures
            r.status == status,
            r.stdout == stdout,
            r.stderr == stderr,
    {
        LocalOutput { status, stdout, stderr }
    }

    /// The fingerprint of `input`, which exists when the process ended
    /// with an exit code.
    pub fn try_from(input: &ExecutionOutcome) -> (r: Result<LocalOutput, NoStatusCode>)
        ensures
            r is Ok <==> input.status is Some,
            r matches Ok(output) ==> output@ == fingerprint(*input),
    {
        match input.status {
            None => Err(NoStatusCode),
            Some(status) => Ok(
                LocalOutput {
                    status,
                    stdout: bytes_to_lines(input.stdout.as_slice()),
                    stderr: bytes_to_lines(input.stderr.as_slice()),
                },
            ),
        }
    }

    /// Whether this fingerprint agrees with `expected`.
    pub fn matches(&self, expected: &LocalOutput) -> (r: bool)
        ensures
            r == same_output(self@, expected@),
    {
        self.status == expected.status && lines_match(&self.stdout, &expected.stdout)
            && lines_match(&self.stderr, &expected.stderr)
    }

    /// A copy of this fingerprint.
    pub fn duplicate(&self) -> (r: LocalOutput)
        ensures
            r@ == self@,
    {
        LocalOutput {
            status: self.status,
            stdout: copy_lines(&self.stdout),
            stderr: copy_lines(&self.stderr),
        }
    }
}

/// A copy of a list of lines.
pub fn copy_lines(ls: &Vec<String>) -> (r: Vec<String>)
    ensures
        string_texts(r@) == string_texts(ls@),
{
    let mut out: Vec<String> = Vec::new();
    let mut i: usize = 0;
    while i < ls.len()
        invariant
            i <= ls.len(),
            string_texts(out@) == string_texts(ls@).take(i as int),
        decreases ls.len() - i,
    {
        out.push(ls[i].clone());
        proof {
            assert(string_texts(out@) =~= string_texts(ls@).take(i as int).push(ls@[i as int]@));
            assert(string_texts(ls@).take(i + 1) =~= string_texts(ls@).take(i as int).push(
                ls@[i as int]@,
            ));
        }
        i = i + 1;
    }
    proof {
        assert(string_texts(ls@).take(ls.len() as int) =~= string_texts(ls@));
    }
    out
}

/// An expected value beside the one that was found.
#[derive(Debug, Clone, PartialEq, Eq)]
pub struct SingleMismatch<T> {
    pub expected: T,
    pub actual: T,
}

/// Diagnostics that differ from the recorded ones.
#[derive(Debug, Clone, PartialEq, Eq)]
pub struct CompileFailMismatch(pub SingleMismatch<String>);

/// A run whose fingerprint differs from the recorded one.
#[derive(Debug, Clone, PartialEq, Eq)]
pub struct RunMismatch(pub SingleMismatch<LocalOutput>);

impl View for CompileFailMismatch {
    type V = SingleMismatch<Seq<char>>;

    open spec fn view(&self) -> SingleMismatch<Seq<char>> {
        SingleMismatch { expected: self.0.expected@, actual: self.0.actual@ }
    }
}

impl View for RunMismatch {
    type V = SingleMismatch<LocalOutputView>;

    open spec fn view(&self) -> SingleMismatch<LocalOutputView> {
        SingleMismatch { expected: self.0.expected@, actual: self.0.actual@ }
    }
}

impl RunMismatch {
    /// The record of a run that gave `actual` where `expected` was
    /// recorded.
    pub fn new(expected: LocalOutput, actual: LocalOutput) -> (r: RunMismatch)
        ensures
            r.0.expected == expected,
            r.0.actual == actual,
    {
        RunMismatch(SingleMismatch { expected, actual })
    }
}

impl CompileFailMismatch {
    /// The record of diagnostics `actual` where `expected` was recorded.
    pub fn new(expected: String, actual: String) -> (r: CompileFailMismatch)
        ensures
            r.0.expected == expected,
            r.0.actual == actual,
    {
        CompileFailMismatch(SingleMismatch { expected, actual })
    }
}

} // verus!
