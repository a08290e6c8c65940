//! Entries, and how declared entries are resolved to concrete ones.
//!
//! A declared entry names one source file, or, with a `*` in its path, a
//! pattern. A pattern stands for the files that match it, in the order of
//! their paths, which goes part by part. What goes wrong while a pattern is
//! resolved stays with that entry and does not touch the others.

use crate::error::{EntryError, EntryErrorView, EntryFailed, EntryFailedView};
use crate::paths::{
    lemma_path_le_total, lemma_path_le_transitive, lemma_path_order_is_total, path_le, path_order,
    path_text_le,
};
use crate::text::{chars_of, has_char, string_of, texts};
use vstd::prelude::*;
use vstd::relations::sorted_by;
use vstd::seq_lib::{lemma_sorted_unique, to_multiset_build, to_multiset_insert};

verus! {

/// What is expected of an entry.
#[derive(PartialEq, Eq, Structural, Copy, Clone, Debug)]
pub enum Expected {
    /// It builds, and its run gives the recorded output.
    RunMatch,
    /// It does not compile, and the compiler gives the recorded diagnostics.
    CompileFail,
}

impl Expected {
    /// Whether the entry has to be built into a program that can be run.
    pub fn is_run_pass(&self) -> (r: bool)
        ensures
            r == (*self is RunMatch),
    {
        match self {
            Expected::RunMatch => true,
            Expected::CompileFail => false,
        }
    }
}

/// One test case: a source file, or a pattern for source files, and what is
/// expected of it.
#[derive(Debug, Clone, PartialEq, Eq)]
pub struct Entry {
    path: String,
    expected: Expected,
}

/// `Entry` over mathematical text.
pub struct EntryView {
    pub path: Seq<char>,
    pub expected: Expected,
}

impl View for Entry {
    type V = EntryView;

    closed spec fn view(&self) -> EntryView {
        EntryView { path: self.path@, expected: self.expected }
    }
}

impl Entry {
    /// The entry for `path` with the expectation `expected`.
    pub fn new(path: &str, expected: Expected) -> (r: Entry)
        ensures
            r@ == (EntryView { path: path@, expected }),
    {
        Entry { path: path.to_owned(), expected }
    }

    /// The path of the source file, or the pattern.
    pub fn path(&self) -> (r: &str)
        ensures
            r@ == self@.path,
    {
        self.path.as_str()
    }

    /// What is expected of the entry.
    pub fn expected(&self) -> (r: Expected)
        ensures
            r == self@.expected,
    {
        self.expected
    }

    /// A copy of this entry.
    pub fn duplicate(&self) -> (r: Entry)
        ensures
            r@ == self@,
    {
        Entry { path: self.path.clone(), expected: self.expected }
    }
}

/// A concrete entry, or a declared entry together with what went wrong
/// when it was resolved.
#[derive(Debug, Clone, PartialEq, Eq)]
pub struct ExpandedEntry {
    raw_entry: Entry,
    error: Option<EntryFailed>,
}

/// `ExpandedEntry` over mathematical text.
pub struct ExpandedEntryView {
    pub entry: EntryView,
    pub error: Option<EntryFailedView>,
}

impl View for ExpandedEntry {
    type V = ExpandedEntryView;

    closed spec fn view(&self) -> ExpandedEntryView {
        ExpandedEntryView {
            entry: self.raw_entry@,
            error: match self.error {
                None => None,
                Some(e) => Some(e@),
            },
        }
    }
}

/// The views of a list of entries.
pub open spec fn entry_views(v: Seq<Entry>) -> Seq<EntryView> {
    v.map_values(|e: Entry| e@)
}

/// The views of a list of resolved entries.
pub open spec fn expanded_views(v: Seq<ExpandedEntry>) -> Seq<ExpandedEntryView> {
    v.map_values(|e: ExpandedEntry| e@)
}

/// What matching a pattern against the file system gave: the reason why
/// the pattern is not well formed, or else, for each place that matched, its
/// path or the reason why it could not be read.
pub type Globbed = Result<Vec<Result<String, String>>, String>;

/// `Globbed` over mathematical text.
pub type GlobbedView = Result<Seq<Result<Seq<char>, Seq<char>>>, Seq<char>>;

/// The view of one match.
pub open spec fn found_view(found: Result<String, String>) -> Result<Seq<char>, Seq<char>> {
    match found {
        Ok(path) => Ok(path@),
        Err(reason) => Err(reason@),
    }
}

/// The view of the outcome of matching a pattern.
pub open spec fn globbed_view(globbed: Globbed) -> GlobbedView {
    match globbed {
        Ok(found) => Ok(found@.map_values(|f: Result<String, String>| found_view(f))),
        Err(reason) => Err(reason@),
    }
}

/// The path is a pattern.
pub open spec fn has_wildcard(path: Seq<char>) -> bool {
    path.contains('*')
}

/// The reason of the first match that could not be read, if there is one.
pub open spec fn first_failure(found: Seq<Result<Seq<char>, Seq<char>>>) -> Option<Seq<char>>
    decreases found.len(),
{
    if found.len() == 0 {
        None
    } else {
        match found[0] {
            Err(reason) => Some(reason),
            Ok(_) => first_failure(found.skip(1)),
        }
    }
}

/// The paths of the matches, in the order in which they were found.
pub open spec fn matched_paths(found: Seq<Result<Seq<char>, Seq<char>>>) -> Seq<Seq<char>> {
    found.map_values(
        |f: Result<Seq<char>, Seq<char>>|
            match f {
                Ok(path) => path,
                Err(_) => Seq::empty(),
            },
    )
}

/// `paths` in the order of paths: part by part, each part by its
/// characters.
pub open spec fn sorted_paths(paths: Seq<Seq<char>>) -> Seq<Seq<char>> {
    paths.sort_by(path_order())
}

/// A declared entry that could not be resolved.
pub open spec fn unresolved(entry: EntryView, reason: EntryErrorView) -> ExpandedEntryView {
    ExpandedEntryView { entry, error: Some(EntryFailedView::Error(reason)) }
}

/// The concrete entry for `path`, with the given expectation.
pub open spec fn concrete(path: Seq<char>, expected: Expected) -> ExpandedEntryView {
    ExpandedEntryView { entry: EntryView { path, expected }, error: None }
}

/// What a declared entry resolves to, where `globbed` is what matching its
/// path as a pattern gave. An entry that is no pattern stands for itself. A
/// pattern that is not well formed, or a match that could not be read,
/// leaves the declared entry with that error. Otherwise there is one entry
/// for each match, in the order of paths, with the expectation of the
/// declared entry.
pub open spec fn resolved(entry: EntryView, globbed: GlobbedView) -> Seq<ExpandedEntryView> {
    if !has_wildcard(entry.path) {
        seq![ExpandedEntryView { entry, error: None }]
    } else {
        match globbed {
            Err(reason) => seq![unresolved(entry, EntryErrorView::Pattern(reason))],
            Ok(found) => match first_failure(found) {
                Some(reason) => seq![unresolved(entry, EntryErrorView::Glob(reason))],
                None => sorted_paths(matched_paths(found)).map_values(
                    |path: Seq<char>| concrete(path, entry.expected),
                ),
            },
        }
    }
}

/// What a list of declared entries resolves to: the resolutions of its
/// entries, one after the other.
pub open spec fn expansion(tests: Seq<EntryView>, outcomes: Seq<GlobbedView>) -> Seq<
    ExpandedEntryView,
>
    decreases tests.len(),
{
    if tests.len() == 0 {
        Seq::empty()
    } else {
        expansion(tests.drop_last(), outcomes.drop_last()) + resolved(
            tests.last(),
            outcomes.last(),
        )
    }
}

/// An entry without `*` in its path resolves to exactly itself, whatever
/// the file system holds.
pub proof fn lemma_plain_entry_resolves_to_itself(entry: EntryView, globbed: GlobbedView)
    requires
        !has_wildcard(entry.path),
    ensures
        resolved(entry, globbed) == seq![ExpandedEntryView { entry, error: None }],
{
}

/// Declared entries without `*` in their paths resolve to exactly
/// themselves, in their order, whatever the file system holds.
pub proof fn lemma_plain_entries_resolve_to_themselves(
    tests: Seq<EntryView>,
    outcomes: Seq<GlobbedView>,
)
    requires
        forall|i: int| 0 <= i < tests.len() ==> !has_wildcard(#[trigger] tests[i].path),
    ensures
        expansion(tests, outcomes) == tests.map_values(
            |entry: EntryView| ExpandedEntryView { entry, error: None },
        ),
    decreases tests.len(),
{
    let target = tests.map_values(|entry: EntryView| ExpandedEntryView { entry, error: None });
    if tests.len() == 0 {
        assert(expansion(tests, outcomes) =~= target);
    } else {
        let front = tests.drop_last();
        assert forall|i: int| 0 <= i < front.len() implies !has_wildcard(
            #[trigger] front[i].path,
        ) by {
            assert(front[i] == tests[i]);
        }
        lemma_plain_entries_resolve_to_themselves(front, outcomes.drop_last());
        assert(!has_wildcard(tests[tests.len() - 1].path));
        assert(expansion(tests, outcomes) =~= target);
    }
}

/// The entries that a pattern resolves to are in the order of their paths,
/// part by part, and there is one for each match.
pub proof fn lemma_resolved_in_order(entry: EntryView, found: Seq<Result<Seq<char>, Seq<char>>>)
    requires
        has_wildcard(entry.path),
        first_failure(found) is None,
    ensures
        resolved(entry, Ok(found)).len() == found.len(),
        forall|i: int, j: int|
            0 <= i < j < found.len() ==> path_le(
                #[trigger] resolved(entry, Ok(found))[i].entry.path,
                #[trigger] resolved(entry, Ok(found))[j].entry.path,
            ),
        forall|i: int|
            0 <= i < found.len() ==> (#[trigger] resolved(entry, Ok(found))[i]).error is None
                && resolved(entry, Ok(found))[i].entry.expected == entry.expected,
{
    let paths = matched_paths(found);
    let sorted = sorted_paths(paths);
    lemma_path_order_is_total();
    paths.lemma_sort_by_ensures(path_order());
    broadcast use vstd::seq_lib::group_to_multiset_ensures;

    assert(sorted.len() == paths.len()) by {
        assert(sorted.to_multiset().len() == paths.to_multiset().len());
    }
    let r = resolved(entry, Ok(found));
    assert forall|i: int, j: int| 0 <= i < j < found.len() implies path_le(
        #[trigger] r[i].entry.path,
        #[trigger] r[j].entry.path,
    ) by {
        assert(path_order()(sorted[i], sorted[j]));
    }
}

/// Where the matches of a pattern are distinct paths, the entries that it
/// resolves to are in strictly rising order: each path comes before the
/// next and differs from it.
pub proof fn lemma_distinct_matches_rise(
    entry: EntryView,
    found: Seq<Result<Seq<char>, Seq<char>>>,
)
    requires
        has_wildcard(entry.path),
        first_failure(found) is None,
        matched_paths(found).no_duplicates(),
    ensures
        forall|i: int, j: int|
            0 <= i < j < resolved(entry, Ok(found)).len() ==> {
                &&& path_le(
                    #[trigger] resolved(entry, Ok(found))[i].entry.path,
                    #[trigger] resolved(entry, Ok(found))[j].entry.path,
                )
                &&& resolved(entry, Ok(found))[i].entry.path != resolved(
                    entry,
                    Ok(found),
                )[j].entry.path
            },
{
    let paths = matched_paths(found);
    let sorted = sorted_paths(paths);
    lemma_resolved_in_order(entry, found);
    lemma_path_order_is_total();
    paths.lemma_sort_by_ensures(path_order());
    paths.lemma_multiset_has_no_duplicates();
    sorted.lemma_multiset_has_no_duplicates_conv();
    let r = resolved(entry, Ok(found));
    assert forall|i: int, j: int| 0 <= i < j < r.len() implies (#[trigger] r[i]).entry.path != (
    #[trigger] r[j]).entry.path by {
        assert(sorted[i] != sorted[j]);
    }
}

/// Resolution does not depend on the order in which the file system lists
/// the matches: two listings of the same paths resolve to the same entries.
pub proof fn lemma_resolved_is_deterministic(
    entry: EntryView,
    first: Seq<Result<Seq<char>, Seq<char>>>,
    second: Seq<Result<Seq<char>, Seq<char>>>,
)
    requires
        first_failure(first) is None,
        first_failure(second) is None,
        matched_paths(first).to_multiset() == matched_paths(second).to_multiset(),
    ensures
        resolved(entry, Ok(first)) == resolved(entry, Ok(second)),
{
    let a = sorted_paths(matched_paths(first));
    let b = sorted_paths(matched_paths(second));
    lemma_path_order_is_total();
    matched_paths(first).lemma_sort_by_ensures(path_order());
    matched_paths(second).lemma_sort_by_ensures(path_order());
    lemma_sorted_unique(a, b, path_order());
}

/// Where there is no declared entry, or every declared entry is a pattern
/// that matches nothing, nothing is resolved.
pub proof fn lemma_nothing_matches_nothing(tests: Seq<EntryView>, outcomes: Seq<GlobbedView>)
    requires
        outcomes.len() == tests.len(),
        forall|i: int|
            0 <= i < tests.len() ==> has_wildcard(#[trigger] tests[i].path) && outcomes[i] == Ok::<
                Seq<Result<Seq<char>, Seq<char>>>,
                Seq<char>,
            >(Seq::empty()),
    ensures
        expansion(tests, outcomes).len() == 0,
    decreases tests.len(),
{
    if tests.len() > 0 {
        let front = tests.drop_last();
        let before = outcomes.drop_last();
        assert(before.len() == front.len());
        assert forall|i: int| 0 <= i < front.len() implies has_wildcard(#[trigger] front[i].path)
            && before[i] == Ok::<Seq<Result<Seq<char>, Seq<char>>>, Seq<char>>(Seq::empty()) by {
            assert(front[i] == tests[i]);
            assert(before[i] == outcomes[i]);
            assert(has_wildcard(tests[i].path));
        }
        lemma_nothing_matches_nothing(front, before);
        let none = Seq::<Result<Seq<char>, Seq<char>>>::empty();
        assert(has_wildcard(tests[tests.len() - 1].path));
        assert(outcomes.last() == Ok::<Seq<Result<Seq<char>, Seq<char>>>, Seq<char>>(none));
        assert(matched_paths(none) =~= Seq::<Seq<char>>::empty());
        lemma_path_order_is_total();
        matched_paths(none).lemma_sort_by_ensures(path_order());
        broadcast use vstd::seq_lib::group_to_multiset_ensures;

        assert(sorted_paths(matched_paths(none)).to_multiset().len() == 0);
        assert(resolved(tests.last(), outcomes.last()).len() == 0);
    }
}

/// `glob::glob`, with what it yields collected: the paths that match
/// `pattern` in the file system, or for a match the text of the error that
/// kept it from being read, or the text of the error that says why the
/// pattern is not well formed. What comes back depends on the files that are
/// there, so nothing is claimed of it.
#[verifier::external_body]
fn glob_paths(pattern: &str) -> (r: Globbed) {
    let paths = glob::glob(pattern).map_err(|e| e.to_string())?;
    Ok(paths.map(|found| found.map(|p| p.to_string_lossy().into_owned()).map_err(|e| e.to_string())).collect())
}

/// `paths` in the order of paths.
pub fn sort_paths(paths: Vec<Vec<char>>) -> (out: Vec<Vec<char>>)
    ensures
        texts(out@) == sorted_paths(texts(paths@)),
{
    let ghost all = texts(paths@);
    let mut rest = paths;
    let mut out: Vec<Vec<char>> = Vec::new();
    proof {
        assert(texts(out@) =~= Seq::<Seq<char>>::empty());
        broadcast use vstd::multiset::group_multiset_axioms;
        broadcast use vstd::seq_lib::group_to_multiset_ensures;

        assert(texts(out@).to_multiset().add(texts(rest@).to_multiset()) =~= all.to_multiset());
    }
    while rest.len() > 0
        invariant
            sorted_by(texts(out@), path_order()),
            texts(out@).to_multiset().add(texts(rest@).to_multiset()) == all.to_multiset(),
        decreases rest.len(),
    {
        let ghost rest_before = texts(rest@);
        let ghost out_before = texts(out@);
        let x = rest.pop().unwrap();
        let mut j: usize = 0;
        while j < out.len() && path_text_le(&out[j], &x)
            invariant
                j <= out.len(),
                forall|k: int| 0 <= k < j ==> path_le(#[trigger] texts(out@)[k], x@),
            decreases out.len() - j,
        {
            j = j + 1;
        }
        out.insert(j, x);
        proof {
            broadcast use vstd::multiset::group_multiset_axioms;

            let after = texts(out@);
            assert(after =~= out_before.insert(j as int, x@));
            assert(rest_before =~= texts(rest@).push(x@));
            to_multiset_insert(out_before, j as int, x@);
            to_multiset_build(texts(rest@), x@);
            assert(after.to_multiset().add(texts(rest@).to_multiset()) =~= all.to_multiset());
            assert forall|a: int, b: int| 0 <= a < b < after.len() implies #[trigger] path_order()(
                after[a],
                after[b],
            ) by {
                if b < j {
                    assert(path_order()(out_before[a], out_before[b]));
                } else if b == j {
                    assert(path_le(out_before[a], x@));
                } else if a == j {
                    assert(!path_le(out_before[j as int], x@));
                    lemma_path_le_total(out_before[j as int], x@);
                    if b - 1 > j {
                        assert(path_order()(out_before[j as int], out_before[b - 1]));
                        lemma_path_le_transitive(x@, out_before[j as int], out_before[b - 1]);
                    }
                } else if a < j {
                    assert(path_order()(out_before[a], out_before[b - 1]));
                } else {
                    assert(path_order()(out_before[a - 1], out_before[b - 1]));
                }
            }
        }
    }
    proof {
        broadcast use vstd::multiset::group_multiset_axioms;
        broadcast use vstd::seq_lib::group_to_multiset_ensures;

        assert(texts(rest@) =~= Seq::<Seq<char>>::empty());
        assert(texts(out@).to_multiset() =~= all.to_multiset());
        lemma_path_order_is_total();
        all.lemma_sort_by_ensures(path_order());
        lemma_sorted_unique(texts(out@), sorted_paths(all), path_order());
    }
    out
}

/// Whether `path` is a pattern.
pub fn is_pattern(path: &str) -> (r: bool)
    ensures
        r == has_wildcard(path@),
{
    has_char(&chars_of(path), '*')
}

/// The declared entry `entry` with the error `reason`.
fn fail_to_resolve(entry: &Entry, reason: EntryError) -> (r: Vec<ExpandedEntry>)
    ensures
        expanded_views(r@) == seq![unresolved(entry@, reason@)],
{
    let mut out: Vec<ExpandedEntry> = Vec::new();
    out.push(ExpandedEntry { raw_entry: entry.duplicate(), error: Some(EntryFailed::Error(reason)) });
    proof {
        assert(expanded_views(out@) =~= seq![unresolved(entry@, reason@)]);
    }
    out
}

/// What `entry` resolves to, where `globbed` is what matching its path as
/// a pattern gave.
pub fn resolve_entry(entry: &Entry, globbed: Globbed) -> (r: Vec<ExpandedEntry>)
    ensures
        expanded_views(r@) == resolved(entry@, globbed_view(globbed)),
{
    if !is_pattern(entry.path()) {
        let mut out: Vec<ExpandedEntry> = Vec::new();
        out.push(ExpandedEntry { raw_entry: entry.duplicate(), error: None });
        proof {
            assert(expanded_views(out@) =~= seq![ExpandedEntryView { entry: entry@, error: None }]);
        }
        return out;
    }
    match globbed {
        Err(reason) => fail_to_resolve(entry, EntryError::Pattern(reason)),
        Ok(found) => {
            let ghost found_seq = found@.map_values(|f: Result<String, String>| found_view(f));
            let mut paths: Vec<Vec<char>> = Vec::new();
            let mut i: usize = 0;
            proof {
                assert(found_seq.skip(0) =~= found_seq);
                assert(texts(paths@) =~= matched_paths(found_seq).take(0));
            }
            while i < found.len()
                invariant
                    i <= found.len(),
                    found_seq == found@.map_values(|f: Result<String, String>| found_view(f)),
                    first_failure(found_seq) == first_failure(found_seq.skip(i as int)),
                    texts(paths@) == matched_paths(found_seq).take(i as int),
                    globbed_view(globbed) == Ok::<Seq<Result<Seq<char>, Seq<char>>>, Seq<char>>(
                        found_seq,
                    ),
                    has_wildcard(entry@.path),
                decreases found.len() - i,
            {
                let ghost rest = found_seq.skip(i as int);
                proof {
                    assert(rest[0] == found_view(found@[i as int]));
                    assert(rest.skip(1) =~= found_seq.skip(i + 1));
                }
                match &found[i] {
                    Err(reason) => {
                        return fail_to_resolve(entry, EntryError::Glob(reason.clone()));
                    },
                    Ok(path) => {
                        let chars = chars_of(path.as_str());
                        paths.push(chars);
                        proof {
                            assert(texts(paths@) =~= matched_paths(found_seq).take(i as int).push(
                                path@,
                            ));
                            assert(matched_paths(found_seq).take(i + 1) =~= matched_paths(
                                found_seq,
                            ).take(i as int).push(path@));
                        }
                    },
                }
                i = i + 1;
            }
            proof {
                assert(matched_paths(found_seq).take(found.len() as int) =~= matched_paths(
                    found_seq,
                ));
            }
            let sorted = sort_paths(paths);
            let mut out: Vec<ExpandedEntry> = Vec::new();
            let mut k: usize = 0;
            let ghost target = texts(sorted@).map_values(
                |path: Seq<char>| concrete(path, entry@.expected),
            );
            while k < sorted.len()
                invariant
                    k <= sorted.len(),
                    target == texts(sorted@).map_values(
                        |path: Seq<char>| concrete(path, entry@.expected),
                    ),
                    expanded_views(out@) == target.take(k as int),
                decreases sorted.len() - k,
            {
                let path = string_of(&sorted[k]);
                out.push(
                    ExpandedEntry {
                        raw_entry: Entry { path, expected: entry.expected() },
                        error: None,
                    },
                );
                proof {
                    assert(expanded_views(out@) =~= target.take(k as int).push(target[k as int]));
                    assert(target.take(k + 1) =~= target.take(k as int).push(target[k as int]));
                }
                k = k + 1;
            }
            proof {
                assert(target.take(sorted.len() as int) =~= target);
            }
            out
        },
    }
}

/// Resolves the declared entries `tests`, in their order. The path of
/// each entry that is a pattern is matched against the file system.
pub fn expand_globs(tests: &Vec<Entry>) -> (r: Vec<ExpandedEntry>)
    ensures
        exists|outcomes: Seq<GlobbedView>|
            outcomes.len() == tests.len() && expanded_views(r@) == #[trigger] expansion(
                entry_views(tests@),
                outcomes,
            ),
{
    let mut out: Vec<ExpandedEntry> = Vec::new();
    let ghost mut outcomes: Seq<GlobbedView> = Seq::empty();
    let mut i: usize = 0;
    proof {
        assert(expanded_views(out@) =~= expansion(entry_views(tests@).take(0), outcomes));
    }
    while i < tests.len()
        invariant
            i <= tests.len(),
            outcomes.len() == i,
            expanded_views(out@) == expansion(entry_views(tests@).take(i as int), outcomes),
        decreases tests.len() - i,
    {
        let entry = &tests[i];
        let globbed: Globbed = if is_pattern(entry.path()) {
            glob_paths(entry.path())
        } else {
            Ok(Vec::new())
        };
        let ghost outcome = globbed_view(globbed);
        let ghost before = expanded_views(out@);
        let mut found = resolve_entry(entry, globbed);
        let ghost added = expanded_views(found@);
        out.append(&mut found);
        proof {
            let upto = entry_views(tests@).take(i + 1);
            let next = outcomes.push(outcome);
            assert(upto.drop_last() =~= entry_views(tests@).take(i as int));
            assert(upto.last() == tests@[i as int]@);
            assert(next.drop_last() =~= outcomes);
            assert(next.last() == outcome);
            assert(expanded_views(out@) =~= before + added);
            outcomes = next;
        }
        i = i + 1;
    }
    proof {
        assert(entry_views(tests@).take(tests.len() as int) =~= entry_views(tests@));
    }
    out
}

impl ExpandedEntry {
    /// The path of the entry.
    pub fn path(&self) -> (r: &str)
        ensures
            r@ == self@.entry.path,
    {
        self.raw_entry.path()
    }

    /// What is expected of the entry.
    pub fn expected(&self) -> (r: Expected)
        ensures
            r == self@.entry.expected,
    {
        self.raw_entry.expected()
    }

    /// What went wrong when the entry was resolved, if anything did.
    pub fn failure(&self) -> (r: Option<&EntryFailed>)
        ensures
            r is Some <==> self@.error is Some,
            r matches Some(reason) ==> self@.error == Some(reason@),
    {
        match &self.error {
            None => None,
            Some(reason) => Some(reason),
        }
    }

    /// The entry, without what went wrong when it was resolved.
    pub fn entry(&self) -> (r: &Entry)
        ensures
            r@ == self@.entry,
    {
        &self.raw_entry
    }

    /// The entry, or what went wrong when it was resolved.
    pub fn run(self) -> (r: Result<Entry, EntryFailed>)
        ensures
            match r {
                Ok(entry) => self@.error is None && entry@ == self@.entry,
                Err(reason) => self@.error == Some(reason@),
            },
    {
        match self.error {
            None => Ok(self.raw_entry),
            Some(reason) => Err(reason),
        }
    }
}

} // verus!
