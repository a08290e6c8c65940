//! The run of a batch: which entry is next, and what the report holds.
//!
//! The entries are worked through one at a time, in the order in which they
//! were resolved. An entry that could not be resolved gets its error as its
//! result without being run; every other entry gets the result that the
//! caller records for it. However one entry ends, the others are still run.

use crate::entry::{
    Entry, entry_views, EntryView, expand_globs, expanded_views, ExpandedEntry, ExpandedEntryView,
    expansion, GlobbedView, has_wildcard, lemma_nothing_matches_nothing,
};
use crate::error::EntryFailedView;
use crate::result::{
    BatchRunResult, BatchRunResultView, EntryOutput, EntryResult, named_views, result_view,
};
use vstd::prelude::*;

verus! {

/// The declared entries of a batch.
#[derive(Debug, Clone, PartialEq, Eq)]
pub struct Runner {
    entries: Vec<Entry>,
}

impl View for Runner {
    type V = Seq<EntryView>;

    closed spec fn view(&self) -> Seq<EntryView> {
        entry_views(self.entries@)
    }
}

impl Default for Runner {
    fn default() -> (r: Runner)
        ensures
            r@ == Seq::<EntryView>::empty(),
    {
        Runner::new()
    }
}

impl Runner {
    /// A runner without entries.
    pub fn new() -> (r: Runner)
        ensures
            r@ == Seq::<EntryView>::empty(),
    {
        let r = Runner { entries: Vec::new() };
        proof {
            assert(r@ =~= Seq::<EntryView>::empty());
        }
        r
    }

    /// Declares one more entry, after those that are there.
    pub fn add_entry(&mut self, entry: Entry)
        ensures
            final(self)@ == old(self)@.push(entry@),
    {
        self.entries.push(entry);
        proof {
            assert(self@ =~= old(self)@.push(entry@));
        }
    }

    /// The declared entries.
    pub fn entries(&self) -> (r: &Vec<Entry>)
        ensures
            entry_views(r@) == self@,
    {
        &self.entries
    }

    /// Resolves the declared entries and starts the run over what they
    /// resolve to.
    pub fn run(&self) -> (r: BatchRun)
        ensures
            in_step(r@),
            r@.results.len() == 0,
            exists|outcomes: Seq<GlobbedView>|
                outcomes.len() == self@.len() && r@.entries == #[trigger] expansion(
                    self@,
                    outcomes,
                ),
    {
        let resolved = expand_globs(&self.entries);
        let ghost found = expanded_views(resolved@);
        let r = BatchRun::new(resolved);
        proof {
            let outcomes = choose|outcomes: Seq<GlobbedView>|
                outcomes.len() == self.entries.len() && found == #[trigger] expansion(
                    entry_views(self.entries@),
                    outcomes,
                );
            assert(r@.entries == expansion(self@, outcomes));
        }
        r
    }
}

/// The state of a run: the resolved entries and the results so far.
pub struct BatchRunView {
    pub entries: Seq<ExpandedEntryView>,
    pub results: Seq<(Seq<char>, Option<EntryFailedView>)>,
}

/// The results so far belong to the first entries, in their order; each
/// stands under the path of its entry, and the result of an entry that
/// could not be resolved is the error of its resolution.
pub open spec fn in_step(state: BatchRunView) -> bool {
    &&& state.results.len() <= state.entries.len()
    &&& forall|i: int|
        0 <= i < state.results.len() ==> {
            &&& (#[trigger] state.results[i]).0 == state.entries[i].entry.path
            &&& state.entries[i].error is Some ==> state.results[i].1 == state.entries[i].error
        }
}

/// The entry that is next: the first without a result.
pub open spec fn pending(state: BatchRunView) -> Option<ExpandedEntryView> {
    if state.results.len() < state.entries.len() {
        Some(state.entries[state.results.len() as int])
    } else {
        None
    }
}

/// `results` with the errors recorded of the entries that are next and
/// could not be resolved, up to the first entry that can be run.
pub open spec fn settled(
    entries: Seq<ExpandedEntryView>,
    results: Seq<(Seq<char>, Option<EntryFailedView>)>,
) -> Seq<(Seq<char>, Option<EntryFailedView>)>
    decreases entries.len() - results.len(),
{
    if results.len() < entries.len() && entries[results.len() as int].error is Some {
        let next = entries[results.len() as int];
        settled(entries, results.push((next.entry.path, next.error)))
    } else {
        results
    }
}

/// The report over `results`: the distinct report of an empty batch where
/// there are none.
pub open spec fn report(results: Seq<(Seq<char>, Option<EntryFailedView>)>) -> BatchRunResultView {
    if results.len() == 0 {
        BatchRunResultView::NoEntries
    } else {
        BatchRunResultView::ResultsMap(results)
    }
}

/// An empty batch has the distinct report of an empty batch: where no
/// entry is declared, or every declared entry is a pattern that matches
/// nothing, the run is over at once and its report is `NoEntries`.
pub proof fn lemma_empty_batch_has_no_entries(
    tests: Seq<EntryView>,
    outcomes: Seq<GlobbedView>,
    state: BatchRunView,
)
    requires
        outcomes.len() == tests.len(),
        forall|i: int|
            0 <= i < tests.len() ==> has_wildcard(#[trigger] tests[i].path) && outcomes[i] == Ok::<
                Seq<Result<Seq<char>, Seq<char>>>,
                Seq<char>,
            >(Seq::empty()),
        state.entries == expansion(tests, outcomes),
        in_step(state),
    ensures
        pending(state) is None,
        report(state.results) == BatchRunResultView::NoEntries,
{
    lemma_nothing_matches_nothing(tests, outcomes);
}

/// A run in progress.
pub struct BatchRun {
    entries: Vec<ExpandedEntry>,
    results: Vec<(String, EntryOutput)>,
}

impl View for BatchRun {
    type V = BatchRunView;

    closed spec fn view(&self) -> BatchRunView {
        BatchRunView { entries: expanded_views(self.entries@), results: named_views(self.results@) }
    }
}

impl BatchRun {
    /// The run over `entries`, with no result yet.
    pub fn new(entries: Vec<ExpandedEntry>) -> (r: BatchRun)
        ensures
            in_step(r@),
            r@.entries == expanded_views(entries@),
            r@.results.len() == 0,
    {
        let r = BatchRun { entries, results: Vec::new() };
        proof {
            assert(r@.results =~= Seq::empty());
        }
        r
    }

    /// The entry to run next, if there is one. The entries before it that
    /// could not be resolved have their errors recorded as their results.
    pub fn next(&mut self) -> (r: Option<Entry>)
        requires
            in_step(old(self)@),
        ensures
            in_step(final(self)@),
            final(self)@.entries == old(self)@.entries,
            final(self)@.results == settled(old(self)@.entries, old(self)@.results),
            match r {
                Some(entry) => pending(final(self)@) == Some(
                    ExpandedEntryView { entry: entry@, error: None },
                ),
                None => pending(final(self)@) is None,
            },
    {
        loop
            invariant
                in_step(self@),
                self@.entries == old(self)@.entries,
                settled(self@.entries, self@.results) == settled(
                    old(self)@.entries,
                    old(self)@.results,
                ),
            decreases self.entries.len() - self.results.len(),
        {
            let k = self.results.len();
            if k >= self.entries.len() {
                return None;
            }
            let ghost before = self@.results;
            match self.entries[k].failure() {
                None => {
                    return Some(self.entries[k].entry().duplicate());
                },
                Some(reason) => {
                    let name = self.entries[k].path().to_owned();
                    let failed = reason.duplicate();
                    self.results.push((name, EntryOutput::new(Err(failed))));
                    proof {
                        assert(self@.results =~= before.push(
                            (self@.entries[k as int].entry.path, self@.entries[k as int].error),
                        ));
                    }
                },
            }
        }
    }

    /// Records how the entry that is next, and that `next` has handed out,
    /// ended.
    pub fn record(&mut self, res: EntryResult)
        requires
            in_step(old(self)@),
            pending(old(self)@) is Some,
            pending(old(self)@)->0.error is None,
        ensures
            in_step(final(self)@),
            final(self)@.entries == old(self)@.entries,
            final(self)@.results == old(self)@.results.push(
                (pending(old(self)@)->0.entry.path, result_view(res)),
            ),
    {
        let k = self.results.len();
        let ghost before = self@.results;
        let name = self.entries[k].path().to_owned();
        self.results.push((name, EntryOutput::new(res)));
        proof {
            assert(self@.results =~= before.push(
                (self@.entries[k as int].entry.path, result_view(res)),
            ));
        }
    }

    /// Whether every entry has its result.
    pub fn is_done(&self) -> (r: bool)
        ensures
            r == (pending(self@) is None),
    {
        proof {
            assert(self@.results.len() == self.results.len());
            assert(self@.entries.len() == self.entries.len());
        }
        self.results.len() >= self.entries.len()
    }

    /// The report of the run: one result for each entry, in the order
    /// of the entries, or the distinct report of an empty batch.
    pub fn finish(self) -> (r: BatchRunResult)
        requires
            in_step(self@),
            pending(self@) is None,
        ensures
            r@ == report(self@.results),
            self@.results.len() == self@.entries.len(),
    {
        BatchRunResult::new(self.results)
    }
}

} // verus!
