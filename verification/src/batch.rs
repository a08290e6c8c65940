//! Registration of the entries of a batch.

use crate::entry::{Entry, entry_views, EntryView, expansion, Expected, GlobbedView};
use crate::runner::{BatchRun, in_step, Runner};
use vstd::prelude::*;

verus! {

/// A batch: the entries that were registered, in the order of
/// registration.
#[derive(Debug, Clone, PartialEq, Eq)]
pub struct Batch {
    runner: Runner,
}

impl View for Batch {
    type V = Seq<EntryView>;

    closed spec fn view(&self) -> Seq<EntryView> {
        self.runner@
    }
}

impl Batch {
    /// A batch without entries.
    pub fn new() -> (r: Batch)
        ensures
            r@ == Seq::<EntryView>::empty(),
    {
        Batch { runner: Runner::new() }
    }

    /// Registers the file or pattern `path` as a run-match case.
    pub fn run_match(&mut self, path: &str)
        ensures
            final(self)@ == old(self)@.push(EntryView { path: path@, expected: Expected::RunMatch }),
    {
        self.runner.add_entry(Entry::new(path, Expected::RunMatch));
    }

    /// Registers the file or pattern `path` as a run-match case; the
    /// earlier name of `run_match`.
    pub fn run_pass(&mut self, path: &str)
        ensures
            final(self)@ == old(self)@.push(EntryView { path: path@, expected: Expected::RunMatch }),
    {
        self.run_match(path);
    }

    /// Registers the file or pattern `path` as a compile-fail case.
    pub fn compile_fail(&mut self, path: &str)
        ensures
            final(self)@ == old(self)@.push(
                EntryView { path: path@, expected: Expected::CompileFail },
            ),
    {
        self.runner.add_entry(Entry::new(path, Expected::CompileFail));
    }

    /// The registered entries.
    pub fn entries(&self) -> (r: &Vec<Entry>)
        ensures
            entry_views(r@) == self@,
    {
        self.runner.entries()
    }

    /// Resolves the registered entries and starts the run over what they
    /// resolve to.
    pub fn run(self) -> (r: BatchRun)
        ensures
            in_step(r@),
            r@.results.len() == 0,
            exists|outcomes: Seq<GlobbedView>|
                outcomes.len() == self@.len() && r@.entries == #[trigger] expansion(
                    self@,
                    outcomes,
                ),
    {
        let r = self.runner.run();
        proof {
            let outcomes = choose|outcomes: Seq<GlobbedView>|
                outcomes.len() == self.runner@.len() && r@.entries == #[trigger] expansion(
                    self.runner@,
                    outcomes,
                );
            assert(r@.entries == expansion(self@, outcomes));
        }
        r
    }
}

} // verus!
