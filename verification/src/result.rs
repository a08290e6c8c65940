//! The report of a batch.

use crate::error::{entry_failed_text, EntryFailed, EntryFailedView};
use crate::text::{join_texts, string_texts};
use vstd::prelude::*;

verus! {

/// How one entry ended.
pub type EntryResult = Result<(), EntryFailed>;

/// How one entry ended, as kept in the report.
#[derive(Debug, PartialEq, Eq)]
pub struct EntryOutput {
    res: EntryResult,
}

impl View for EntryOutput {
    type V = Option<EntryFailedView>;

    /// Why the entry failed, or `None` where it passed.
    closed spec fn view(&self) -> Option<EntryFailedView> {
        match self.res {
            Ok(_) => None,
            Err(reason) => Some(reason@),
        }
    }
}

/// The view of the end of one entry.
pub open spec fn result_view(res: EntryResult) -> Option<EntryFailedView> {
    match res {
        Ok(_) => None,
        Err(reason) => Some(reason@),
    }
}

impl EntryOutput {
    /// The record of an entry that ended with `res`.
    pub fn new(res: EntryResult) -> (r: EntryOutput)
        ensures
            r@ == result_view(res),
    {
        EntryOutput { res }
    }

    /// Whether the entry passed.
    pub fn is_ok(&self) -> (r: bool)
        ensures
            r == (self@ is None),
    {
        self.res.is_ok()
    }

    /// Why the entry failed, if it did.
    pub fn err(&self) -> (r: Option<&EntryFailed>)
        ensures
            r is Some <==> self@ is Some,
            r matches Some(reason) ==> self@ == Some(reason@),
    {
        match &self.res {
            Ok(_) => None,
            Err(reason) => Some(reason),
        }
    }
}

/// The report of a batch: there was nothing to run, or else there is one
/// result for each resolved entry, under the path of the entry and in the
/// order in which the entries were resolved.
#[derive(Debug, PartialEq, Eq)]
pub enum BatchRunResult {
    NoEntries,
    ResultsMap(Vec<(String, EntryOutput)>),
}

/// `BatchRunResult` over mathematical text.
pub enum BatchRunResultView {
    NoEntries,
    ResultsMap(Seq<(Seq<char>, Option<EntryFailedView>)>),
}

/// The views of named results.
pub open spec fn named_views(map: Seq<(String, EntryOutput)>) -> Seq<
    (Seq<char>, Option<EntryFailedView>),
> {
    map.map_values(|named: (String, EntryOutput)| (named.0@, named.1@))
}

impl View for BatchRunResult {
    type V = BatchRunResultView;

    open spec fn view(&self) -> BatchRunResultView {
        match self {
            BatchRunResult::NoEntries => BatchRunResultView::NoEntries,
            BatchRunResult::ResultsMap(map) => BatchRunResultView::ResultsMap(named_views(map@)),
        }
    }
}

/// The entries of `map` that failed, each with its reason, in their
/// order.
pub open spec fn failures(map: Seq<(Seq<char>, Option<EntryFailedView>)>) -> Seq<
    (Seq<char>, EntryFailedView),
>
    decreases map.len(),
{
    if map.len() == 0 {
        Seq::empty()
    } else {
        match map.last().1 {
            None => failures(map.drop_last()),
            Some(reason) => failures(map.drop_last()).push((map.last().0, reason)),
        }
    }
}

/// Every entry of `map` passed.
pub open spec fn all_passed(map: Seq<(Seq<char>, Option<EntryFailedView>)>) -> bool {
    forall|i: int| 0 <= i < map.len() ==> (#[trigger] map[i]).1 is None
}

/// The line that reports one failure: the path of the entry and why it
/// failed.
pub open spec fn failure_line(failure: (Seq<char>, EntryFailedView)) -> Seq<char> {
    failure.0 + " => "@ + entry_failed_text(failure.1)
}

/// The views of failures that are given by reference.
pub open spec fn failure_views(found: Seq<(&String, &EntryFailed)>) -> Seq<
    (Seq<char>, EntryFailedView),
> {
    found.map_values(|f: (&String, &EntryFailed)| (f.0@, f.1@))
}

/// No entry failed exactly when every entry passed.
pub proof fn lemma_no_failures(map: Seq<(Seq<char>, Option<EntryFailedView>)>)
    ensures
        failures(map).len() == 0 <==> all_passed(map),
        failures(map).len() <= map.len(),
    decreases map.len(),
{
    if map.len() > 0 {
        let front = map.drop_last();
        lemma_no_failures(front);
        if all_passed(map) {
            assert(map[map.len() - 1].1 is None);
            assert forall|i: int| 0 <= i < front.len() implies (#[trigger] front[i]).1 is None by {
                assert(front[i] == map[i]);
            }
        }
        if failures(map).len() == 0 {
            assert forall|i: int| 0 <= i < map.len() implies (#[trigger] map[i]).1 is None by {
                if i < front.len() {
                    assert(front[i] == map[i]);
                }
            }
        }
    }
}

impl BatchRunResult {
    /// The report for the given results: the distinct report of an empty
    /// batch where there are none.
    pub fn new(results: Vec<(String, EntryOutput)>) -> (r: BatchRunResult)
        ensures
            r@ == if results.len() == 0 {
                BatchRunResultView::NoEntries
            } else {
                BatchRunResultView::ResultsMap(named_views(results@))
            },
    {
        if results.len() == 0 {
            BatchRunResult::NoEntries
        } else {
            BatchRunResult::ResultsMap(results)
        }
    }

    /// The entries that failed, each with its reason; `None` for the
    /// report of an empty batch.
    pub fn errors(&self) -> (r: Option<Vec<(&String, &EntryFailed)>>)
        ensures
            match self@ {
                BatchRunResultView::NoEntries => r is None,
                BatchRunResultView::ResultsMap(map) => r is Some && failure_views(r->0@)
                    == failures(map),
            },
    {
        match self {
            BatchRunResult::NoEntries => None,
            BatchRunResult::ResultsMap(map) => {
                let mut found: Vec<(&String, &EntryFailed)> = Vec::new();
                let mut i: usize = 0;
                proof {
                    assert(failure_views(found@) =~= failures(named_views(map@).take(0)));
                }
                while i < map.len()
                    invariant
                        i <= map.len(),
                        failure_views(found@) == failures(named_views(map@).take(i as int)),
                    decreases map.len() - i,
                {
                    let ghost before = failure_views(found@);
                    let ghost upto = named_views(map@).take(i + 1);
                    proof {
                        assert(upto.drop_last() =~= named_views(map@).take(i as int));
                        assert(upto.last() == (map@[i as int].0@, map@[i as int].1@));
                    }
                    match map[i].1.err() {
                        None => {},
                        Some(reason) => {
                            found.push((&map[i].0, reason));
                            proof {
                                assert(failure_views(found@) =~= before.push(
                                    (map@[i as int].0@, reason@),
                                ));
                            }
                        },
                    }
                    i = i + 1;
                }
                proof {
                    assert(named_views(map@).take(map.len() as int) =~= named_views(map@));
                }
                Some(found)
            },
        }
    }

    /// Whether no entry failed. The report of an empty batch counts as
    /// passed.
    pub fn all_ok(&self) -> (r: bool)
        ensures
            r == match self@ {
                BatchRunResultView::NoEntries => true,
                BatchRunResultView::ResultsMap(map) => all_passed(map),
            },
    {
        match self.errors() {
            None => true,
            Some(errors) => {
                proof {
                    lemma_no_failures(self@->ResultsMap_0);
                    assert(failure_views(errors@).len() == errors@.len());
                }
                errors.len() == 0
            },
        }
    }

    /// One line for each entry that failed, with its path and the reason,
    /// in the order of the report: what is to be shown before a failed
    /// batch is given up.
    pub fn failure_lines(&self) -> (r: Vec<String>)
        ensures
            string_texts(r@) == match self@ {
                BatchRunResultView::NoEntries => Seq::empty(),
                BatchRunResultView::ResultsMap(map) => failures(map).map_values(
                    |f: (Seq<char>, EntryFailedView)| failure_line(f),
                ),
            },
    {
        let mut lines: Vec<String> = Vec::new();
        match self.errors() {
            None => {
                proof {
                    assert(string_texts(lines@) =~= Seq::<Seq<char>>::empty());
                }
            },
            Some(errors) => {
                let ghost target = failure_views(errors@).map_values(
                    |f: (Seq<char>, EntryFailedView)| failure_line(f),
                );
                let mut i: usize = 0;
                proof {
                    assert(string_texts(lines@) =~= target.take(0));
                }
                while i < errors.len()
                    invariant
                        i <= errors.len(),
                        target == failure_views(errors@).map_values(
                            |f: (Seq<char>, EntryFailedView)| failure_line(f),
                        ),
                        string_texts(lines@) == target.take(i as int),
                    decreases errors.len() - i,
                {
                    let ghost before = string_texts(lines@);
                    let (name, reason) = errors[i];
                    let mut line = join_texts(name.as_str(), " => ");
                    line.append(reason.message().as_str());
                    lines.push(line);
                    proof {
                        assert(line@ == failure_line((name@, reason@)));
                        assert(string_texts(lines@) =~= before.push(line@));
                        assert(target.take(i + 1) =~= target.take(i as int).push(target[i as int]));
                    }
                    i = i + 1;
                }
                proof {
                    assert(target.take(errors.len() as int) =~= target);
                }
            },
        }
        lines
    }
}

} // verus!
