//! Decisions taken around device I/O: the sector size to use, and which
//! submitted requests completed.

use vstd::prelude::*;

verus! {

/// Sector size used when the device reports none (e.g. for an ordinary
/// file).
pub const DEFAULT_SECTOR_SIZE: usize = 4096;

/// The sector size that a block-size query yields: the reported size when
/// the query succeeded with a positive size, else the default.
pub open spec fn sector_size_for(query_result: i32, reported: i32) -> nat {
    if query_result == -1 || reported <= 0 {
        DEFAULT_SECTOR_SIZE as nat
    } else {
        reported as nat
    }
}

/// The logical sector size to use, given what the device's block-size query
/// returned (`query_result`, -1 when it failed) and the size it reported.
pub fn sector_size_from_query(query_result: i32, reported: i32) -> (size: usize)
    ensures
        size == sector_size_for(query_result, reported),
{
    if query_result == -1 {
        return DEFAULT_SECTOR_SIZE;
    }
    if reported <= 0 {
        return DEFAULT_SECTOR_SIZE;
    }
    reported as usize
}

/// One finished request as the completion queue reports it: its result
/// (negative: minus an error number) and the identifier it was submitted
/// with.
#[derive(Copy, Clone, Debug, PartialEq, Eq, Structural)]
pub struct Completion {
    pub result: i32,
    pub user_data: u64,
}

/// The identifiers of the requests among `entries` that succeeded, in order.
pub open spec fn succeeded_ids(entries: Seq<Completion>) -> Seq<u64>
    decreases entries.len(),
{
    if entries.len() == 0 {
        Seq::empty()
    } else {
        let rest = succeeded_ids(entries.drop_last());
        if entries.last().result >= 0 {
            rest.push(entries.last().user_data)
        } else {
            rest
        }
    }
}

/// The results of the requests among `entries` that failed, in order.
pub open spec fn failed_results(entries: Seq<Completion>) -> Seq<i32>
    decreases entries.len(),
{
    if entries.len() == 0 {
        Seq::empty()
    } else {
        let rest = failed_results(entries.drop_last());
        if entries.last().result < 0 {
            rest.push(entries.last().result)
        } else {
            rest
        }
    }
}

/// The completions of one wait, sorted out.
pub struct CompletionOutcome {
    /// Identifiers of the requests that succeeded, in completion order.
    pub completed: Vec<u64>,
    /// Results (minus an error number) of the requests that failed, in
    /// completion order.
    pub failures: Vec<i32>,
}

impl CompletionOutcome {
    /// The number of requests that finished, successfully or not (saturating
    /// at `usize::MAX`).
    pub fn finished(&self) -> (n: usize)
        ensures
            n == if self.completed@.len() + self.failures@.len() > usize::MAX {
                usize::MAX as int
            } else {
                (self.completed@.len() + self.failures@.len()) as int
            },
    {
        self.completed.len().saturating_add(self.failures.len())
    }
}

/// Every completion is either a success or a failure.
pub proof fn lemma_every_completion_counted(entries: Seq<Completion>)
    ensures
        succeeded_ids(entries).len() + failed_results(entries).len() == entries.len(),
    decreases entries.len(),
{
    if entries.len() > 0 {
        lemma_every_completion_counted(entries.drop_last());
    }
}

/// Sorts completions into the identifiers of the requests that succeeded
/// (result at least 0) and the results of those that failed.
pub fn sort_completions(entries: &[Completion]) -> (outcome: CompletionOutcome)
    ensures
        outcome.completed@ == succeeded_ids(entries@),
        outcome.failures@ == failed_results(entries@),
        outcome.completed@.len() + outcome.failures@.len() == entries@.len(),
{
    let mut completed: Vec<u64> = Vec::new();
    let mut failures: Vec<i32> = Vec::new();
    let n = entries.len();
    for i in 0..n
        invariant
            n == entries@.len(),
            completed@ == succeeded_ids(entries@.take(i as int)),
            failures@ == failed_results(entries@.take(i as int)),
    {
        let entry = entries[i];
        assert(entries@.take(i + 1).drop_last() =~= entries@.take(i as int));
        if entry.result >= 0 {
            completed.push(entry.user_data);
        } else {
            failures.push(entry.result);
        }
    }
    assert(entries@.take(n as int) =~= entries@);
    proof {
        lemma_every_completion_counted(entries@);
    }
    CompletionOutcome { completed, failures }
}


/// A block-size query that succeeded with a positive size gives that size;
/// any other query gives 4096. Either way the size is positive.
pub proof fn lemma_sector_size_rule(query_result: i32, reported: i32)
    ensures
        query_result != -1 && reported > 0 ==> sector_size_for(query_result, reported)
            == reported,
        query_result == -1 || reported <= 0 ==> sector_size_for(query_result, reported) == 4096,
        sector_size_for(query_result, reported) > 0,
{
}

/// When every request succeeded, the identifiers come back in completion
/// order and there are no failures; when every request failed, the results
/// come back in order and there are no identifiers.
pub proof fn lemma_uniform_completions(entries: Seq<Completion>)
    ensures
        (forall|i: int| 0 <= i < entries.len() ==> #[trigger] entries[i].result >= 0) ==> (
        succeeded_ids(entries) == entries.map_values(|c: Completion| c.user_data)
            && failed_results(entries).len() == 0),
        (forall|i: int| 0 <= i < entries.len() ==> #[trigger] entries[i].result < 0) ==> (
        failed_results(entries) == entries.map_values(|c: Completion| c.result)
            && succeeded_ids(entries).len() == 0),
    decreases entries.len(),
{
    if entries.len() > 0 {
        let rest = entries.drop_last();
        lemma_uniform_completions(rest);
        if forall|i: int| 0 <= i < entries.len() ==> #[trigger] entries[i].result >= 0 {
            assert forall|i: int| 0 <= i < rest.len() implies #[trigger] rest[i].result >= 0 by {
                assert(rest[i] == entries[i]);
            }
            assert(entries[entries.len() - 1].result >= 0);
            assert(succeeded_ids(entries) =~= entries.map_values(|c: Completion| c.user_data));
        }
        if forall|i: int| 0 <= i < entries.len() ==> #[trigger] entries[i].result < 0 {
            assert forall|i: int| 0 <= i < rest.len() implies #[trigger] rest[i].result < 0 by {
                assert(rest[i] == entries[i]);
            }
            assert(entries[entries.len() - 1].result < 0);
            assert(failed_results(entries) =~= entries.map_values(|c: Completion| c.result));
        }
    }
}

} // verus!
