//! The rows of the final report: one record per resolution of a mint.

use vstd::prelude::*;

verus! {

/// How one mint ended, or, for a retry notice, how one failed attempt at it ended.
#[derive(Debug)]
pub struct Record {
    /// The identifier the service gave the mint.
    pub mint_id: u128,
    /// Whole seconds from acceptance of the mint to the observation that produced the record.
    pub completion_sec: u64,
    /// Retries issued for the mint up to and including that observation.
    pub retry_count: u64,
    /// Whether the mint was created.
    pub success: bool,
    /// Why the mint did not succeed; empty for a success.
    pub reason: String,
}

/// A record as a mathematical value.
pub struct RecordView {
    pub mint_id: u128,
    pub completion_sec: u64,
    pub retry_count: u64,
    pub success: bool,
    pub reason: Seq<char>,
}

impl View for Record {
    type V = RecordView;

    open spec fn view(&self) -> RecordView {
        RecordView {
            mint_id: self.mint_id,
            completion_sec: self.completion_sec,
            retry_count: self.retry_count,
            success: self.success,
            reason: self.reason@,
        }
    }
}

/// The views of a sequence of records, in order.
pub open spec fn views(records: Seq<Record>) -> Seq<RecordView> {
    records.map_values(|r: Record| r@)
}

/// The identifiers of a sequence of records, in order.
pub open spec fn record_ids(records: Seq<RecordView>) -> Seq<u128> {
    records.map_values(|r: RecordView| r.mint_id)
}

/// How many of the records report a failure.
pub open spec fn failures(records: Seq<RecordView>) -> nat
    decreases records.len(),
{
    if records.len() == 0 {
        0
    } else {
        failures(records.drop_last()) + if records.last().success {
            0nat
        } else {
            1nat
        }
    }
}

/// The counts a progress display shows for the reconciliation of a run.
#[derive(Clone, Copy, Debug, PartialEq, Eq, Structural)]
pub struct Tally {
    /// Mints resolved as created.
    pub succeeded: usize,
    /// Mints resolved otherwise.
    pub failed: usize,
    /// Retries issued.
    pub retried: usize,
}

/// Counts the records that report a failure.
pub fn count_failures(records: &Vec<Record>) -> (failed: usize)
    ensures
        failed == failures(views(records@)),
        failed <= records@.len(),
{
    let mut failed: usize = 0;
    let mut i: usize = 0;
    while i < records.len()
        invariant
            i <= records.len(),
            failed <= i,
            failed == failures(views(records@.take(i as int))),
        decreases records.len() - i,
    {
        proof {
            let next = records@.take(i as int + 1);
            assert(next.drop_last() =~= records@.take(i as int));
            assert(views(next).drop_last() =~= views(records@.take(i as int)));
            assert(views(next).last() == records@[i as int]@);
        }
        if !records[i].success {
            failed += 1;
        }
        i += 1;
    }
    proof {
        assert(records@.take(i as int) =~= records@);
    }
    failed
}

/// What the closing line of a run reports.
#[derive(Clone, Copy, Debug, PartialEq, Eq, Structural)]
pub enum Summary {
    /// No record reports a failure.
    AllCreated,
    /// This many records report a failure.
    SomeFailed(usize),
}

/// Sums a run up for its closing line: all mints created, or the number of failed records.
pub fn finalize(records: &Vec<Record>) -> (summary: Summary)
    ensures
        failures(views(records@)) == 0 ==> summary == Summary::AllCreated,
        failures(views(records@)) > 0 ==> summary == Summary::SomeFailed(
            failures(views(records@)) as usize,
        ),
{
    let failed = count_failures(records);
    if failed > 0 {
        Summary::SomeFailed(failed)
    } else {
        Summary::AllCreated
    }
}

} // verus!
