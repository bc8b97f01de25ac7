//! One in-flight mint and what a single look at it decides.

use vstd::prelude::*;
use crate::clock::{elapsed_secs, exceeds, has_exceeded, seconds_between, Timestamp};
use crate::ids::{hyphenated, uuid_text};
use crate::record::{Record, RecordView};
use crate::remote::{Checked, CheckedView};

verus! {

/// What the engine remembers of a mint between looks at it.
#[derive(Clone, Copy, Debug, PartialEq, Eq, Structural)]
pub struct ItemState {
    /// The identifier the service gave the mint.
    pub mint_id: u128,
    /// When the mint was accepted.
    pub start_time: Timestamp,
    /// When the current pending window began: at acceptance, or at the latest retry.
    pub last_pending_time: Timestamp,
    /// Retries issued so far.
    pub retry_count: u64,
}

/// The rules a run reconciles under.
#[derive(Clone, Copy, Debug, PartialEq, Eq, Structural)]
pub struct Policy {
    /// Seconds a mint may stay unresolved within one pending window.
    pub pending_timeout: u64,
    /// Seconds between two rounds of looks.
    pub poll_interval: u64,
    /// Whether a mint the service reports as failed is retried.
    pub retry_enabled: bool,
}

/// What a look at a mint decided.
#[derive(Debug)]
pub enum Verdict {
    /// Nothing was decided; the mint stays in flight unchanged.
    Pending,
    /// The mint is resolved with this record and leaves the in-flight set.
    Resolved(Record),
    /// The mint failed and is to be retried; the record is a notice, and the mint stays in flight.
    Retried(Record),
}

/// A verdict as a mathematical value.
pub enum VerdictView {
    Pending,
    Resolved(RecordView),
    Retried(RecordView),
}

impl View for Verdict {
    type V = VerdictView;

    open spec fn view(&self) -> VerdictView {
        match self {
            Verdict::Pending => VerdictView::Pending,
            Verdict::Resolved(r) => VerdictView::Resolved(r@),
            Verdict::Retried(r) => VerdictView::Retried(r@),
        }
    }
}

/// The record of a look at `item` made at `at`.
pub open spec fn record_at(item: ItemState, at: Timestamp, success: bool, reason: Seq<char>) -> RecordView {
    RecordView {
        mint_id: item.mint_id,
        completion_sec: elapsed_secs(item.start_time, at) as u64,
        retry_count: item.retry_count,
        success,
        reason,
    }
}

/// The later of two readings.
pub open spec fn later(a: Timestamp, b: Timestamp) -> Timestamp {
    if a >= b {
        a
    } else {
        b
    }
}

/// A retry count after one more retry; the count stops at the largest `u64`.
pub open spec fn bumped(count: u64) -> u64 {
    if count < u64::MAX {
        (count + 1) as u64
    } else {
        count
    }
}

/// The item after a retry issued at `at`: one more retry counted, and a fresh
/// pending window that begins at `at` (never earlier than the previous one began).
pub open spec fn after_retry(item: ItemState, at: Timestamp) -> ItemState {
    ItemState {
        last_pending_time: later(at, item.last_pending_time),
        retry_count: bumped(item.retry_count),
        ..item
    }
}

/// Whether the item's pending window has run out at `at`.
pub open spec fn timed_out(item: ItemState, at: Timestamp, pending_timeout: u64) -> bool {
    exceeds(item.last_pending_time, at, pending_timeout)
}

/// The reason recorded for a mint whose status call failed: which mint could
/// not be verified, then the detail of the error.
pub open spec fn unverified(mint_id: u128, detail: Seq<char>) -> Seq<char> {
    "Failed to verify mint "@ + hyphenated(mint_id) + ": "@ + detail
}

/// What a status finding decides for an item, and the item afterwards.
pub open spec fn settle(item: ItemState, at: Timestamp, checked: CheckedView, retry: bool) -> (
    ItemState,
    VerdictView,
) {
    match checked {
        CheckedView::Succeeded => (item, VerdictView::Resolved(record_at(item, at, true, Seq::empty()))),
        CheckedView::Error(detail) => (
            item,
            VerdictView::Resolved(record_at(item, at, false, unverified(item.mint_id, detail))),
        ),
        CheckedView::Failed => if retry {
            (
                after_retry(item, at),
                VerdictView::Retried(
                    record_at(after_retry(item, at), at, false, "remote rejected, retried"@),
                ),
            )
        } else {
            (item, VerdictView::Resolved(record_at(item, at, false, "remote rejected"@)))
        },
        CheckedView::Pending => (item, VerdictView::Pending),
    }
}

/// What one look decides for an item, and the item afterwards: a run-out
/// pending window resolves the item as timed out whatever was found;
/// otherwise the finding decides.
pub open spec fn look(item: ItemState, at: Timestamp, policy: Policy, checked: CheckedView) -> (
    ItemState,
    VerdictView,
) {
    if timed_out(item, at, policy.pending_timeout) {
        (item, VerdictView::Resolved(record_at(item, at, false, "timeout"@)))
    } else {
        settle(item, at, checked, policy.retry_enabled)
    }
}

impl ItemState {
    /// Whether the pending window began no earlier than the mint was accepted.
    pub open spec fn wf(&self) -> bool {
        self.last_pending_time >= self.start_time
    }

    /// The state of a mint accepted at `start_time`: no retries, and a pending
    /// window that begins at acceptance.
    pub fn new(mint_id: u128, start_time: Timestamp) -> (item: ItemState)
        ensures
            item == (ItemState { mint_id, start_time, last_pending_time: start_time, retry_count: 0 }),
            item.wf(),
    {
        ItemState { mint_id, start_time, last_pending_time: start_time, retry_count: 0 }
    }

    /// Whether the pending window has run out at `at`, so that the mint is not
    /// to be polled again.
    pub fn overdue(&self, at: Timestamp, pending_timeout: u64) -> (over: bool)
        ensures
            over == timed_out(*self, at, pending_timeout),
    {
        has_exceeded(self.last_pending_time, at, pending_timeout)
    }

    /// The record of a look at this mint made at `at`.
    pub fn record(&self, at: Timestamp, success: bool, reason: String) -> (record: Record)
        ensures
            record@ == record_at(*self, at, success, reason@),
    {
        Record {
            mint_id: self.mint_id,
            completion_sec: seconds_between(self.start_time, at),
            retry_count: self.retry_count,
            success,
            reason,
        }
    }
}

/// Applies a status finding to a mint: a success, a failed status call, or a
/// failure without retries resolves it; a failure with retries counts one
/// more retry, opens a fresh pending window at `at` and yields a notice;
/// any other finding leaves it as it is. The reason of a success is empty;
/// that of a failed status call names the mint and gives the error's detail.
pub fn handle_status(state: &mut ItemState, at: Timestamp, checked: &Checked, retry: bool) -> (verdict:
    Verdict)
    ensures
        (*final(state), verdict@) == settle(*old(state), at, checked@, retry),
        old(state).wf() ==> final(state).wf(),
{
    match checked {
        Checked::Succeeded => Verdict::Resolved(state.record(at, true, String::new())),
        Checked::Error(detail) => {
            let mut reason = "Failed to verify mint ".to_owned();
            let id = uuid_text(state.mint_id);
            reason.push_str(id.as_str());
            reason.push_str(": ");
            reason.push_str(detail.as_str());
            Verdict::Resolved(state.record(at, false, reason))
        },
        Checked::Failed => {
            if retry {
                if state.retry_count < u64::MAX {
                    state.retry_count = state.retry_count + 1;
                }
                if at >= state.last_pending_time {
                    state.last_pending_time = at;
                }
                Verdict::Retried(state.record(at, false, "remote rejected, retried".to_owned()))
            } else {
                Verdict::Resolved(state.record(at, false, "remote rejected".to_owned()))
            }
        },
        Checked::Pending => Verdict::Pending,
    }
}

/// Looks at a mint once: if its pending window has run out at `at` it is
/// resolved as timed out, whatever `checked` holds; otherwise `checked`
/// decides as in [`handle_status`].
pub fn visit(state: &mut ItemState, at: Timestamp, policy: &Policy, checked: &Checked) -> (verdict:
    Verdict)
    ensures
        (*final(state), verdict@) == look(*old(state), at, *policy, checked@),
        old(state).wf() ==> final(state).wf(),
{
    if state.overdue(at, policy.pending_timeout) {
        Verdict::Resolved(state.record(at, false, "timeout".to_owned()))
    } else {
        handle_status(state, at, checked, policy.retry_enabled)
    }
}

} // verus!
