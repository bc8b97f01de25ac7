//! The reconciliation engine: the in-flight mints, what each observation does
//! to them, and the records that come out.

use vstd::prelude::*;
use crate::accepted::{accepted_ids, Acceptance, Accepted};
use crate::clock::Timestamp;
use crate::ids::{lemma_slot_is, lemma_slot_of, slot_of};
use crate::item::{look, visit, ItemState, Policy, Verdict, VerdictView};
use crate::record::{count_failures, failures, record_ids, views, Record, RecordView, Tally};
use crate::remote::{Checked, CheckedView};

verus! {

/// One look at a mint: when it was made and what it found.
#[derive(Debug)]
pub struct Observation {
    /// The mint that was looked at.
    pub mint_id: u128,
    /// When the look was made.
    pub at: Timestamp,
    /// What the status call found; `Pending` where none was made.
    pub checked: Checked,
}

/// An observation as a mathematical value.
pub struct ObservationView {
    pub mint_id: u128,
    pub at: Timestamp,
    pub checked: CheckedView,
}

impl View for Observation {
    type V = ObservationView;

    open spec fn view(&self) -> ObservationView {
        ObservationView { mint_id: self.mint_id, at: self.at, checked: self.checked@ }
    }
}

/// The views of a sequence of observations, in order.
pub open spec fn observations(events: Seq<Observation>) -> Seq<ObservationView> {
    events.map_values(|e: Observation| e@)
}

/// The identifiers of a sequence of items, in order.
pub open spec fn item_ids(items: Seq<ItemState>) -> Seq<u128> {
    items.map_values(|i: ItemState| i.mint_id)
}

/// The engine as a mathematical value.
pub struct ReconcilerView {
    /// The rules of the run.
    pub policy: Policy,
    /// The mints in flight, in the order of their acceptance.
    pub pending: Seq<ItemState>,
    /// The records of the resolved mints, in the order of their resolution.
    pub records: Seq<RecordView>,
    /// The notices of the retries issued, in the order of their issue.
    pub notices: Seq<RecordView>,
}

impl ReconcilerView {
    /// No mint is in flight twice, none is resolved twice, none is both in
    /// flight and resolved, and each in-flight mint is well formed.
    pub open spec fn wf(self) -> bool {
        &&& item_ids(self.pending).no_duplicates()
        &&& record_ids(self.records).no_duplicates()
        &&& forall|i: int, j: int|
            0 <= i < self.pending.len() && 0 <= j < self.records.len() ==> (
            #[trigger] self.pending[i]).mint_id != (#[trigger] self.records[j]).mint_id
        &&& forall|i: int| 0 <= i < self.pending.len() ==> (#[trigger] self.pending[i]).wf()
    }

    /// Whether no mint is in flight any more.
    pub open spec fn done(self) -> bool {
        self.pending.len() == 0
    }
}

/// The in-flight state of a mint that was just accepted.
pub open spec fn fresh(entry: Acceptance) -> ItemState {
    ItemState {
        mint_id: entry.mint_id,
        start_time: entry.start_time,
        last_pending_time: entry.start_time,
        retry_count: 0,
    }
}

/// The engine at the start of a run: every accepted mint in flight, nothing recorded.
pub open spec fn start(entries: Seq<Acceptance>, policy: Policy) -> ReconcilerView {
    ReconcilerView {
        policy,
        pending: entries.map_values(|e: Acceptance| fresh(e)),
        records: Seq::empty(),
        notices: Seq::empty(),
    }
}

/// The engine after one observation. An observation of a mint that is not in
/// flight changes nothing. Otherwise the look decides: a resolved mint leaves
/// the in-flight set and its record is appended; a retried mint stays, with
/// its new state, and its notice is appended; a pending mint stays as it is.
pub open spec fn observe(v: ReconcilerView, obs: ObservationView) -> ReconcilerView {
    let slot = slot_of(item_ids(v.pending), obs.mint_id);
    if slot < v.pending.len() {
        let (item, verdict) = look(v.pending[slot], obs.at, v.policy, obs.checked);
        match verdict {
            VerdictView::Pending => v,
            VerdictView::Retried(notice) => ReconcilerView {
                pending: v.pending.update(slot, item),
                notices: v.notices.push(notice),
                ..v
            },
            VerdictView::Resolved(record) => ReconcilerView {
                pending: v.pending.remove(slot),
                records: v.records.push(record),
                ..v
            },
        }
    } else {
        v
    }
}

/// The engine after a sequence of observations, applied in order.
pub open spec fn replay(v: ReconcilerView, events: Seq<ObservationView>) -> ReconcilerView
    decreases events.len(),
{
    if events.len() == 0 {
        v
    } else {
        observe(replay(v, events.drop_last()), events.last())
    }
}

/// What an observation did, as the caller needs to know it.
#[derive(Clone, Copy, Debug, PartialEq, Eq, Structural)]
pub enum Reaction {
    /// The mint is not in flight; nothing changed.
    Ignored,
    /// The mint stays in flight as it was.
    Waiting,
    /// The mint stays in flight and a retry is to be issued for it.
    Retry,
    /// The mint was resolved; the flag says whether it was created.
    Resolved(bool),
}

/// The reaction that an observation calls for.
pub open spec fn reaction_to(v: ReconcilerView, obs: ObservationView) -> Reaction {
    let slot = slot_of(item_ids(v.pending), obs.mint_id);
    if slot < v.pending.len() {
        match look(v.pending[slot], obs.at, v.policy, obs.checked).1 {
            VerdictView::Pending => Reaction::Waiting,
            VerdictView::Retried(_) => Reaction::Retry,
            VerdictView::Resolved(record) => Reaction::Resolved(record.success),
        }
    } else {
        Reaction::Ignored
    }
}

/// What follows a round of observations.
#[derive(Clone, Copy, Debug, PartialEq, Eq, Structural)]
pub enum Next {
    /// Mints are still in flight: wait this many seconds, then look again.
    Sleep(u64),
    /// No mint is in flight: the run is complete.
    Finished,
}

/// The step that follows a round which left the engine as `v`.
pub open spec fn next_after(v: ReconcilerView) -> Next {
    if v.done() {
        Next::Finished
    } else {
        Next::Sleep(v.policy.poll_interval)
    }
}

/// One observation keeps the engine well formed.
pub proof fn lemma_observe_wf(v: ReconcilerView, obs: ObservationView)
    requires
        v.wf(),
    ensures
        observe(v, obs).wf(),
{
    let ids = item_ids(v.pending);
    lemma_slot_of(ids, obs.mint_id);
    let slot = slot_of(ids, obs.mint_id);
    if slot < v.pending.len() {
        let (item, verdict) = look(v.pending[slot], obs.at, v.policy, obs.checked);
        let w = observe(v, obs);
        assert(item.mint_id == v.pending[slot].mint_id);
        assert(v.pending[slot].wf());
        assert(item.wf());
        match verdict {
            VerdictView::Pending => {},
            VerdictView::Retried(notice) => {
                assert(item_ids(w.pending) =~= ids);
            },
            VerdictView::Resolved(record) => {
                assert(record.mint_id == v.pending[slot].mint_id);
                assert(item_ids(w.pending) =~= ids.remove(slot));
                assert forall|a: int, b: int|
                    0 <= a < w.pending.len() && 0 <= b < w.pending.len() && a != b implies item_ids(
                    w.pending,
                )[a] != item_ids(w.pending)[b] by {
                    let a0 = if a < slot { a } else { a + 1 };
                    let b0 = if b < slot { b } else { b + 1 };
                    assert(item_ids(w.pending)[a] == ids[a0]);
                    assert(item_ids(w.pending)[b] == ids[b0]);
                }
                assert(record_ids(w.records) =~= record_ids(v.records).push(record.mint_id));
                assert forall|a: int, b: int|
                    0 <= a < w.records.len() && 0 <= b < w.records.len() && a != b implies record_ids(
                    w.records,
                )[a] != record_ids(w.records)[b] by {
                    if a < v.records.len() && b < v.records.len() {
                        assert(record_ids(v.records)[a] != record_ids(v.records)[b]);
                    } else if a < v.records.len() {
                        assert(v.pending[slot].mint_id != v.records[a].mint_id);
                    } else {
                        assert(v.pending[slot].mint_id != v.records[b].mint_id);
                    }
                }
                assert forall|i: int, j: int|
                    0 <= i < w.pending.len() && 0 <= j < w.records.len() implies (
                #[trigger] w.pending[i]).mint_id != (#[trigger] w.records[j]).mint_id by {
                    let i0 = if i < slot { i } else { i + 1 };
                    assert(w.pending[i] == v.pending[i0]);
                    if j < v.records.len() {
                        assert(w.records[j] == v.records[j]);
                        assert(v.pending[i0].mint_id != v.records[j].mint_id);
                    } else {
                        assert(ids[i0] != ids[slot]);
                    }
                }
                assert forall|i: int| 0 <= i < w.pending.len() implies (#[trigger] w.pending[i]).wf() by {
                    let i0 = if i < slot { i } else { i + 1 };
                    assert(w.pending[i] == v.pending[i0]);
                }
            },
        }
    }
}

/// Any sequence of observations keeps the engine well formed.
pub proof fn lemma_replay_wf(v: ReconcilerView, events: Seq<ObservationView>)
    requires
        v.wf(),
    ensures
        replay(v, events).wf(),
    decreases events.len(),
{
    if events.len() > 0 {
        lemma_replay_wf(v, events.drop_last());
        lemma_observe_wf(replay(v, events.drop_last()), events.last());
    }
}

/// A run starts well formed when no mint was accepted twice.
pub proof fn lemma_start_wf(entries: Seq<Acceptance>, policy: Policy)
    requires
        accepted_ids(entries).no_duplicates(),
    ensures
        start(entries, policy).wf(),
{
    let v = start(entries, policy);
    assert(item_ids(v.pending) =~= accepted_ids(entries));
}

/// The reconciliation engine of one run. It owns the mints in flight and
/// gathers the records of those that were resolved and the notices of the
/// retries that were issued.
#[derive(Debug)]
pub struct Reconciler {
    policy: Policy,
    pending: Vec<ItemState>,
    records: Vec<Record>,
    notices: Vec<Record>,
}

impl View for Reconciler {
    type V = ReconcilerView;

    closed spec fn view(&self) -> ReconcilerView {
        ReconcilerView {
            policy: self.policy,
            pending: self.pending@,
            records: views(self.records@),
            notices: views(self.notices@),
        }
    }
}

/// The position of `mint_id` among `items`, if it is there.
fn locate(items: &Vec<ItemState>, mint_id: u128) -> (slot: Option<usize>)
    ensures
        match slot {
            Some(i) => i == slot_of(item_ids(items@), mint_id) && i < items@.len(),
            None => slot_of(item_ids(items@), mint_id) == items@.len(),
        },
{
    let mut i: usize = 0;
    while i < items.len()
        invariant
            i <= items.len(),
            forall|j: int| 0 <= j < i ==> #[trigger] item_ids(items@)[j] != mint_id,
        decreases items.len() - i,
    {
        if items[i].mint_id == mint_id {
            proof {
                lemma_slot_is(item_ids(items@), mint_id, i as int);
            }
            return Some(i);
        }
        i += 1;
    }
    proof {
        lemma_slot_is(item_ids(items@), mint_id, i as int);
    }
    None
}

impl Reconciler {
    #[verifier::type_invariant]
    spec fn inv(&self) -> bool {
        self@.wf()
    }

    /// The engine at the start of a run: every accepted mint in flight, with
    /// no retries and a pending window that begins at its acceptance.
    pub fn new(accepted: &Accepted, policy: Policy) -> (engine: Reconciler)
        ensures
            engine@ == start(accepted@, policy),
            engine@.wf(),
    {
        let entries = accepted.entries();
        let mut pending: Vec<ItemState> = Vec::new();
        let mut i: usize = 0;
        while i < entries.len()
            invariant
                i <= entries.len(),
                pending@ == entries@.take(i as int).map_values(|e: Acceptance| fresh(e)),
            decreases entries.len() - i,
        {
            let entry = entries[i];
            pending.push(ItemState::new(entry.mint_id, entry.start_time));
            proof {
                assert(entries@.take(i as int + 1).drop_last() =~= entries@.take(i as int));
                assert(pending@ =~= entries@.take(i as int + 1).map_values(
                    |e: Acceptance| fresh(e),
                ));
            }
            i += 1;
        }
        proof {
            assert(entries@.take(i as int) =~= entries@);
            lemma_start_wf(entries@, policy);
            assert(views(Seq::<Record>::empty()) =~= Seq::<RecordView>::empty());
        }
        Reconciler { policy, pending, records: Vec::new(), notices: Vec::new() }
    }

    /// The rules of the run.
    pub fn policy(&self) -> (policy: Policy)
        ensures
            policy == self@.policy,
    {
        self.policy
    }

    /// The mints in flight, in the order of their acceptance.
    pub fn pending(&self) -> (pending: &Vec<ItemState>)
        ensures
            pending@ == self@.pending,
            self@.wf(),
    {
        proof {
            use_type_invariant(self);
        }
        &self.pending
    }

    /// The number of mints in flight.
    pub fn in_flight(&self) -> (n: usize)
        ensures
            n == self@.pending.len(),
    {
        self.pending.len()
    }

    /// Whether no mint is in flight any more, so that the run is complete.
    pub fn is_done(&self) -> (done: bool)
        ensures
            done == self@.done(),
    {
        self.pending.len() == 0
    }

    /// The records of the resolved mints, in the order of their resolution.
    pub fn records(&self) -> (records: &Vec<Record>)
        ensures
            views(records@) == self@.records,
            self@.wf(),
    {
        proof {
            use_type_invariant(self);
        }
        &self.records
    }

    /// The notices of the retries issued so far, in the order of their issue.
    pub fn notices(&self) -> (notices: &Vec<Record>)
        ensures
            views(notices@) == self@.notices,
    {
        &self.notices
    }

    /// The counts a progress display shows: the mints resolved as created,
    /// those resolved otherwise, and the retries issued.
    pub fn tally(&self) -> (tally: Tally)
        ensures
            tally.failed == failures(self@.records),
            tally.succeeded == self@.records.len() - failures(self@.records),
            tally.retried == self@.notices.len(),
    {
        let failed = count_failures(&self.records);
        Tally {
            succeeded: self.records.len() - failed,
            failed,
            retried: self.notices.len(),
        }
    }

    /// Ends the run and hands out the records of the resolved mints and the
    /// notices of the retries, each in order.
    pub fn finish(self) -> (report: (Vec<Record>, Vec<Record>))
        ensures
            views(report.0@) == self@.records,
            views(report.1@) == self@.notices,
    {
        (self.records, self.notices)
    }

    /// What follows a round: nothing when no mint is in flight, otherwise a
    /// wait of the poll interval before the next round.
    pub fn next(&self) -> (next: Next)
        ensures
            next == next_after(self@),
    {
        if self.pending.len() == 0 {
            Next::Finished
        } else {
            Next::Sleep(self.policy.poll_interval)
        }
    }

    /// Applies one observation. The mint it names, if in flight, is looked
    /// at as [`visit`] describes: resolved mints leave the in-flight set and
    /// their record is kept; retried mints stay and their notice is kept.
    pub fn observe(&mut self, obs: &Observation) -> (reaction: Reaction)
        ensures
            final(self)@ == observe(old(self)@, obs@),
            reaction == reaction_to(old(self)@, obs@),
            final(self)@.wf(),
    {
        proof {
            use_type_invariant(&*self);
            lemma_observe_wf(self@, obs@);
        }
        let ghost before = self@;
        match locate(&self.pending, obs.mint_id) {
            None => Reaction::Ignored,
            Some(i) => {
                let mut item = self.pending[i];
                let verdict = visit(&mut item, obs.at, &self.policy, &obs.checked);
                match verdict {
                    Verdict::Pending => Reaction::Waiting,
                    Verdict::Retried(notice) => {
                        let mut pending: Vec<ItemState> = Vec::new();
                        core::mem::swap(&mut pending, &mut self.pending);
                        pending.set(i, item);
                        let mut notices: Vec<Record> = Vec::new();
                        core::mem::swap(&mut notices, &mut self.notices);
                        notices.push(notice);
                        proof {
                            assert(views(notices@) =~= before.notices.push(notice@));
                        }
                        self.notices = notices;
                        self.pending = pending;
                        Reaction::Retry
                    },
                    Verdict::Resolved(record) => {
                        let success = record.success;
                        let mut pending: Vec<ItemState> = Vec::new();
                        core::mem::swap(&mut pending, &mut self.pending);
                        pending.remove(i);
                        let mut records: Vec<Record> = Vec::new();
                        core::mem::swap(&mut records, &mut self.records);
                        records.push(record);
                        proof {
                            assert(views(records@) =~= before.records.push(record@));
                        }
                        self.pending = pending;
                        self.records = records;
                        Reaction::Resolved(success)
                    },
                }
            },
        }
    }

    /// Applies the observations of one round, in order, and says what
    /// follows: a wait of the poll interval while mints are in flight,
    /// nothing once none is.
    pub fn round(&mut self, events: &Vec<Observation>) -> (next: Next)
        ensures
            final(self)@ == replay(old(self)@, observations(events@)),
            next == next_after(final(self)@),
            final(self)@.wf(),
    {
        proof {
            use_type_invariant(&*self);
        }
        let ghost before = self@;
        let mut i: usize = 0;
        while i < events.len()
            invariant
                i <= events.len(),
                self@ == replay(before, observations(events@.take(i as int))),
                self@.wf(),
            decreases events.len() - i,
        {
            proof {
                let now = observations(events@.take(i as int + 1));
                assert(now.drop_last() =~= observations(events@.take(i as int)));
                assert(now.last() == events@[i as int]@);
            }
            self.observe(&events[i]);
            i += 1;
        }
        proof {
            assert(events@.take(i as int) =~= events@);
        }
        self.next()
    }
}

} // verus!
