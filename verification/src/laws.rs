//! What holds of every run of the engine, whatever the service answers.

use vstd::prelude::*;
use crate::accepted::{accepted_ids, Acceptance};
use crate::clock::Timestamp;
use crate::dispatch::{
    initial, lemma_completed_wf, lemma_initial_wf, lemma_launched_wf, lemma_rested_wf, Command,
    DispatcherView,
};
use crate::ids::{holds, lemma_holds, lemma_slot_of, slot_of};
use crate::item::{bumped, look, record_at, timed_out, ItemState, Policy, VerdictView};
use crate::reconcile::{
    item_ids, lemma_replay_wf, lemma_start_wf, observe, reaction_to, replay, start, ObservationView,
    Reaction, ReconcilerView,
};
use crate::record::{record_ids, RecordView};
use crate::remote::CheckedView;

verus! {

/// Whether a mint is in flight.
pub open spec fn in_flight(v: ReconcilerView, mint_id: u128) -> bool {
    holds(item_ids(v.pending), mint_id)
}

/// Whether a mint is resolved.
pub open spec fn resolved(v: ReconcilerView, mint_id: u128) -> bool {
    record_ids(v.records).contains(mint_id)
}

/// The state of a mint in flight.
pub open spec fn item_of(v: ReconcilerView, mint_id: u128) -> ItemState {
    v.pending[slot_of(item_ids(v.pending), mint_id)]
}

/// One observation moves no mint in or out of the engine: the mints in
/// flight and the resolved ones together stay the same, and so does their
/// number. A mint in flight afterwards was in flight before, and a resolved
/// one stays resolved.
pub proof fn lemma_observe_keeps_mints(v: ReconcilerView, obs: ObservationView)
    ensures
        observe(v, obs).pending.len() + observe(v, obs).records.len() == v.pending.len()
            + v.records.len(),
        observe(v, obs).pending.len() <= v.pending.len(),
        forall|id: u128|
            (in_flight(v, id) || resolved(v, id)) <==> (in_flight(observe(v, obs), id) || resolved(
                observe(v, obs),
                id,
            )),
        forall|id: u128| in_flight(observe(v, obs), id) ==> in_flight(v, id),
        forall|id: u128| resolved(v, id) ==> resolved(observe(v, obs), id),
{
    let w = observe(v, obs);
    let ids = item_ids(v.pending);
    lemma_slot_of(ids, obs.mint_id);
    let slot = slot_of(ids, obs.mint_id);
    assert forall|id: u128|
        ((in_flight(v, id) || resolved(v, id)) <==> (in_flight(w, id) || resolved(w, id))) && (
        in_flight(w, id) ==> in_flight(v, id)) && (resolved(v, id) ==> resolved(w, id)) by {
        lemma_slot_of(ids, id);
        lemma_slot_of(item_ids(w.pending), id);
        let a = slot_of(ids, id);
        let b = slot_of(item_ids(w.pending), id);
        if slot < v.pending.len() {
            let (item, verdict) = look(v.pending[slot], obs.at, v.policy, obs.checked);
            match verdict {
                VerdictView::Pending => {},
                VerdictView::Retried(notice) => {
                    assert(item_ids(w.pending) =~= ids);
                },
                VerdictView::Resolved(record) => {
                    assert(item_ids(w.pending) =~= ids.remove(slot));
                    assert(record_ids(w.records) =~= record_ids(v.records).push(ids[slot]));
                    if in_flight(w, id) {
                        let b0 = if b < slot { b } else { b + 1 };
                        assert(ids[b0] == id);
                    }
                    if resolved(v, id) {
                        let j = choose|j: int|
                            0 <= j < record_ids(v.records).len() && record_ids(v.records)[j] == id;
                        assert(record_ids(w.records)[j] == id);
                    }
                    if resolved(w, id) && !resolved(v, id) {
                        let j = choose|j: int|
                            0 <= j < record_ids(w.records).len() && record_ids(w.records)[j] == id;
                        if j < v.records.len() {
                            assert(record_ids(v.records)[j] == id);
                        }
                        assert(id == ids[slot]);
                    }
                    if in_flight(v, id) && !in_flight(w, id) {
                        if a != slot {
                            let a1 = if a < slot { a } else { a - 1 };
                            assert(item_ids(w.pending)[a1] == id);
                        }
                        assert(record_ids(w.records)[v.records.len() as int] == ids[slot]);
                    }
                },
            }
        }
    }
}

/// Any sequence of observations moves no mint in or out of the engine.
pub proof fn lemma_replay_keeps_mints(v: ReconcilerView, events: Seq<ObservationView>)
    ensures
        replay(v, events).pending.len() + replay(v, events).records.len() == v.pending.len()
            + v.records.len(),
        replay(v, events).pending.len() <= v.pending.len(),
        forall|id: u128|
            (in_flight(v, id) || resolved(v, id)) <==> (in_flight(replay(v, events), id)
                || resolved(replay(v, events), id)),
        forall|id: u128| in_flight(replay(v, events), id) ==> in_flight(v, id),
        forall|id: u128| resolved(v, id) ==> resolved(replay(v, events), id),
    decreases events.len(),
{
    if events.len() > 0 {
        lemma_replay_keeps_mints(v, events.drop_last());
        lemma_observe_keeps_mints(replay(v, events.drop_last()), events.last());
    }
}

/// Every accepted mint is accounted for exactly once. In a run that starts
/// from mints accepted once each, after any observations: each accepted mint
/// is either in flight or resolved, never both and never twice; nothing else
/// is; and the mints in flight and the records together number the accepted
/// mints. Once no mint is in flight there is exactly one record per
/// accepted mint.
pub proof fn law_coverage(entries: Seq<Acceptance>, policy: Policy, events: Seq<ObservationView>)
    requires
        accepted_ids(entries).no_duplicates(),
    ensures
        ({
            let v = replay(start(entries, policy), events);
            &&& v.wf()
            &&& v.pending.len() + v.records.len() == entries.len()
            &&& forall|id: u128|
                accepted_ids(entries).contains(id) <==> (in_flight(v, id) || resolved(v, id))
            &&& forall|id: u128| !(in_flight(v, id) && resolved(v, id))
            &&& v.done() ==> {
                &&& v.records.len() == entries.len()
                &&& record_ids(v.records).no_duplicates()
                &&& forall|id: u128| accepted_ids(entries).contains(id) <==> resolved(v, id)
            }
        }),
{
    let first = start(entries, policy);
    let v = replay(first, events);
    lemma_start_wf(entries, policy);
    lemma_replay_wf(first, events);
    lemma_replay_keeps_mints(first, events);
    assert(item_ids(first.pending) =~= accepted_ids(entries));
    assert(record_ids(first.records) =~= Seq::<u128>::empty());
    assert forall|id: u128| accepted_ids(entries).contains(id) <==> (in_flight(v, id) || resolved(
        v,
        id,
    )) by {
        lemma_holds(accepted_ids(entries), id);
        assert(!resolved(first, id));
    }
    assert forall|id: u128| !(in_flight(v, id) && resolved(v, id)) by {
        if in_flight(v, id) && resolved(v, id) {
            lemma_slot_of(item_ids(v.pending), id);
            let i = slot_of(item_ids(v.pending), id);
            let j = choose|j: int|
                0 <= j < record_ids(v.records).len() && record_ids(v.records)[j] == id;
            assert(v.pending[i].mint_id != v.records[j].mint_id);
        }
    }
    if v.done() {
        assert forall|id: u128| !in_flight(v, id) by {
            lemma_slot_of(item_ids(v.pending), id);
        }
    }
}

/// A run-out pending window decides. Where a mint in flight is looked at
/// after its window has run out, it is resolved as timed out in that very
/// observation, whatever the status call found or would have found: it
/// leaves the in-flight set, and the one record added is a failure with the
/// reason `timeout`.
pub proof fn law_timeout_priority(
    v: ReconcilerView,
    mint_id: u128,
    at: Timestamp,
    checked: CheckedView,
)
    requires
        in_flight(v, mint_id),
        timed_out(item_of(v, mint_id), at, v.policy.pending_timeout),
    ensures
        ({
            let slot = slot_of(item_ids(v.pending), mint_id);
            let w = observe(v, ObservationView { mint_id, at, checked });
            &&& w.pending == v.pending.remove(slot)
            &&& w.records == v.records.push(record_at(item_of(v, mint_id), at, false, "timeout"@))
            &&& w.notices == v.notices
            &&& reaction_to(v, ObservationView { mint_id, at, checked }) == Reaction::Resolved(false)
        }),
{
}

/// The retry counts on the notices and records agree with the order in which
/// they came about: of two notices for one mint the later never counts
/// fewer retries, and no notice counts more retries than the mint's state in
/// flight or its record.
pub open spec fn counts_in_order(v: ReconcilerView) -> bool {
    &&& forall|i: int, j: int|
        0 <= i < j < v.notices.len() && (#[trigger] v.notices[i]).mint_id == (
        #[trigger] v.notices[j]).mint_id ==> v.notices[i].retry_count <= v.notices[j].retry_count
    &&& forall|i: int, k: int|
        0 <= i < v.notices.len() && 0 <= k < v.pending.len() && (#[trigger] v.notices[i]).mint_id
            == (#[trigger] v.pending[k]).mint_id ==> v.notices[i].retry_count
            <= v.pending[k].retry_count
    &&& forall|i: int, j: int|
        0 <= i < v.notices.len() && 0 <= j < v.records.len() && (#[trigger] v.notices[i]).mint_id
            == (#[trigger] v.records[j]).mint_id ==> v.notices[i].retry_count
            <= v.records[j].retry_count
}

/// One observation keeps the retry counts in order.
pub proof fn lemma_observe_counts(v: ReconcilerView, obs: ObservationView)
    requires
        v.wf(),
        counts_in_order(v),
    ensures
        counts_in_order(observe(v, obs)),
{
    let w = observe(v, obs);
    let ids = item_ids(v.pending);
    lemma_slot_of(ids, obs.mint_id);
    let slot = slot_of(ids, obs.mint_id);
    if slot < v.pending.len() {
        let old_item = v.pending[slot];
        let (item, verdict) = look(old_item, obs.at, v.policy, obs.checked);
        match verdict {
            VerdictView::Pending => {},
            VerdictView::Retried(notice) => {
                assert(notice.mint_id == old_item.mint_id);
                assert(notice.retry_count == item.retry_count);
                assert(item.retry_count >= old_item.retry_count);
                assert forall|i: int, j: int|
                    0 <= i < j < w.notices.len() && (#[trigger] w.notices[i]).mint_id == (
                    #[trigger] w.notices[j]).mint_id implies w.notices[i].retry_count
                    <= w.notices[j].retry_count by {
                    assert(w.notices[i] == v.notices[i]);
                    if j < v.notices.len() {
                        assert(w.notices[j] == v.notices[j]);
                    } else {
                        assert(v.notices[i].mint_id == v.pending[slot].mint_id);
                    }
                }
                assert forall|i: int, k: int|
                    0 <= i < w.notices.len() && 0 <= k < w.pending.len() && (
                    #[trigger] w.notices[i]).mint_id == (#[trigger] w.pending[k]).mint_id implies
                    w.notices[i].retry_count <= w.pending[k].retry_count by {
                    if k != slot {
                        assert(w.pending[k] == v.pending[k]);
                        if i < v.notices.len() {
                            assert(w.notices[i] == v.notices[i]);
                        } else {
                            assert(ids[k] == ids[slot]);
                        }
                    } else {
                        if i < v.notices.len() {
                            assert(w.notices[i] == v.notices[i]);
                            assert(v.notices[i].mint_id == v.pending[slot].mint_id);
                        }
                    }
                }
                assert forall|i: int, j: int|
                    0 <= i < w.notices.len() && 0 <= j < w.records.len() && (
                    #[trigger] w.notices[i]).mint_id == (#[trigger] w.records[j]).mint_id implies
                    w.notices[i].retry_count <= w.records[j].retry_count by {
                    if i < v.notices.len() {
                        assert(w.notices[i] == v.notices[i]);
                    } else {
                        assert(v.pending[slot].mint_id != v.records[j].mint_id);
                    }
                }
            },
            VerdictView::Resolved(record) => {
                assert(record.mint_id == old_item.mint_id);
                assert(record.retry_count == old_item.retry_count);
                assert forall|i: int, k: int|
                    0 <= i < w.notices.len() && 0 <= k < w.pending.len() && (
                    #[trigger] w.notices[i]).mint_id == (#[trigger] w.pending[k]).mint_id implies
                    w.notices[i].retry_count <= w.pending[k].retry_count by {
                    let k0 = if k < slot { k } else { k + 1 };
                    assert(w.pending[k] == v.pending[k0]);
                }
                assert forall|i: int, j: int|
                    0 <= i < w.notices.len() && 0 <= j < w.records.len() && (
                    #[trigger] w.notices[i]).mint_id == (#[trigger] w.records[j]).mint_id implies
                    w.notices[i].retry_count <= w.records[j].retry_count by {
                    if j < v.records.len() {
                        assert(w.records[j] == v.records[j]);
                    } else {
                        assert(v.notices[i].mint_id == v.pending[slot].mint_id);
                    }
                }
            },
        }
    }
}

/// Retry counts never go down. In a run that starts from mints accepted
/// once each, after any observations: of two notices for one mint the later
/// never counts fewer retries than the earlier, and neither the state of the
/// mint in flight nor its final record counts fewer retries than any of its
/// notices.
pub proof fn law_retry_counts_in_order(
    entries: Seq<Acceptance>,
    policy: Policy,
    events: Seq<ObservationView>,
)
    requires
        accepted_ids(entries).no_duplicates(),
    ensures
        counts_in_order(replay(start(entries, policy), events)),
    decreases events.len(),
{
    let first = start(entries, policy);
    lemma_start_wf(entries, policy);
    if events.len() > 0 {
        law_retry_counts_in_order(entries, policy, events.drop_last());
        lemma_replay_wf(first, events.drop_last());
        lemma_observe_counts(replay(first, events.drop_last()), events.last());
    }
}

/// An observation never lowers the retry count of a mint that stays in
/// flight, never moves its acceptance time, and never moves the start of
/// its pending window backwards.
pub proof fn law_item_only_advances(v: ReconcilerView, obs: ObservationView, mint_id: u128)
    requires
        v.wf(),
        in_flight(observe(v, obs), mint_id),
    ensures
        in_flight(v, mint_id),
        item_of(observe(v, obs), mint_id).retry_count >= item_of(v, mint_id).retry_count,
        item_of(observe(v, obs), mint_id).start_time == item_of(v, mint_id).start_time,
        item_of(observe(v, obs), mint_id).last_pending_time >= item_of(
            v,
            mint_id,
        ).last_pending_time,
{
    let w = observe(v, obs);
    let ids = item_ids(v.pending);
    lemma_observe_keeps_mints(v, obs);
    lemma_slot_of(ids, obs.mint_id);
    lemma_slot_of(ids, mint_id);
    lemma_slot_of(item_ids(w.pending), mint_id);
    let slot = slot_of(ids, obs.mint_id);
    let a = slot_of(ids, mint_id);
    let b = slot_of(item_ids(w.pending), mint_id);
    if slot < v.pending.len() {
        let (item, verdict) = look(v.pending[slot], obs.at, v.policy, obs.checked);
        match verdict {
            VerdictView::Pending => {},
            VerdictView::Retried(notice) => {
                assert(item_ids(w.pending) =~= ids);
            },
            VerdictView::Resolved(record) => {
                assert(item_ids(w.pending) =~= ids.remove(slot));
                let b0 = if b < slot { b } else { b + 1 };
                assert(ids[b0] == mint_id);
                assert(ids[a] == mint_id);
                assert(a == b0);
            },
        }
    }
}

/// Whether no retry was ever issued: there is no notice, and every mint in
/// flight and every record counts zero retries.
pub open spec fn never_retried(v: ReconcilerView) -> bool {
    &&& v.notices.len() == 0
    &&& forall|k: int| 0 <= k < v.pending.len() ==> (#[trigger] v.pending[k]).retry_count == 0
    &&& forall|j: int| 0 <= j < v.records.len() ==> (#[trigger] v.records[j]).retry_count == 0
}

/// Without retries every count is zero. In a run whose policy disables
/// retries, after any observations, no notice exists and every mint in
/// flight and every record counts zero retries.
pub proof fn law_no_retries_when_disabled(
    entries: Seq<Acceptance>,
    policy: Policy,
    events: Seq<ObservationView>,
)
    requires
        !policy.retry_enabled,
    ensures
        never_retried(replay(start(entries, policy), events)),
        replay(start(entries, policy), events).policy == policy,
    decreases events.len(),
{
    if events.len() > 0 {
        law_no_retries_when_disabled(entries, policy, events.drop_last());
        let v = replay(start(entries, policy), events.drop_last());
        let obs = events.last();
        let w = observe(v, obs);
        let slot = slot_of(item_ids(v.pending), obs.mint_id);
        lemma_slot_of(item_ids(v.pending), obs.mint_id);
        if slot < v.pending.len() {
            assert(v.pending[slot].retry_count == 0);
            assert forall|k: int| 0 <= k < w.pending.len() implies (
            #[trigger] w.pending[k]).retry_count == 0 by {
                let k0 = if k < slot { k } else { k + 1 };
                if w.pending.len() < v.pending.len() {
                    assert(w.pending[k] == v.pending[k0]);
                } else {
                    assert(w.pending[k] == v.pending[k]);
                }
            }
            assert forall|j: int| 0 <= j < w.records.len() implies (
            #[trigger] w.records[j]).retry_count == 0 by {
                if j < v.records.len() {
                    assert(w.records[j] == v.records[j]);
                }
            }
        }
    }
}

/// Whether a look resolves the mint: its pending window has run out, or the
/// status call succeeded, failed outright, or reported a failure while
/// retries are disabled.
pub open spec fn resolving(item: ItemState, at: Timestamp, policy: Policy, checked: CheckedView) -> bool {
    look(item, at, policy, checked).1 is Resolved
}

/// Whether a finding settles a mint whenever it is made: the mint was
/// created, the status call failed, or the mint failed while retries are
/// disabled.
pub open spec fn decisive(checked: CheckedView, policy: Policy) -> bool {
    match checked {
        CheckedView::Succeeded => true,
        CheckedView::Error(_) => true,
        CheckedView::Failed => !policy.retry_enabled,
        CheckedView::Pending => false,
    }
}

/// Whether the observation at position `k` is a look at `mint_id` that
/// resolves it, should it still be in flight by then.
pub open spec fn resolves_at(
    v: ReconcilerView,
    events: Seq<ObservationView>,
    k: int,
    mint_id: u128,
) -> bool {
    let then = replay(v, events.take(k));
    &&& 0 <= k < events.len()
    &&& events[k].mint_id == mint_id
    &&& in_flight(then, mint_id) ==> resolving(
        item_of(then, mint_id),
        events[k].at,
        v.policy,
        events[k].checked,
    )
}

/// Whether some observation is a look at `mint_id` that resolves it.
pub open spec fn eventually_resolved(
    v: ReconcilerView,
    events: Seq<ObservationView>,
    mint_id: u128,
) -> bool {
    exists|k: int| resolves_at(v, events, k, mint_id)
}

/// Whether some observation finds `mint_id` in a state that settles it.
pub open spec fn eventually_decided(
    policy: Policy,
    events: Seq<ObservationView>,
    mint_id: u128,
) -> bool {
    exists|k: int|
        0 <= k < events.len() && (#[trigger] events[k]).mint_id == mint_id && decisive(
            events[k].checked,
            policy,
        )
}

/// A resolving look takes the mint out of flight.
pub proof fn lemma_resolving_removes(v: ReconcilerView, obs: ObservationView)
    requires
        v.wf(),
        in_flight(v, obs.mint_id),
        resolving(item_of(v, obs.mint_id), obs.at, v.policy, obs.checked),
    ensures
        !in_flight(observe(v, obs), obs.mint_id),
        observe(v, obs).pending.len() == v.pending.len() - 1,
{
    let w = observe(v, obs);
    let ids = item_ids(v.pending);
    lemma_slot_of(ids, obs.mint_id);
    let slot = slot_of(ids, obs.mint_id);
    assert(item_ids(w.pending) =~= ids.remove(slot));
    lemma_slot_of(item_ids(w.pending), obs.mint_id);
    let b = slot_of(item_ids(w.pending), obs.mint_id);
    if b < w.pending.len() {
        let b0 = if b < slot { b } else { b + 1 };
        assert(ids[b0] == ids[slot]);
    }
}

/// The rules of a run never change.
pub proof fn lemma_replay_policy(v: ReconcilerView, events: Seq<ObservationView>)
    ensures
        replay(v, events).policy == v.policy,
    decreases events.len(),
{
    if events.len() > 0 {
        lemma_replay_policy(v, events.drop_last());
    }
}

/// A mint that meets a resolving look is out of flight from then on.
pub proof fn lemma_resolved_stays_out(
    v: ReconcilerView,
    events: Seq<ObservationView>,
    k: int,
    mint_id: u128,
)
    requires
        v.wf(),
        resolves_at(v, events, k, mint_id),
    ensures
        !in_flight(replay(v, events), mint_id),
    decreases events.len(),
{
    let before = replay(v, events.drop_last());
    lemma_replay_wf(v, events.drop_last());
    lemma_replay_policy(v, events.drop_last());
    lemma_observe_keeps_mints(before, events.last());
    if k == events.len() - 1 {
        assert(events.take(k) =~= events.drop_last());
        if in_flight(before, mint_id) {
            lemma_resolving_removes(before, events.last());
        }
    } else {
        assert(events.drop_last().take(k) =~= events.take(k));
        lemma_resolved_stays_out(v, events.drop_last(), k, mint_id);
    }
}

/// The run ends once every mint has met a resolving look. If each mint in
/// flight is, at some point of the observations, looked at after its pending
/// window has run out or found in a state that settles it, then no mint is
/// in flight after the observations. Mints that are retried for ever are
/// the ones that never meet such a look.
pub proof fn law_termination(v: ReconcilerView, events: Seq<ObservationView>)
    requires
        v.wf(),
        forall|s: int|
            0 <= s < v.pending.len() ==> eventually_resolved(
                v,
                events,
                (#[trigger] v.pending[s]).mint_id,
            ),
    ensures
        replay(v, events).done(),
{
    let w = replay(v, events);
    lemma_replay_keeps_mints(v, events);
    if w.pending.len() > 0 {
        let id = w.pending[0].mint_id;
        assert(item_ids(w.pending)[0] == id);
        lemma_holds(item_ids(w.pending), id);
        assert(in_flight(w, id));
        assert(in_flight(v, id));
        lemma_slot_of(item_ids(v.pending), id);
        let s = slot_of(item_ids(v.pending), id);
        assert(eventually_resolved(v, events, v.pending[s].mint_id));
        let k = choose|k: int| resolves_at(v, events, k, id);
        lemma_resolved_stays_out(v, events, k, id);
    }
}

/// A service that settles every mint ends the run. If each mint in flight
/// is, at some point of the observations, found created, found failed while
/// retries are disabled, or met with a failed status call, then no mint is
/// in flight after the observations, whatever the times of the looks.
pub proof fn law_termination_by_status(v: ReconcilerView, events: Seq<ObservationView>)
    requires
        v.wf(),
        forall|s: int|
            0 <= s < v.pending.len() ==> eventually_decided(
                v.policy,
                events,
                (#[trigger] v.pending[s]).mint_id,
            ),
    ensures
        replay(v, events).done(),
{
    assert forall|s: int| 0 <= s < v.pending.len() implies eventually_resolved(
        v,
        events,
        (#[trigger] v.pending[s]).mint_id,
    ) by {
        let id = v.pending[s].mint_id;
        assert(eventually_decided(v.policy, events, id));
        let k = choose|k: int|
            0 <= k < events.len() && (#[trigger] events[k]).mint_id == id && decisive(
                events[k].checked,
                v.policy,
            );
        lemma_replay_policy(v, events.take(k));
        assert(resolves_at(v, events, k, id));
    }
    law_termination(v, events);
}

/// The run cannot end before every mint has met a resolving look: a mint in
/// flight which no observation resolves is still in flight afterwards.
pub proof fn law_unresolved_stays_in_flight(
    v: ReconcilerView,
    events: Seq<ObservationView>,
    mint_id: u128,
)
    requires
        v.wf(),
        in_flight(v, mint_id),
        forall|k: int| !resolves_at(v, events, k, mint_id),
    ensures
        in_flight(replay(v, events), mint_id),
    decreases events.len(),
{
    if events.len() > 0 {
        let rest = events.drop_last();
        let k = events.len() - 1;
        assert(events.take(k) =~= rest);
        assert forall|j: int| !resolves_at(v, rest, j, mint_id) by {
            if 0 <= j < rest.len() {
                assert(rest.take(j) =~= events.take(j));
                assert(!resolves_at(v, events, j, mint_id));
            }
        }
        law_unresolved_stays_in_flight(v, rest, mint_id);
        let before = replay(v, rest);
        lemma_replay_wf(v, rest);
        lemma_replay_policy(v, rest);
        assert(!resolves_at(v, events, k, mint_id));
        let obs = events.last();
        let ids = item_ids(before.pending);
        lemma_slot_of(ids, obs.mint_id);
        lemma_slot_of(ids, mint_id);
        let slot = slot_of(ids, obs.mint_id);
        let a = slot_of(ids, mint_id);
        let w = observe(before, obs);
        if slot < before.pending.len() {
            let (item, verdict) = look(before.pending[slot], obs.at, before.policy, obs.checked);
            match verdict {
                VerdictView::Pending => {},
                VerdictView::Retried(notice) => {
                    assert(item_ids(w.pending) =~= ids);
                },
                VerdictView::Resolved(record) => {
                    assert(obs.mint_id != mint_id);
                    assert(item_ids(w.pending) =~= ids.remove(slot));
                    let a1 = if a < slot { a } else { a - 1 };
                    assert(item_ids(w.pending)[a1] == mint_id);
                    lemma_holds(item_ids(w.pending), mint_id);
                },
            }
        }
    }
}

/// What can happen during the submission phase.
pub enum DispatchEvent {
    /// The driver asked for a permit to send a request.
    Launch,
    /// A request completed, with the mint it brought in, if any, and the time it began.
    Complete(Option<u128>, Timestamp),
    /// The wait between two rounds ended.
    Rested,
}

/// The submission phase after one event.
pub open spec fn dispatch_step(v: DispatcherView, event: DispatchEvent) -> DispatcherView {
    match event {
        DispatchEvent::Launch => v.launched_one(),
        DispatchEvent::Complete(accepted, started_at) => v.completed_one(accepted, started_at),
        DispatchEvent::Rested => v.rested(),
    }
}

/// The submission phase after a sequence of events, in order.
pub open spec fn dispatch_run(v: DispatcherView, events: Seq<DispatchEvent>) -> DispatcherView
    decreases events.len(),
{
    if events.len() == 0 {
        v
    } else {
        dispatch_step(dispatch_run(v, events.drop_last()), events.last())
    }
}

/// Submissions are bounded. Whatever happens during the submission phase,
/// in whatever order, the requests in progress never exceed the parallelism
/// the phase was set up with, nor the requests sent in the current round;
/// and the shape of the phase stays what it was set up with.
pub proof fn law_bounded_submissions(
    parallelism: usize,
    iterations: usize,
    delay: u64,
    events: Seq<DispatchEvent>,
)
    ensures
        ({
            let v = dispatch_run(initial(parallelism, iterations, delay), events);
            &&& v.wf()
            &&& v.parallelism == parallelism
            &&& v.iterations == iterations
            &&& v.delay == delay
            &&& v.outstanding <= v.launched <= parallelism
        }),
    decreases events.len(),
{
    lemma_initial_wf(parallelism, iterations, delay);
    if events.len() > 0 {
        law_bounded_submissions(parallelism, iterations, delay, events.drop_last());
        let v = dispatch_run(initial(parallelism, iterations, delay), events.drop_last());
        match events.last() {
            DispatchEvent::Launch => lemma_launched_wf(v),
            DispatchEvent::Complete(accepted, started_at) => lemma_completed_wf(
                v,
                accepted,
                started_at,
            ),
            DispatchEvent::Rested => lemma_rested_wf(v),
        }
    }
}

/// Every attempt is counted, and only attempts bring in mints. Whatever
/// happens during the submission phase, the accepted mints never outnumber
/// the completed requests, and once the phase is finished the completed
/// requests number the iterations times the parallelism, with none in progress.
pub proof fn law_attempts_accounted(
    parallelism: usize,
    iterations: usize,
    delay: u64,
    events: Seq<DispatchEvent>,
)
    ensures
        ({
            let v = dispatch_run(initial(parallelism, iterations, delay), events);
            &&& v.accepted.len() <= v.attempts
            &&& v.attempts + v.outstanding <= iterations * parallelism
            &&& v.command() == Command::Finished ==> v.outstanding == 0 && v.attempts == iterations
                * parallelism
        }),
{
    law_bounded_submissions(parallelism, iterations, delay, events);
    let v = dispatch_run(initial(parallelism, iterations, delay), events);
    if v.rounds_done < iterations {
        assert(v.rounds_done * parallelism + parallelism <= iterations * parallelism)
            by (nonlinear_arith)
            requires
                v.rounds_done + 1 <= iterations,
                parallelism >= 0,
        ;
    }
}

/// Whether every record and notice tells why: a record's reason is empty
/// exactly where it reports a success, and every notice reports a failure
/// with a reason.
pub open spec fn reasons_told(v: ReconcilerView) -> bool {
    &&& forall|j: int|
        0 <= j < v.records.len() ==> ((#[trigger] v.records[j]).success <==> v.records[j].reason.len()
            == 0)
    &&& forall|i: int|
        0 <= i < v.notices.len() ==> !(#[trigger] v.notices[i]).success && v.notices[i].reason.len()
            > 0
}

/// One observation keeps every record and notice telling why.
pub proof fn lemma_observe_reasons(v: ReconcilerView, obs: ObservationView)
    requires
        reasons_told(v),
    ensures
        reasons_told(observe(v, obs)),
{
    reveal_strlit("timeout");
    reveal_strlit("remote rejected");
    reveal_strlit("remote rejected, retried");
    let w = observe(v, obs);
    let slot = slot_of(item_ids(v.pending), obs.mint_id);
    lemma_slot_of(item_ids(v.pending), obs.mint_id);
    if slot < v.pending.len() {
        let (item, verdict) = look(v.pending[slot], obs.at, v.policy, obs.checked);
        match verdict {
            VerdictView::Pending => {},
            VerdictView::Retried(notice) => {
                assert(!notice.success && notice.reason.len() > 0);
                assert forall|i: int| 0 <= i < w.notices.len() implies !(
                #[trigger] w.notices[i]).success && w.notices[i].reason.len() > 0 by {
                    if i < v.notices.len() {
                        assert(w.notices[i] == v.notices[i]);
                    }
                }
            },
            VerdictView::Resolved(record) => {
                assert(record.success <==> record.reason.len() == 0);
                assert forall|j: int| 0 <= j < w.records.len() implies ((
                #[trigger] w.records[j]).success <==> w.records[j].reason.len() == 0) by {
                    if j < v.records.len() {
                        assert(w.records[j] == v.records[j]);
                    }
                }
            },
        }
    }
}

/// Every failure tells why. After any observations of any run, a record has
/// an empty reason exactly where it reports a success, and every retry
/// notice reports a failure with a reason.
pub proof fn law_failures_tell_why(
    entries: Seq<Acceptance>,
    policy: Policy,
    events: Seq<ObservationView>,
)
    ensures
        reasons_told(replay(start(entries, policy), events)),
    decreases events.len(),
{
    if events.len() > 0 {
        law_failures_tell_why(entries, policy, events.drop_last());
        lemma_observe_reasons(replay(start(entries, policy), events.drop_last()), events.last());
    }
}

/// How many of the notices are for `mint_id`.
pub open spec fn notices_for(notices: Seq<RecordView>, mint_id: u128) -> nat
    decreases notices.len(),
{
    if notices.len() == 0 {
        0
    } else {
        notices_for(notices.drop_last(), mint_id) + if notices.last().mint_id == mint_id {
            1nat
        } else {
            0nat
        }
    }
}

/// A number of retries as a retry count holds it: the count stops at the largest `u64`.
pub open spec fn capped(n: nat) -> u64 {
    if n <= u64::MAX {
        n as u64
    } else {
        u64::MAX
    }
}

/// Whether every retry count is the number of retries issued: each mint in
/// flight and each record counts as many retries as there are notices for
/// its mint.
pub open spec fn counts_match(v: ReconcilerView) -> bool {
    &&& forall|k: int|
        0 <= k < v.pending.len() ==> (#[trigger] v.pending[k]).retry_count == capped(
            notices_for(v.notices, v.pending[k].mint_id),
        )
    &&& forall|j: int|
        0 <= j < v.records.len() ==> (#[trigger] v.records[j]).retry_count == capped(
            notices_for(v.notices, v.records[j].mint_id),
        )
}

/// One observation keeps every retry count the number of retries issued.
pub proof fn lemma_observe_counts_match(v: ReconcilerView, obs: ObservationView)
    requires
        v.wf(),
        counts_match(v),
    ensures
        counts_match(observe(v, obs)),
{
    let w = observe(v, obs);
    let ids = item_ids(v.pending);
    lemma_slot_of(ids, obs.mint_id);
    let slot = slot_of(ids, obs.mint_id);
    if slot < v.pending.len() {
        let old_item = v.pending[slot];
        let (item, verdict) = look(old_item, obs.at, v.policy, obs.checked);
        match verdict {
            VerdictView::Pending => {},
            VerdictView::Retried(notice) => {
                assert(w.notices.drop_last() =~= v.notices);
                assert(w.notices.last() == notice);
                assert(notice.mint_id == old_item.mint_id);
                assert(item.retry_count == bumped(old_item.retry_count));
                assert forall|k: int| 0 <= k < w.pending.len() implies (
                #[trigger] w.pending[k]).retry_count == capped(
                    notices_for(w.notices, w.pending[k].mint_id),
                ) by {
                    if k != slot {
                        assert(w.pending[k] == v.pending[k]);
                        assert(ids[k] != ids[slot]);
                    }
                }
                assert forall|j: int| 0 <= j < w.records.len() implies (
                #[trigger] w.records[j]).retry_count == capped(
                    notices_for(w.notices, w.records[j].mint_id),
                ) by {
                    assert(w.records[j] == v.records[j]);
                    assert(v.pending[slot].mint_id != v.records[j].mint_id);
                }
            },
            VerdictView::Resolved(record) => {
                assert(record.mint_id == old_item.mint_id);
                assert(record.retry_count == old_item.retry_count);
                assert forall|k: int| 0 <= k < w.pending.len() implies (
                #[trigger] w.pending[k]).retry_count == capped(
                    notices_for(w.notices, w.pending[k].mint_id),
                ) by {
                    let k0 = if k < slot { k } else { k + 1 };
                    assert(w.pending[k] == v.pending[k0]);
                }
                assert forall|j: int| 0 <= j < w.records.len() implies (
                #[trigger] w.records[j]).retry_count == capped(
                    notices_for(w.notices, w.records[j].mint_id),
                ) by {
                    if j < v.records.len() {
                        assert(w.records[j] == v.records[j]);
                    }
                }
            },
        }
    }
}

/// A retry count is the number of retries issued. In a run that starts from
/// mints accepted once each, after any observations, each mint in flight
/// and each record counts exactly as many retries as there are notices for
/// its mint (a count never passes the largest `u64`).
pub proof fn law_retry_count_is_notices(
    entries: Seq<Acceptance>,
    policy: Policy,
    events: Seq<ObservationView>,
)
    requires
        accepted_ids(entries).no_duplicates(),
    ensures
        counts_match(replay(start(entries, policy), events)),
    decreases events.len(),
{
    let first = start(entries, policy);
    lemma_start_wf(entries, policy);
    if events.len() > 0 {
        law_retry_count_is_notices(entries, policy, events.drop_last());
        lemma_replay_wf(first, events.drop_last());
        lemma_observe_counts_match(replay(first, events.drop_last()), events.last());
    }
}

/// How many waits between rounds were taken during the events: the ends of
/// a wait that came while one was due.
pub open spec fn waits_taken(v: DispatcherView, events: Seq<DispatchEvent>) -> nat
    decreases events.len(),
{
    if events.len() == 0 {
        0
    } else {
        waits_taken(v, events.drop_last()) + if events.last() is Rested && dispatch_run(
            v,
            events.drop_last(),
        ).resting {
            1nat
        } else {
            0nat
        }
    }
}

/// The waits that a phase in state `v` has behind it when it is in step.
pub open spec fn waits_due(v: DispatcherView) -> int {
    if v.rounds_done == v.iterations {
        if v.iterations == 0 {
            0
        } else {
            v.iterations - 1
        }
    } else if v.resting {
        v.rounds_done - 1
    } else {
        v.rounds_done as int
    }
}

/// Rounds are separated by one wait each. Whatever happens during the
/// submission phase, a wait was taken after every complete round but the
/// last; a finished phase of at least one iteration has taken exactly one
/// wait fewer than it has iterations.
pub proof fn law_one_wait_between_rounds(
    parallelism: usize,
    iterations: usize,
    delay: u64,
    events: Seq<DispatchEvent>,
)
    ensures
        ({
            let first = initial(parallelism, iterations, delay);
            let v = dispatch_run(first, events);
            &&& waits_taken(first, events) == waits_due(v)
            &&& v.command() == Command::Finished && iterations > 0 ==> waits_taken(first, events)
                == iterations - 1
        }),
    decreases events.len(),
{
    let first = initial(parallelism, iterations, delay);
    law_bounded_submissions(parallelism, iterations, delay, events);
    if events.len() > 0 {
        law_one_wait_between_rounds(parallelism, iterations, delay, events.drop_last());
        law_bounded_submissions(parallelism, iterations, delay, events.drop_last());
    }
}

} // verus!
