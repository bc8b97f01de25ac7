use benchy::accepted::Accepted;
use benchy::clock::NANOS_PER_SEC;
use benchy::item::{ItemState, Policy};
use benchy::reconcile::{Next, Observation, Reaction, Reconciler};
use benchy::record::Tally;
use benchy::remote::Checked;

const SEC: u64 = NANOS_PER_SEC;

fn accepted(ids: &[u128]) -> Accepted {
    let mut mints = Accepted::new();
    for id in ids {
        mints.insert(*id, 0);
    }
    mints
}

fn policy(pending_timeout: u64, retry_enabled: bool) -> Policy {
    Policy { pending_timeout, poll_interval: 10, retry_enabled }
}

fn seen(mint_id: u128, at: u64, checked: Checked) -> Observation {
    Observation { mint_id, at, checked }
}

#[test]
fn all_succeed_on_first_check() {
    let mints = accepted(&[1, 2, 3]);
    let mut engine = Reconciler::new(&mints, policy(400, false));
    assert_eq!(engine.in_flight(), 3);
    let round = vec![
        seen(1, SEC, Checked::Succeeded),
        seen(2, SEC, Checked::Succeeded),
        seen(3, SEC, Checked::Succeeded),
    ];
    assert_eq!(engine.round(&round), Next::Finished);
    assert!(engine.is_done());
    let records = engine.records();
    assert_eq!(records.len(), 3);
    for (record, id) in records.iter().zip([1u128, 2, 3]) {
        assert_eq!(record.mint_id, id);
        assert!(record.success);
        assert_eq!(record.retry_count, 0);
        assert_eq!(record.reason, "");
    }
    assert!(engine.notices().is_empty());
}

#[test]
fn failed_twice_then_succeeded_with_retries() {
    let mints = accepted(&[42]);
    let mut engine = Reconciler::new(&mints, policy(400, true));
    assert_eq!(engine.observe(&seen(42, 10 * SEC, Checked::Failed)), Reaction::Retry);
    assert_eq!(engine.next(), Next::Sleep(10));
    assert_eq!(engine.observe(&seen(42, 20 * SEC, Checked::Failed)), Reaction::Retry);
    assert_eq!(engine.observe(&seen(42, 30 * SEC, Checked::Succeeded)), Reaction::Resolved(true));
    assert_eq!(engine.next(), Next::Finished);
    let (records, notices) = engine.finish();
    assert_eq!(records.len(), 1);
    assert!(records[0].success);
    assert_eq!(records[0].retry_count, 2);
    assert_eq!(records[0].completion_sec, 30);
    assert_eq!(records[0].reason, "");
    assert_eq!(notices.len(), 2);
    assert_eq!(notices[0].retry_count, 1);
    assert_eq!(notices[1].retry_count, 2);
    assert_eq!(notices[0].reason, "remote rejected, retried");
    assert!(!notices[1].success);
}

#[test]
fn always_pending_times_out_in_the_round_after_the_deadline() {
    let mints = accepted(&[7]);
    let mut engine = Reconciler::new(&mints, policy(5, false));
    assert_eq!(engine.round(&vec![seen(7, 0, Checked::Pending)]), Next::Sleep(10));
    assert_eq!(engine.in_flight(), 1);
    assert!(engine.records().is_empty());
    assert_eq!(engine.round(&vec![seen(7, 10 * SEC, Checked::Pending)]), Next::Finished);
    let records = engine.records();
    assert_eq!(records.len(), 1);
    assert!(!records[0].success);
    assert_eq!(records[0].reason, "timeout");
    assert_eq!(records[0].completion_sec, 10);
}

#[test]
fn failed_without_retries_is_not_retried() {
    let mints = accepted(&[5]);
    let mut engine = Reconciler::new(&mints, policy(400, false));
    let reaction = engine.observe(&seen(5, 2 * SEC, Checked::Failed));
    assert_eq!(reaction, Reaction::Resolved(false));
    assert_ne!(reaction, Reaction::Retry);
    let records = engine.records();
    assert_eq!(records.len(), 1);
    assert!(!records[0].success);
    assert_eq!(records[0].retry_count, 0);
    assert_eq!(records[0].reason, "remote rejected");
    assert!(engine.notices().is_empty());
    assert!(engine.is_done());
}

#[test]
fn timeout_takes_priority_over_the_status() {
    let mints = accepted(&[1, 2]);
    let mut engine = Reconciler::new(&mints, policy(5, true));
    assert_eq!(engine.observe(&seen(1, 6 * SEC, Checked::Succeeded)), Reaction::Resolved(false));
    assert_eq!(engine.observe(&seen(2, 6 * SEC, Checked::Failed)), Reaction::Resolved(false));
    let records = engine.records();
    assert_eq!(records[0].reason, "timeout");
    assert_eq!(records[1].reason, "timeout");
    assert!(engine.notices().is_empty());
}

#[test]
fn retry_refreshes_the_pending_window() {
    let mints = accepted(&[1]);
    let mut engine = Reconciler::new(&mints, policy(5, true));
    assert_eq!(engine.observe(&seen(1, 4 * SEC, Checked::Failed)), Reaction::Retry);
    assert_eq!(
        engine.pending()[0],
        ItemState { mint_id: 1, start_time: 0, last_pending_time: 4 * SEC, retry_count: 1 }
    );
    assert_eq!(engine.observe(&seen(1, 8 * SEC, Checked::Pending)), Reaction::Waiting);
    assert_eq!(engine.observe(&seen(1, 9 * SEC + 1, Checked::Pending)), Reaction::Resolved(false));
    let records = engine.records();
    assert_eq!(records[0].reason, "timeout");
    assert_eq!(records[0].retry_count, 1);
    assert_eq!(records[0].completion_sec, 9);
}

#[test]
fn status_error_is_final_even_with_retries() {
    let mints = accepted(&[1]);
    let mut engine = Reconciler::new(&mints, policy(400, true));
    let obs = seen(1, SEC, Checked::Error(String::from("Data is missing from the response")));
    assert_eq!(engine.observe(&obs), Reaction::Resolved(false));
    assert_eq!(
        engine.records()[0].reason,
        "Failed to verify mint 00000000-0000-0000-0000-000000000001: Data is missing from the response"
    );
    assert!(engine.is_done());
}

#[test]
fn unknown_and_resolved_mints_are_ignored() {
    let mints = accepted(&[1]);
    let mut engine = Reconciler::new(&mints, policy(400, false));
    assert_eq!(engine.observe(&seen(99, SEC, Checked::Succeeded)), Reaction::Ignored);
    assert_eq!(engine.in_flight(), 1);
    assert_eq!(engine.observe(&seen(1, SEC, Checked::Succeeded)), Reaction::Resolved(true));
    assert_eq!(engine.observe(&seen(1, 2 * SEC, Checked::Failed)), Reaction::Ignored);
    assert_eq!(engine.records().len(), 1);
    assert!(engine.records()[0].success);
}

#[test]
fn every_accepted_mint_gets_exactly_one_record() {
    let ids: Vec<u128> = (1..=6).collect();
    let mints = accepted(&ids);
    let mut engine = Reconciler::new(&mints, policy(50, true));
    let first = vec![
        seen(1, SEC, Checked::Succeeded),
        seen(2, SEC, Checked::Failed),
        seen(3, SEC, Checked::Pending),
        seen(4, SEC, Checked::Error(String::from("unreadable"))),
        seen(5, SEC, Checked::Pending),
        seen(6, SEC, Checked::Failed),
    ];
    assert_eq!(engine.round(&first), Next::Sleep(10));
    assert_eq!(engine.in_flight() + engine.records().len(), 6);
    let second = vec![
        seen(2, 11 * SEC, Checked::Succeeded),
        seen(3, 11 * SEC, Checked::Succeeded),
        seen(5, 11 * SEC, Checked::Pending),
        seen(6, 11 * SEC, Checked::Failed),
    ];
    assert_eq!(engine.round(&second), Next::Sleep(10));
    let third = vec![seen(5, 60 * SEC, Checked::Pending), seen(6, 21 * SEC, Checked::Succeeded)];
    assert_eq!(engine.round(&third), Next::Finished);
    let tally = engine.tally();
    assert_eq!(tally, Tally { succeeded: 4, failed: 2, retried: 3 });
    let (records, notices) = engine.finish();
    let mut resolved: Vec<u128> = records.iter().map(|r| r.mint_id).collect();
    resolved.sort();
    assert_eq!(resolved, ids);
    assert_eq!(notices.len(), 3);
    let six: Vec<u64> =
        notices.iter().filter(|n| n.mint_id == 6).map(|n| n.retry_count).collect();
    assert_eq!(six, vec![1, 2]);
    let last = records.iter().find(|r| r.mint_id == 6).unwrap();
    assert_eq!(last.retry_count, 2);
    assert!(last.success);
}

#[test]
fn a_record_counts_the_notices_of_its_mint_and_failures_tell_why() {
    let mints = accepted(&[1, 2]);
    let mut engine = Reconciler::new(&mints, policy(400, true));
    let events = vec![
        seen(1, SEC, Checked::Failed),
        seen(2, SEC, Checked::Failed),
        seen(1, 2 * SEC, Checked::Failed),
        seen(2, 2 * SEC, Checked::Error(String::new())),
        seen(1, 3 * SEC, Checked::Failed),
        seen(1, 4 * SEC, Checked::Succeeded),
    ];
    assert_eq!(engine.round(&events), Next::Finished);
    let (records, notices) = engine.finish();
    for record in &records {
        let issued = notices.iter().filter(|n| n.mint_id == record.mint_id).count() as u64;
        assert_eq!(record.retry_count, issued);
        assert_eq!(record.success, record.reason.is_empty());
    }
    assert_eq!(records.iter().map(|r| r.retry_count).collect::<Vec<u64>>(), vec![1, 3]);
    assert!(notices.iter().all(|n| !n.success && !n.reason.is_empty()));
}

#[test]
fn retry_count_stays_zero_without_retries() {
    let mints = accepted(&[1, 2, 3]);
    let mut engine = Reconciler::new(&mints, policy(5, false));
    let events = vec![
        seen(1, SEC, Checked::Failed),
        seen(2, SEC, Checked::Pending),
        seen(3, SEC, Checked::Error(String::from("x"))),
        seen(2, 9 * SEC, Checked::Pending),
    ];
    assert_eq!(engine.round(&events), Next::Finished);
    assert!(engine.notices().is_empty());
    assert!(engine.records().iter().all(|r| r.retry_count == 0));
    assert_eq!(engine.records().len(), 3);
}

#[test]
fn empty_run_is_done_at_once() {
    let mints = Accepted::new();
    let mut engine = Reconciler::new(&mints, policy(5, true));
    assert!(engine.is_done());
    assert_eq!(engine.next(), Next::Finished);
    assert_eq!(engine.round(&Vec::new()), Next::Finished);
    assert_eq!(engine.tally(), Tally { succeeded: 0, failed: 0, retried: 0 });
    assert_eq!(engine.policy(), policy(5, true));
}

#[test]
fn survivors_keep_their_order() {
    let mints = accepted(&[10, 20, 30]);
    let mut engine = Reconciler::new(&mints, policy(400, false));
    assert_eq!(engine.observe(&seen(20, SEC, Checked::Succeeded)), Reaction::Resolved(true));
    let left: Vec<u128> = engine.pending().iter().map(|i| i.mint_id).collect();
    assert_eq!(left, vec![10, 30]);
}
