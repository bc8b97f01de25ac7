use benchy::clock::NANOS_PER_SEC;
use benchy::item::{handle_status, visit, ItemState, Policy, Verdict};
use benchy::remote::Checked;

const SEC: u64 = NANOS_PER_SEC;

fn policy(retry_enabled: bool) -> Policy {
    Policy { pending_timeout: 5, poll_interval: 10, retry_enabled }
}

#[test]
fn new_item_starts_its_window_at_acceptance() {
    let item = ItemState::new(9, 3 * SEC);
    assert_eq!(
        item,
        ItemState { mint_id: 9, start_time: 3 * SEC, last_pending_time: 3 * SEC, retry_count: 0 }
    );
}

#[test]
fn overdue_is_strictly_after_the_timeout() {
    let item = ItemState::new(1, 10 * SEC);
    assert!(!item.overdue(15 * SEC, 5));
    assert!(item.overdue(15 * SEC + 1, 5));
    assert!(!item.overdue(0, 5));
}

#[test]
fn success_resolves_with_empty_reason() {
    let mut item = ItemState::new(1, 0);
    match handle_status(&mut item, 7 * SEC + 5, &Checked::Succeeded, true) {
        Verdict::Resolved(record) => {
            assert_eq!(record.mint_id, 1);
            assert_eq!(record.completion_sec, 7);
            assert_eq!(record.retry_count, 0);
            assert!(record.success);
            assert_eq!(record.reason, "");
        }
        other => panic!("unexpected verdict {:?}", other),
    }
    assert_eq!(item, ItemState::new(1, 0));
}

#[test]
fn failed_status_call_resolves_with_its_detail() {
    let mut item = ItemState::new(2, SEC);
    let checked = Checked::Error(String::from("connection reset"));
    match handle_status(&mut item, 3 * SEC, &checked, true) {
        Verdict::Resolved(record) => {
            assert!(!record.success);
            assert_eq!(
                record.reason,
                "Failed to verify mint 00000000-0000-0000-0000-000000000002: connection reset"
            );
            assert_eq!(record.completion_sec, 2);
            assert_eq!(record.retry_count, 0);
        }
        other => panic!("unexpected verdict {:?}", other),
    }
}

#[test]
fn failed_status_call_without_a_detail_still_tells_why() {
    let mut item = ItemState::new(0xa1a2a3a4b1b2c1c2d1d2d3d4d5d6d7d8, 0);
    for retry in [false, true] {
        match handle_status(&mut item, SEC, &Checked::Error(String::new()), retry) {
            Verdict::Resolved(record) => {
                assert!(!record.success);
                assert_eq!(
                    record.reason,
                    "Failed to verify mint a1a2a3a4-b1b2-c1c2-d1d2-d3d4d5d6d7d8: "
                );
                assert_eq!(record.retry_count, 0);
            }
            other => panic!("unexpected verdict {:?}", other),
        }
        assert_eq!(item, ItemState::new(0xa1a2a3a4b1b2c1c2d1d2d3d4d5d6d7d8, 0));
    }
}

#[test]
fn failure_without_retries_is_final() {
    let mut item = ItemState::new(3, 0);
    match handle_status(&mut item, SEC, &Checked::Failed, false) {
        Verdict::Resolved(record) => {
            assert!(!record.success);
            assert_eq!(record.reason, "remote rejected");
            assert_eq!(record.retry_count, 0);
        }
        other => panic!("unexpected verdict {:?}", other),
    }
    assert_eq!(item.retry_count, 0);
    assert_eq!(item.last_pending_time, 0);
}

#[test]
fn failure_with_retries_counts_and_reopens_the_window() {
    let mut item = ItemState::new(4, 0);
    match handle_status(&mut item, 4 * SEC, &Checked::Failed, true) {
        Verdict::Retried(notice) => {
            assert!(!notice.success);
            assert_eq!(notice.reason, "remote rejected, retried");
            assert_eq!(notice.retry_count, 1);
            assert_eq!(notice.completion_sec, 4);
        }
        other => panic!("unexpected verdict {:?}", other),
    }
    assert_eq!(item.retry_count, 1);
    assert_eq!(item.last_pending_time, 4 * SEC);
    assert_eq!(item.start_time, 0);
}

#[test]
fn retry_count_stops_at_the_largest_value() {
    let mut item =
        ItemState { mint_id: 4, start_time: 0, last_pending_time: 0, retry_count: u64::MAX };
    match handle_status(&mut item, SEC, &Checked::Failed, true) {
        Verdict::Retried(notice) => assert_eq!(notice.retry_count, u64::MAX),
        other => panic!("unexpected verdict {:?}", other),
    }
    assert_eq!(item.retry_count, u64::MAX);
}

#[test]
fn retry_never_moves_the_window_backwards() {
    let mut item =
        ItemState { mint_id: 4, start_time: 5 * SEC, last_pending_time: 9 * SEC, retry_count: 1 };
    let _ = handle_status(&mut item, 6 * SEC, &Checked::Failed, true);
    assert_eq!(item.last_pending_time, 9 * SEC);
    assert_eq!(item.retry_count, 2);
}

#[test]
fn pending_changes_nothing() {
    let mut item = ItemState::new(5, 0);
    assert!(matches!(handle_status(&mut item, 3 * SEC, &Checked::Pending, true), Verdict::Pending));
    assert_eq!(item, ItemState::new(5, 0));
}

#[test]
fn visit_times_out_whatever_was_found() {
    for checked in [
        Checked::Succeeded,
        Checked::Failed,
        Checked::Pending,
        Checked::Error(String::from("boom")),
    ] {
        let mut item = ItemState::new(6, 0);
        match visit(&mut item, 10 * SEC, &policy(true), &checked) {
            Verdict::Resolved(record) => {
                assert!(!record.success);
                assert_eq!(record.reason, "timeout");
                assert_eq!(record.completion_sec, 10);
                assert_eq!(record.retry_count, 0);
            }
            other => panic!("unexpected verdict {:?}", other),
        }
        assert_eq!(item, ItemState::new(6, 0));
    }
}

#[test]
fn visit_within_the_window_goes_by_the_finding() {
    let mut item = ItemState::new(6, 0);
    assert!(matches!(visit(&mut item, 5 * SEC, &policy(true), &Checked::Pending), Verdict::Pending));
    match visit(&mut item, 5 * SEC, &policy(true), &Checked::Succeeded) {
        Verdict::Resolved(record) => assert!(record.success),
        other => panic!("unexpected verdict {:?}", other),
    }
}

#[test]
fn pending_observation_does_not_refresh_the_window() {
    let mut item = ItemState::new(7, 0);
    let _ = visit(&mut item, 4 * SEC, &policy(false), &Checked::Pending);
    assert_eq!(item.last_pending_time, 0);
    match visit(&mut item, 6 * SEC, &policy(false), &Checked::Pending) {
        Verdict::Resolved(record) => assert_eq!(record.reason, "timeout"),
        other => panic!("unexpected verdict {:?}", other),
    }
}
