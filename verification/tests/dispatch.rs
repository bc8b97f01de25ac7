use benchy::accepted::{Acceptance, Accepted};
use benchy::dispatch::{Attempt, Command, Dispatcher};
use benchy::graphql::CollectionMint;
use benchy::mint::mint_id;
use benchy::remote::RemoteError;

fn minted(id: &str) -> Result<CollectionMint, RemoteError> {
    Ok(CollectionMint { id: String::from(id), creation_status: String::from("PENDING") })
}

#[test]
fn one_round_of_three() {
    let mut phase = Dispatcher::new(3, 1, 1);
    for _ in 0..3 {
        assert_eq!(phase.next(), Command::Submit);
        assert!(phase.launch());
    }
    assert_eq!(phase.outstanding(), 3);
    assert_eq!(phase.next(), Command::Await);
    assert!(!phase.launch());
    assert_eq!(phase.outstanding(), 3);
    assert!(phase.record_attempt(Some(1), 10));
    assert!(phase.record_attempt(Some(2), 11));
    assert_eq!(phase.next(), Command::Await);
    phase.record_attempt(Some(3), 12);
    assert_eq!(phase.next(), Command::Finished);
    assert_eq!(phase.attempts(), 3);
    assert_eq!(phase.rounds_done(), 1);
    assert_eq!(phase.outstanding(), 0);
    let accepted = phase.finish();
    assert_eq!(
        accepted.entries(),
        &vec![
            Acceptance { mint_id: 1, start_time: 10 },
            Acceptance { mint_id: 2, start_time: 11 },
            Acceptance { mint_id: 3, start_time: 12 },
        ]
    );
}

#[test]
fn rounds_are_separated_by_a_wait_except_after_the_last() {
    let mut phase = Dispatcher::new(1, 3, 7);
    let mut commands = Vec::new();
    loop {
        let command = phase.next();
        commands.push(command);
        match command {
            Command::Submit => {
                assert!(phase.launch());
                phase.record_attempt(None, 0);
            }
            Command::Sleep(_) => phase.rested(),
            Command::Await => panic!("nothing is in progress"),
            Command::Finished => break,
        }
    }
    assert_eq!(
        commands,
        vec![
            Command::Submit,
            Command::Sleep(7),
            Command::Submit,
            Command::Sleep(7),
            Command::Submit,
            Command::Finished,
        ]
    );
    assert_eq!(phase.attempts(), 3);
    assert_eq!(phase.accepted().len(), 0);
}

#[test]
fn requests_in_progress_never_exceed_the_parallelism() {
    let mut phase = Dispatcher::new(2, 2, 0);
    let mut most = 0;
    let mut steps = 0;
    loop {
        steps += 1;
        assert!(steps < 100);
        for _ in 0..5 {
            phase.launch();
            most = most.max(phase.outstanding());
            assert!(phase.outstanding() <= 2);
        }
        match phase.next() {
            Command::Await => assert!(phase.record_attempt(None, 0)),
            Command::Sleep(_) => phase.rested(),
            Command::Submit => {}
            Command::Finished => break,
        }
    }
    assert_eq!(most, 2);
    assert_eq!(phase.attempts(), 4);
}

#[test]
fn failed_submissions_are_counted_but_not_accepted() {
    let mut phase = Dispatcher::new(2, 1, 0);
    assert!(phase.launch());
    assert!(phase.launch());
    assert_eq!(
        phase.complete(&Err(RemoteError::Transport(String::from("refused"))), 5),
        Attempt::Failed
    );
    assert_eq!(
        phase.complete(&minted("a1a2a3a4-b1b2-c1c2-d1d2-d3d4d5d6d7d8"), 6),
        Attempt::Accepted(0xa1a2a3a4b1b2c1c2d1d2d3d4d5d6d7d8)
    );
    assert_eq!(
        phase.complete(&minted("a1a2a3a4-b1b2-c1c2-d1d2-d3d4d5d6d7d8"), 7),
        Attempt::Unexpected
    );
    assert_eq!(phase.next(), Command::Finished);
    assert_eq!(phase.attempts(), 2);
    let accepted = phase.finish();
    assert_eq!(
        accepted.entries(),
        &vec![Acceptance { mint_id: 0xa1a2a3a4b1b2c1c2d1d2d3d4d5d6d7d8, start_time: 6 }]
    );
}

#[test]
fn unreadable_identifier_only_counts_as_an_attempt() {
    let mut phase = Dispatcher::new(1, 1, 0);
    assert!(phase.launch());
    assert_eq!(phase.complete(&minted("not-a-uuid"), 5), Attempt::Unreadable);
    assert_eq!(phase.attempts(), 1);
    assert_eq!(phase.accepted().len(), 0);
    assert_eq!(phase.next(), Command::Finished);
}

#[test]
fn completion_without_a_request_in_progress_is_ignored() {
    let mut phase = Dispatcher::new(1, 1, 0);
    assert!(!phase.record_attempt(Some(1), 5));
    assert_eq!(phase.attempts(), 0);
    assert_eq!(phase.accepted().len(), 0);
    assert_eq!(phase.next(), Command::Submit);
    phase.rested();
    assert_eq!(phase.next(), Command::Submit);
}

#[test]
fn nothing_to_do_is_finished_at_once() {
    assert_eq!(Dispatcher::new(4, 0, 1).next(), Command::Finished);
    let mut idle = Dispatcher::new(0, 2, 3);
    assert_eq!(idle.next(), Command::Sleep(3));
    assert!(!idle.launch());
    idle.rested();
    assert_eq!(idle.next(), Command::Finished);
    assert_eq!(idle.attempts(), 0);
    assert_eq!(idle.rounds_done(), 2);
}

#[test]
fn mint_id_reads_the_forms_of_a_uuid() {
    let value = 0x936da01f9abd4d9d80c702af85c822a8u128;
    for text in [
        "936da01f-9abd-4d9d-80c7-02af85c822a8",
        "936DA01F9ABD4D9D80C702AF85C822A8",
        "{936da01f-9abd-4d9d-80c7-02af85c822a8}",
        "urn:uuid:936da01f-9abd-4d9d-80c7-02af85c822a8",
    ] {
        let mint = CollectionMint { id: String::from(text), creation_status: String::new() };
        assert_eq!(mint_id(&mint), Some(value));
    }
    for text in ["", "936da01f", "936da01f-9abd-4d9d-80c7-02af85c822ag"] {
        let mint = CollectionMint { id: String::from(text), creation_status: String::new() };
        assert_eq!(mint_id(&mint), None);
    }
}

#[test]
fn accepting_a_mint_again_keeps_its_place_and_takes_the_new_time() {
    let mut mints = Accepted::new();
    mints.insert(1, 10);
    mints.insert(2, 20);
    mints.insert(1, 30);
    assert_eq!(mints.len(), 2);
    assert_eq!(
        mints.entries(),
        &vec![Acceptance { mint_id: 1, start_time: 30 }, Acceptance { mint_id: 2, start_time: 20 }]
    );
    assert_eq!(mints.start_time(1), Some(30));
    assert_eq!(mints.start_time(2), Some(20));
    assert_eq!(mints.start_time(3), None);
}
