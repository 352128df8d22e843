use coconut_dkg::accessor::StateAccessor;
use coconut_dkg::addr::Addr;
use coconut_dkg::error::DkgError;
use coconut_dkg::events::{CommitmentChange, DealerChange, Event, EventType};
use coconut_dkg::types::{DealerDetails, Epoch, EpochState};
use coconut_dkg::watcher::{commitment_snapshot, dealer_snapshot, Watcher};

const HEIGHT: u64 = 777;

fn details(addr: &str, index: u64) -> DealerDetails {
    DealerDetails {
        address: Addr::new(addr),
        joined_at: 1,
        left_at: None,
        blacklisting: None,
        ed25519_public_key: format!("{}-key", addr),
        bte_public_key_with_proof: format!("{}-bte", addr),
        assigned_index: index,
    }
}

fn epoch(state: EpochState) -> Epoch {
    Epoch {
        id: 0,
        state,
        system_threshold: 2,
    }
}

fn pks_epoch() -> Epoch {
    epoch(EpochState::PublicKeySubmission {
        begun_at: 0,
        finish_by: 100,
    })
}

fn de_epoch() -> Epoch {
    epoch(EpochState::DealingExchange {
        begun_at: 100,
        finish_by: 200,
    })
}

fn fresh_watcher(own: &str) -> Watcher {
    Watcher::new(Addr::new(own), StateAccessor::new(pks_epoch()))
}

#[test]
fn dealer_diff_emits_exactly_the_changes() {
    // known local dealers {A, B}; ledger dealers {B, C}
    let mut watcher = fresh_watcher("me");
    watcher
        .state_accessor
        .known_dealers
        .insert(Addr::new("A"), details("A", 0));
    watcher
        .state_accessor
        .known_dealers
        .insert(Addr::new("B"), details("B", 1));
    let ledger = dealer_snapshot(&vec![details("B", 1), details("C", 2)]);
    watcher.check_for_dealers_change(&ledger, HEIGHT);
    let events = watcher.state_accessor.drain_events();
    assert_eq!(events.len(), 1);
    let Event { height, event_type } = &events[0];
    assert_eq!(*height, HEIGHT);
    let changes = match event_type {
        EventType::DealerSetChange { changes } => changes,
        other => panic!("unexpected event: {:?}", other),
    };
    // exactly one removal of A and one addition of C; nothing mentions B
    assert_eq!(changes.len(), 2);
    let mut saw_removal_a = false;
    let mut saw_addition_c = false;
    for change in changes {
        match change {
            DealerChange::Removal { address } => {
                assert_eq!(address.as_str(), "A");
                saw_removal_a = true;
            }
            DealerChange::Addition { details } => {
                assert_eq!(details.address.as_str(), "C");
                assert_eq!(details.assigned_index, 2);
                saw_addition_c = true;
            }
        }
    }
    assert!(saw_removal_a && saw_addition_c);
}

#[test]
fn synchronised_world_emits_no_events_twice() {
    // our own key is on the ledger and local knowledge matches it exactly:
    // two consecutive polls of the unchanged world emit zero events
    let mut watcher = fresh_watcher("me");
    watcher
        .state_accessor
        .known_dealers
        .insert(Addr::new("me"), details("me", 0));
    watcher
        .state_accessor
        .known_dealers
        .insert(Addr::new("B"), details("B", 1));
    let ledger = dealer_snapshot(&vec![details("me", 0), details("B", 1)]);
    watcher.public_key_submission_actions(&ledger, HEIGHT, &None);
    assert_eq!(watcher.state_accessor.drain_events().len(), 0);
    watcher.public_key_submission_actions(&ledger, HEIGHT + 1, &None);
    assert_eq!(watcher.state_accessor.drain_events().len(), 0);
    assert!(!watcher.state_accessor.has_submitted_keys());
}

#[test]
fn missing_own_key_queues_a_submission_event() {
    let mut watcher = fresh_watcher("me");
    let ledger = dealer_snapshot(&vec![]);
    watcher.public_key_submission_actions(&ledger, HEIGHT, &None);
    assert!(watcher.state_accessor.has_submitted_keys());
    let events = watcher.state_accessor.drain_events();
    assert_eq!(events.len(), 1);
    assert_eq!(events[0].height, HEIGHT);
    assert!(matches!(
        events[0].event_type,
        EventType::OwnKeySubmissionRequired
    ));
}

#[test]
fn actively_blacklisted_participant_stays_quiet() {
    let mut watcher = fresh_watcher("me");
    watcher.state_accessor.has_submitted_keys = true;
    let ledger = dealer_snapshot(&vec![]);
    let active = Some(coconut_dkg::types::Blacklisting {
        reason: coconut_dkg::types::BlacklistingReason::Ed25519PossessionVerificationFailure,
        height: HEIGHT - 10,
        expiration: Some(HEIGHT + 10),
    });
    watcher.public_key_submission_actions(&ledger, HEIGHT, &active);
    assert_eq!(watcher.state_accessor.drain_events().len(), 0);
    // once the blacklisting expires, the submission is owed again
    let expired = Some(coconut_dkg::types::Blacklisting {
        reason: coconut_dkg::types::BlacklistingReason::Ed25519PossessionVerificationFailure,
        height: HEIGHT - 10,
        expiration: Some(HEIGHT - 1),
    });
    watcher.public_key_submission_actions(&ledger, HEIGHT, &expired);
    let events = watcher.state_accessor.drain_events();
    assert_eq!(events.len(), 1);
    assert!(matches!(
        events[0].event_type,
        EventType::OwnKeySubmissionRequired
    ));
}

#[test]
fn commitment_diff_detects_additions_removals_and_updates() {
    let mut watcher = fresh_watcher("me");
    watcher
        .state_accessor
        .known_commitments
        .insert(Addr::new("A"), vec![1, 2]);
    watcher
        .state_accessor
        .known_commitments
        .insert(Addr::new("B"), vec![3, 4]);
    watcher
        .state_accessor
        .known_commitments
        .insert(Addr::new("me"), vec![0]);
    watcher.state_accessor.has_submitted_dealings_commitment = true;
    // A's commitment changed content, B's is gone, C's is new
    let ledger = commitment_snapshot(&vec![
        (Addr::new("A"), vec![9, 9]),
        (Addr::new("C"), vec![5, 6]),
        (Addr::new("me"), vec![0]),
    ]);
    watcher.dealing_exchange_actions(&ledger, HEIGHT, de_epoch(), &None);
    let events = watcher.state_accessor.drain_events();
    assert_eq!(events.len(), 1);
    let changes = match &events[0].event_type {
        EventType::KnownCommitmentsChange { changes } => changes,
        other => panic!("unexpected event: {:?}", other),
    };
    assert_eq!(changes.len(), 3);
    let mut saw_update_a = false;
    let mut saw_removal_b = false;
    let mut saw_addition_c = false;
    for change in changes {
        match change {
            CommitmentChange::Update {
                address,
                commitment,
            } => {
                assert_eq!(address.as_str(), "A");
                assert_eq!(*commitment, vec![9, 9]);
                saw_update_a = true;
            }
            CommitmentChange::Removal { address } => {
                assert_eq!(address.as_str(), "B");
                saw_removal_b = true;
            }
            CommitmentChange::Addition {
                address,
                commitment,
            } => {
                assert_eq!(address.as_str(), "C");
                assert_eq!(*commitment, vec![5, 6]);
                saw_addition_c = true;
            }
        }
    }
    assert!(saw_update_a && saw_removal_b && saw_addition_c);
}

#[test]
fn missing_own_commitment_queues_a_submission_event() {
    let mut watcher = fresh_watcher("me");
    let ledger = commitment_snapshot(&vec![]);
    watcher.dealing_exchange_actions(&ledger, HEIGHT, de_epoch(), &None);
    assert!(watcher.state_accessor.has_submitted_dealings_commitment());
    let events = watcher.state_accessor.drain_events();
    assert_eq!(events.len(), 1);
    match &events[0].event_type {
        EventType::OwnDealingCommitmentSubmissionRequired { epoch } => {
            assert_eq!(*epoch, de_epoch());
        }
        other => panic!("unexpected event: {:?}", other),
    }
}

#[test]
fn poll_reports_phase_mismatch_without_fixing_it() {
    let mut watcher = fresh_watcher("me");
    watcher
        .state_accessor
        .known_dealers
        .insert(Addr::new("me"), details("me", 0));
    let dealers = dealer_snapshot(&vec![details("me", 0)]);
    let commitments = commitment_snapshot(&vec![]);
    // ledger agrees with our remembered phase
    let mismatch = watcher
        .poll_contract(pks_epoch(), &dealers, &commitments, &None, HEIGHT)
        .unwrap();
    assert!(!mismatch);
    // ledger moved on while our belief did not; the disagreement is only
    // reported, never auto-corrected
    let other = Epoch {
        id: 0,
        state: EpochState::PublicKeySubmission {
            begun_at: 5,
            finish_by: 50,
        },
        system_threshold: 2,
    };
    let mismatch = watcher
        .poll_contract(other, &dealers, &commitments, &None, HEIGHT)
        .unwrap();
    assert!(mismatch);
    assert_eq!(watcher.state_accessor.current_epoch(), pks_epoch());
}

#[test]
fn unhandled_phases_raise_a_loud_error() {
    let mut watcher = fresh_watcher("me");
    let dealers = dealer_snapshot(&vec![]);
    let commitments = commitment_snapshot(&vec![]);
    let state = EpochState::ComplaintSubmission {
        begun_at: 0,
        finish_by: 10,
    };
    let res = watcher.poll_contract(epoch(state), &dealers, &commitments, &None, HEIGHT);
    assert_eq!(res.unwrap_err(), DkgError::UnhandledEpochState { state });
    assert_eq!(watcher.state_accessor.drain_events().len(), 0);
}

#[test]
fn watcher_exposes_its_own_address() {
    let watcher = fresh_watcher("me");
    assert_eq!(watcher.self_addr().as_str(), "me");
}

#[test]
fn snapshot_ignores_a_second_record_for_the_same_address() {
    let snapshot = dealer_snapshot(&vec![details("A", 0), details("A", 9)]);
    let mut watcher = fresh_watcher("me");
    watcher
        .state_accessor
        .known_dealers
        .insert(Addr::new("me"), details("me", 1));
    watcher
        .state_accessor
        .known_dealers
        .insert(Addr::new("A"), details("A", 0));
    // "me" is locally known but off the ledger; "A" matches; no additions
    watcher.check_for_dealers_change(&snapshot, HEIGHT);
    let events = watcher.state_accessor.drain_events();
    assert_eq!(events.len(), 1);
    match &events[0].event_type {
        EventType::DealerSetChange { changes } => {
            assert_eq!(changes.len(), 1);
            match &changes[0] {
                DealerChange::Removal { address } => assert_eq!(address.as_str(), "me"),
                other => panic!("unexpected change: {:?}", other),
            }
        }
        other => panic!("unexpected event: {:?}", other),
    }
}
