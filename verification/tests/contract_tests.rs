use coconut_dkg::addr::Addr;
use coconut_dkg::contract::{
    execute, instantiate, query, reset_contract_state, ExecuteMsg, InstantiateMsg, MessageInfo,
    QueryMsg, QueryResponse,
};
use coconut_dkg::dealers::{try_add_dealer, INVALID_ED25519_BLACKLISTING_EXPIRATION};
use coconut_dkg::error::ContractError;
use coconut_dkg::store::Store;
use coconut_dkg::types::{Blacklisting, BlacklistingReason, Coin, DealerDetails, EpochState};
use ed25519_dalek::Signer;

const HEIGHT: u64 = 12_345;

fn coin(denom: &str, amount: u128) -> Coin {
    Coin {
        denom: denom.to_owned(),
        amount,
    }
}

fn validators(names: &[&str]) -> Vec<Addr> {
    names.iter().map(|n| Addr::new(n)).collect()
}

/// A candidate with a working key-possession proof: the base58 key and the
/// base58 signature of the candidate's own address under that key.
fn possession_proof(addr: &str, seed: u8) -> (String, String) {
    let sk = ed25519_dalek::SigningKey::from_bytes(&[seed; 32]);
    let signature = sk.sign(addr.as_bytes());
    let key_b58 = bs58::encode(sk.verifying_key().to_bytes()).into_string();
    let sig_b58 = bs58::encode(signature.to_bytes()).into_string();
    (key_b58, sig_b58)
}

fn register(
    store: &mut Store,
    addr: &str,
    funds: Vec<Coin>,
    vals: &[&str],
) -> Result<u64, ContractError> {
    let (key, sig) = possession_proof(addr, 7);
    try_add_dealer(
        store,
        HEIGHT,
        &Addr::new(addr),
        key,
        "bte-key-with-proof".to_owned(),
        sig,
        &funds,
        &validators(vals),
    )
}

#[test]
fn initialize_contract() {
    let mut store = Store::new();
    let msg = InstantiateMsg {
        public_key_submission_end_height: HEIGHT + 123,
        system_threshold: None,
    };
    let res = instantiate(&mut store, HEIGHT, &msg, 0);
    assert!(res.is_ok());
}

#[test]
fn initialize_rejects_deadline_in_past() {
    let mut store = Store::new();
    let msg = InstantiateMsg {
        public_key_submission_end_height: HEIGHT - 1,
        system_threshold: None,
    };
    let res = instantiate(&mut store, HEIGHT, &msg, 4);
    assert_eq!(res.unwrap_err(), ContractError::EpochStateFinishInPast);
}

#[test]
fn default_threshold_is_two_thirds_ceiling() {
    let mut store = Store::new();
    let msg = InstantiateMsg {
        public_key_submission_end_height: HEIGHT + 100,
        system_threshold: None,
    };
    instantiate(&mut store, HEIGHT, &msg, 10).unwrap();
    match query(&store, QueryMsg::GetCurrentEpoch).unwrap() {
        QueryResponse::CurrentEpoch { epoch } => {
            assert_eq!(epoch.system_threshold, 7);
            assert_eq!(epoch.id, 0);
            assert_eq!(
                epoch.state,
                EpochState::PublicKeySubmission {
                    begun_at: HEIGHT,
                    finish_by: HEIGHT + 100,
                }
            );
        }
        other => panic!("unexpected response: {:?}", other),
    }
}

#[test]
fn explicit_threshold_is_kept() {
    let mut store = Store::new();
    let msg = InstantiateMsg {
        public_key_submission_end_height: HEIGHT + 100,
        system_threshold: Some(42),
    };
    instantiate(&mut store, HEIGHT, &msg, 10).unwrap();
    match query(&store, QueryMsg::GetCurrentEpoch).unwrap() {
        QueryResponse::CurrentEpoch { epoch } => assert_eq!(epoch.system_threshold, 42),
        other => panic!("unexpected response: {:?}", other),
    }
}

#[test]
fn empty_deposit_fails_and_persists_nothing() {
    let mut store = Store::new();
    let res = register(&mut store, "validator1", vec![], &["validator1"]);
    assert_eq!(res.unwrap_err(), ContractError::NoDepositFound);
    match query(
        &store,
        QueryMsg::GetCurrentDealers {
            start_after: None,
            limit: None,
        },
    )
    .unwrap()
    {
        QueryResponse::CurrentDealers { dealers } => assert!(dealers.is_empty()),
        other => panic!("unexpected response: {:?}", other),
    }
    match query(
        &store,
        QueryMsg::GetBlacklisting {
            dealer: Addr::new("validator1"),
        },
    )
    .unwrap()
    {
        QueryResponse::Blacklisting { blacklisting } => assert!(blacklisting.is_none()),
        other => panic!("unexpected response: {:?}", other),
    }
}

#[test]
fn multiple_denoms_and_wrong_denom_fail() {
    let mut store = Store::new();
    let res = register(
        &mut store,
        "validator1",
        vec![coin("unym", 100), coin("other", 100)],
        &["validator1"],
    );
    assert_eq!(res.unwrap_err(), ContractError::MultipleDenoms);
    let res = register(
        &mut store,
        "validator1",
        vec![coin("other", 100)],
        &["validator1"],
    );
    assert_eq!(res.unwrap_err(), ContractError::WrongDenom);
}

#[test]
fn deposit_thresholds_drive_admission() {
    let mut store = Store::new();
    let res = register(
        &mut store,
        "validator1",
        vec![coin("unym", 50)],
        &["validator1"],
    );
    assert_eq!(
        res.unwrap_err(),
        ContractError::InsufficientDeposit {
            received: 50,
            minimum: 100,
        }
    );
    let res = register(
        &mut store,
        "validator1",
        vec![coin("unym", 150)],
        &["validator1"],
    );
    assert_eq!(res.unwrap(), 0);
    match query(
        &store,
        QueryMsg::GetDealerDetails {
            dealer_address: Addr::new("validator1"),
        },
    )
    .unwrap()
    {
        QueryResponse::DealerDetails { details } => {
            let d = details.expect("dealer should be registered");
            assert_eq!(d.assigned_index, 0);
            assert_eq!(d.joined_at, HEIGHT);
            assert!(d.left_at.is_none());
            assert!(d.blacklisting.is_none());
        }
        other => panic!("unexpected response: {:?}", other),
    }
}

#[test]
fn non_validator_and_double_registration_fail() {
    let mut store = Store::new();
    let res = register(
        &mut store,
        "nobody",
        vec![coin("unym", 100)],
        &["validator1"],
    );
    assert_eq!(res.unwrap_err(), ContractError::NotAValidator);
    register(
        &mut store,
        "validator1",
        vec![coin("unym", 100)],
        &["validator1"],
    )
    .unwrap();
    let res = register(
        &mut store,
        "validator1",
        vec![coin("unym", 100)],
        &["validator1"],
    );
    assert_eq!(res.unwrap_err(), ContractError::AlreadyADealer);
}

#[test]
fn failed_possession_check_blacklists_candidate() {
    let mut store = Store::new();
    // a well-formed signature by the wrong key
    let (key, _) = possession_proof("validator1", 7);
    let wrong_sig = bs58::encode([9u8; 64]).into_string();
    let res = try_add_dealer(
        &mut store,
        HEIGHT,
        &Addr::new("validator1"),
        key,
        "bte-key-with-proof".to_owned(),
        wrong_sig,
        &vec![coin("unym", 100)],
        &validators(&["validator1"]),
    );
    assert_eq!(res.unwrap_err(), ContractError::InvalidEd25519Signature);
    match query(
        &store,
        QueryMsg::GetBlacklisting {
            dealer: Addr::new("validator1"),
        },
    )
    .unwrap()
    {
        QueryResponse::Blacklisting { blacklisting } => {
            assert_eq!(
                blacklisting.unwrap(),
                Blacklisting {
                    reason: BlacklistingReason::Ed25519PossessionVerificationFailure,
                    height: HEIGHT,
                    expiration: Some(HEIGHT + INVALID_ED25519_BLACKLISTING_EXPIRATION),
                }
            );
        }
        other => panic!("unexpected response: {:?}", other),
    }
    // and while the blacklisting is unexpired, admission is barred
    let res = register(
        &mut store,
        "validator1",
        vec![coin("unym", 100)],
        &["validator1"],
    );
    assert!(matches!(
        res.unwrap_err(),
        ContractError::BlacklistedDealer { .. }
    ));
}

#[test]
fn malformed_key_and_signature_are_rejected() {
    let mut store = Store::new();
    // '0' is not a base58 character
    let res = try_add_dealer(
        &mut store,
        HEIGHT,
        &Addr::new("validator1"),
        "0bad".to_owned(),
        "bte-key-with-proof".to_owned(),
        "sig".to_owned(),
        &vec![coin("unym", 100)],
        &validators(&["validator1"]),
    );
    assert_eq!(res.unwrap_err(), ContractError::MalformedEd25519PublicKey);
    let mut store = Store::new();
    let (key, _) = possession_proof("validator1", 7);
    let res = try_add_dealer(
        &mut store,
        HEIGHT,
        &Addr::new("validator1"),
        key,
        "bte-key-with-proof".to_owned(),
        "0bad".to_owned(),
        &vec![coin("unym", 100)],
        &validators(&["validator1"]),
    );
    assert_eq!(res.unwrap_err(), ContractError::MalformedEd25519Signature);
}

#[test]
fn expired_blacklisting_is_purged_and_admission_goes_through() {
    let mut store = Store::new();
    store.blacklisted_dealers.insert(
        Addr::new("validator1"),
        Blacklisting {
            reason: BlacklistingReason::Ed25519PossessionVerificationFailure,
            height: 1,
            expiration: Some(HEIGHT - 1),
        },
    );
    let res = register(
        &mut store,
        "validator1",
        vec![coin("unym", 100)],
        &["validator1"],
    );
    assert_eq!(res.unwrap(), 0);
    match query(
        &store,
        QueryMsg::GetBlacklisting {
            dealer: Addr::new("validator1"),
        },
    )
    .unwrap()
    {
        QueryResponse::Blacklisting { blacklisting } => assert!(blacklisting.is_none()),
        other => panic!("unexpected response: {:?}", other),
    }
}

#[test]
fn blacklisting_expiry_is_strict() {
    let b = Blacklisting {
        reason: BlacklistingReason::Ed25519PossessionVerificationFailure,
        height: 5,
        expiration: Some(100),
    };
    assert!(!b.has_expired(99));
    assert!(!b.has_expired(100));
    assert!(b.has_expired(101));
    let permanent = Blacklisting {
        reason: BlacklistingReason::Ed25519PossessionVerificationFailure,
        height: 5,
        expiration: None,
    };
    assert!(!permanent.has_expired(u64::MAX));
}

#[test]
fn readmission_reuses_the_assigned_index() {
    let mut store = Store::new();
    store.node_index_counter = 3;
    store.past_dealers.insert(
        Addr::new("validator1"),
        DealerDetails {
            address: Addr::new("validator1"),
            joined_at: 1,
            left_at: Some(2),
            blacklisting: None,
            ed25519_public_key: "old-key".to_owned(),
            bte_public_key_with_proof: "old-bte".to_owned(),
            assigned_index: 42,
        },
    );
    let res = register(
        &mut store,
        "validator1",
        vec![coin("unym", 100)],
        &["validator1"],
    );
    assert_eq!(res.unwrap(), 42);
    assert_eq!(store.node_index_counter, 3);
    match query(
        &store,
        QueryMsg::GetPastDealers {
            start_after: None,
            limit: None,
        },
    )
    .unwrap()
    {
        QueryResponse::PastDealers { dealers } => assert!(dealers.is_empty()),
        other => panic!("unexpected response: {:?}", other),
    }
}

#[test]
fn fresh_admissions_increment_the_counter() {
    let mut store = Store::new();
    let vals = &["validator1", "validator2"];
    assert_eq!(register(&mut store, "validator1", vec![coin("unym", 100)], vals).unwrap(), 0);
    assert_eq!(register(&mut store, "validator2", vec![coin("unym", 100)], vals).unwrap(), 1);
    assert_eq!(store.node_index_counter, 2);
}

#[test]
fn reset_clears_everything_and_restarts_indices_at_zero() {
    let mut store = Store::new();
    let vals = &["validator1", "validator2"];
    register(&mut store, "validator1", vec![coin("unym", 100)], vals).unwrap();
    register(&mut store, "validator2", vec![coin("unym", 100)], vals).unwrap();
    let msg = InstantiateMsg {
        public_key_submission_end_height: HEIGHT + 50,
        system_threshold: None,
    };
    reset_contract_state(&mut store, HEIGHT, &msg, 2).unwrap();
    assert_eq!(store.node_index_counter, 0);
    match query(
        &store,
        QueryMsg::GetCurrentDealers {
            start_after: None,
            limit: None,
        },
    )
    .unwrap()
    {
        QueryResponse::CurrentDealers { dealers } => assert!(dealers.is_empty()),
        other => panic!("unexpected response: {:?}", other),
    }
    // the next admission after the reset is assigned index zero
    let res = register(&mut store, "validator2", vec![coin("unym", 100)], vals);
    assert_eq!(res.unwrap(), 0);
}

#[test]
fn commit_dealing_rules() {
    let mut store = Store::new();
    let sender = Addr::new("dealer1");
    let res =
        coconut_dkg::dealings::try_commit_dealing(&mut store, &sender, 0, vec![1, 2, 3]);
    assert_eq!(res.unwrap_err(), ContractError::EpochNotInitialised);
    let msg = InstantiateMsg {
        public_key_submission_end_height: HEIGHT + 50,
        system_threshold: Some(2),
    };
    instantiate(&mut store, HEIGHT, &msg, 3).unwrap();
    let res =
        coconut_dkg::dealings::try_commit_dealing(&mut store, &sender, 5, vec![1, 2, 3]);
    assert_eq!(
        res.unwrap_err(),
        ContractError::MismatchedEpoch {
            current: 0,
            request_for: 5,
        }
    );
    coconut_dkg::dealings::try_commit_dealing(&mut store, &sender, 0, vec![1, 2, 3]).unwrap();
    let res =
        coconut_dkg::dealings::try_commit_dealing(&mut store, &sender, 0, vec![4, 5, 6]);
    assert_eq!(res.unwrap_err(), ContractError::AlreadyCommitted);
    match query(
        &store,
        QueryMsg::GetEpochDealingsCommitments {
            epoch: 0,
            start_after: None,
            limit: None,
        },
    )
    .unwrap()
    {
        QueryResponse::EpochDealingsCommitments { commitments } => {
            assert_eq!(commitments.len(), 1);
            assert_eq!(commitments[0].0.as_str(), "dealer1");
            assert_eq!(commitments[0].1, vec![1, 2, 3]);
        }
        other => panic!("unexpected response: {:?}", other),
    }
}

#[test]
fn epoch_advances_through_the_fixed_cycle() {
    let mut store = Store::new();
    let msg = InstantiateMsg {
        public_key_submission_end_height: HEIGHT + 50,
        system_threshold: Some(2),
    };
    instantiate(&mut store, HEIGHT, &msg, 3).unwrap();
    let info = MessageInfo {
        sender: Addr::new("anyone"),
        funds: vec![],
    };
    let vals = validators(&[]);
    let mut states = Vec::new();
    for _ in 0..8 {
        execute(
            &mut store,
            HEIGHT,
            &info,
            ExecuteMsg::DebugAdvanceEpochState,
            &vals,
        )
        .unwrap();
        states.push(store.current_epoch.unwrap().state);
    }
    assert!(matches!(states[0], EpochState::DealingExchange { .. }));
    assert!(matches!(states[1], EpochState::ComplaintSubmission { .. }));
    assert!(matches!(states[2], EpochState::ComplaintVoting { .. }));
    assert!(matches!(states[3], EpochState::VerificationKeySubmission { .. }));
    assert!(matches!(
        states[4],
        EpochState::VerificationKeyMismatchSubmission { .. }
    ));
    assert!(matches!(
        states[5],
        EpochState::VerificationKeyMismatchVoting { .. }
    ));
    assert!(matches!(states[6], EpochState::InProgress { .. }));
    // the cycle wraps into the next ceremony run
    assert!(matches!(states[7], EpochState::PublicKeySubmission { .. }));
    assert_eq!(store.current_epoch.unwrap().id, 1);
}

#[test]
fn execute_register_returns_big_endian_index() {
    let mut store = Store::new();
    store.node_index_counter = 258;
    let (key, sig) = possession_proof("validator1", 7);
    let info = MessageInfo {
        sender: Addr::new("validator1"),
        funds: vec![coin("unym", 100)],
    };
    let msg = ExecuteMsg::RegisterDealer {
        ed25519_key: key,
        bte_key_with_proof: "bte-key-with-proof".to_owned(),
        owner_signature: sig,
        host: "1.2.3.4".to_owned(),
    };
    let resp = execute(&mut store, HEIGHT, &info, msg, &validators(&["validator1"])).unwrap();
    assert_eq!(resp.data.unwrap(), 258u64.to_be_bytes().to_vec());
}

#[test]
fn paged_queries_walk_in_insertion_order() {
    let mut store = Store::new();
    let vals = &["v1", "v2", "v3"];
    register(&mut store, "v1", vec![coin("unym", 100)], vals).unwrap();
    register(&mut store, "v2", vec![coin("unym", 100)], vals).unwrap();
    register(&mut store, "v3", vec![coin("unym", 100)], vals).unwrap();
    match query(
        &store,
        QueryMsg::GetCurrentDealers {
            start_after: Some(Addr::new("v1")),
            limit: Some(1),
        },
    )
    .unwrap()
    {
        QueryResponse::CurrentDealers { dealers } => {
            assert_eq!(dealers.len(), 1);
            assert_eq!(dealers[0].address.as_str(), "v2");
        }
        other => panic!("unexpected response: {:?}", other),
    }
    match query(
        &store,
        QueryMsg::GetDepositAmount,
    )
    .unwrap()
    {
        QueryResponse::DepositAmount { amount } => {
            assert_eq!(amount.denom, "unym");
            assert_eq!(amount.amount, 100);
        }
        other => panic!("unexpected response: {:?}", other),
    }
}

#[test]
fn uninitialised_ledger_has_no_epoch() {
    let store = Store::new();
    let res = query(&store, QueryMsg::GetCurrentEpoch);
    assert_eq!(res.unwrap_err(), ContractError::EpochNotInitialised);
}
