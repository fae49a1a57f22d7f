use halfmoon_bridge::bridge::HalfmoonCrossBridge;
use halfmoon_bridge::errors::{ConstructError, CreateError, StatusTag, TransitionError};
use halfmoon_bridge::model::RequestStatus;

fn fresh(operator: &str) -> HalfmoonCrossBridge {
    HalfmoonCrossBridge::construct(operator.to_string(), false).unwrap()
}

fn create_for_alice(bridge: &mut HalfmoonCrossBridge) {
    bridge
        .create_request(
            "alice".to_string(),
            "Algorand".to_string(),
            "goNEAR".to_string(),
            "ADDR1".to_string(),
            None,
            0,
        )
        .unwrap();
}

#[test]
fn add_get_bridge_request() {
    let mut contract = fresh("bob");
    contract
        .create_request(
            "bob".to_string(),
            "Algorand".to_string(),
            "goNEAR".to_string(),
            "4IZRTUO72JY5WH4HKLVDQSKIVF2VSRQX7IFVI3KEOQHHNCQUXCMYPZH7J4".to_string(),
            None,
            3 * 10u128.pow(24),
        )
        .unwrap();
    let key = "bob".to_string();
    let req = contract.query(&key).expect("request should be stored");
    assert_eq!(req.to_blockchain, "Algorand");
    assert_eq!(
        req.to_address,
        "4IZRTUO72JY5WH4HKLVDQSKIVF2VSRQX7IFVI3KEOQHHNCQUXCMYPZH7J4"
    );
    assert_eq!(req.from_amount_atom, "3000000000000000000000000");
    assert!(matches!(req.status, RequestStatus::Created));
}

#[test]
fn construct_rejects_invalid_owner() {
    let r = HalfmoonCrossBridge::construct("NOT A VALID ID".to_string(), false);
    assert!(matches!(r, Err(ConstructError::InvalidOwner)));
    let r = HalfmoonCrossBridge::construct("x".to_string(), false);
    assert!(matches!(r, Err(ConstructError::InvalidOwner)));
}

#[test]
fn construct_rejects_second_initialization() {
    let r = HalfmoonCrossBridge::construct("op".to_string(), true);
    assert!(matches!(r, Err(ConstructError::AlreadyInitialized)));
}

#[test]
fn scenario_create_then_query() {
    let mut bridge = fresh("op");
    create_for_alice(&mut bridge);
    let key = "alice".to_string();
    let req = bridge.query(&key).expect("request should be stored");
    assert_eq!(req.to_blockchain, "Algorand");
    assert_eq!(req.to_token, "goNEAR");
    assert_eq!(req.to_address, "ADDR1");
    assert_eq!(req.from_token_address, None);
    assert_eq!(req.from_amount_atom, "0");
    assert!(matches!(req.status, RequestStatus::Created));
}

#[test]
fn scenario_second_create_blocked() {
    let mut bridge = fresh("op");
    create_for_alice(&mut bridge);
    let r = bridge.create_request(
        "alice".to_string(),
        "Algorand".to_string(),
        "goNEAR".to_string(),
        "ADDR2".to_string(),
        None,
        7,
    );
    assert!(matches!(r, Err(CreateError::UnfinishedRequestExists)));
    let key = "alice".to_string();
    let req = bridge.query(&key).unwrap();
    assert_eq!(req.to_address, "ADDR1");
    assert_eq!(req.from_amount_atom, "0");
    assert!(matches!(req.status, RequestStatus::Created));
}

#[test]
fn scenario_doing_then_done() {
    let mut bridge = fresh("op");
    create_for_alice(&mut bridge);
    bridge
        .mark_doing("op".to_string(), "alice".to_string(), "HASH1".to_string())
        .unwrap();
    let key = "alice".to_string();
    match &bridge.query(&key).unwrap().status {
        RequestStatus::Doing { to_txn_hash } => assert_eq!(to_txn_hash, "HASH1"),
        other => panic!("expected Doing, found {:?}", other),
    }
    bridge.mark_done("op".to_string(), "alice".to_string()).unwrap();
    match &bridge.query(&key).unwrap().status {
        RequestStatus::Done { to_txn_hash } => assert_eq!(to_txn_hash, "HASH1"),
        other => panic!("expected Done, found {:?}", other),
    }
}

#[test]
fn scenario_doing_then_error() {
    let mut bridge = fresh("op");
    create_for_alice(&mut bridge);
    bridge
        .mark_doing("op".to_string(), "alice".to_string(), "HASH1".to_string())
        .unwrap();
    bridge
        .mark_error(
            "op".to_string(),
            "alice".to_string(),
            "network error".to_string(),
        )
        .unwrap();
    let key = "alice".to_string();
    match &bridge.query(&key).unwrap().status {
        RequestStatus::Error { to_txn_hash, error } => {
            assert_eq!(to_txn_hash, "HASH1");
            assert_eq!(error, "network error");
        }
        other => panic!("expected Error, found {:?}", other),
    }
}

#[test]
fn scenario_non_operator_cannot_mark() {
    let mut bridge = fresh("op");
    create_for_alice(&mut bridge);
    let r = bridge.mark_doing("alice".to_string(), "alice".to_string(), "HASH1".to_string());
    assert!(matches!(r, Err(TransitionError::NotOwner)));
    let key = "alice".to_string();
    assert!(matches!(
        bridge.query(&key).unwrap().status,
        RequestStatus::Created
    ));
}

#[test]
fn scenario_done_without_doing_refused() {
    let mut bridge = fresh("op");
    create_for_alice(&mut bridge);
    let r = bridge.mark_done("op".to_string(), "alice".to_string());
    assert!(matches!(
        r,
        Err(TransitionError::InvalidTransition { expected: StatusTag::Doing })
    ));
    let key = "alice".to_string();
    assert!(matches!(
        bridge.query(&key).unwrap().status,
        RequestStatus::Created
    ));
}

#[test]
fn token_funded_path_not_implemented() {
    let mut bridge = fresh("op");
    let r = bridge.create_request(
        "alice".to_string(),
        "Algorand".to_string(),
        "goNEAR".to_string(),
        "ADDR1".to_string(),
        Some("token.near".to_string()),
        5,
    );
    assert!(matches!(r, Err(CreateError::NotImplemented)));
    let key = "alice".to_string();
    assert!(bridge.query(&key).is_none());
}

#[test]
fn mark_unknown_requester_not_found() {
    let mut bridge = fresh("op");
    let r = bridge.mark_doing("op".to_string(), "ghost".to_string(), "H".to_string());
    assert!(matches!(r, Err(TransitionError::RequestNotFound)));
    let r = bridge.mark_done("op".to_string(), "ghost".to_string());
    assert!(matches!(r, Err(TransitionError::RequestNotFound)));
    let r = bridge.mark_error("op".to_string(), "ghost".to_string(), "e".to_string());
    assert!(matches!(r, Err(TransitionError::RequestNotFound)));
}

#[test]
fn recreate_after_terminal_overwrites() {
    let mut bridge = fresh("op");
    create_for_alice(&mut bridge);
    bridge
        .mark_doing("op".to_string(), "alice".to_string(), "HASH1".to_string())
        .unwrap();
    bridge.mark_done("op".to_string(), "alice".to_string()).unwrap();
    bridge
        .create_request(
            "alice".to_string(),
            "Algorand".to_string(),
            "goNEAR".to_string(),
            "ADDR9".to_string(),
            None,
            42,
        )
        .unwrap();
    let key = "alice".to_string();
    let req = bridge.query(&key).unwrap();
    assert_eq!(req.to_address, "ADDR9");
    assert_eq!(req.from_amount_atom, "42");
    assert!(matches!(req.status, RequestStatus::Created));
}

#[test]
fn terminal_statuses_admit_no_transition() {
    let mut bridge = fresh("op");
    create_for_alice(&mut bridge);
    bridge
        .mark_doing("op".to_string(), "alice".to_string(), "HASH1".to_string())
        .unwrap();
    bridge
        .mark_error("op".to_string(), "alice".to_string(), "boom".to_string())
        .unwrap();
    let r = bridge.mark_doing("op".to_string(), "alice".to_string(), "HASH2".to_string());
    assert!(matches!(
        r,
        Err(TransitionError::InvalidTransition { expected: StatusTag::Created })
    ));
    let r = bridge.mark_done("op".to_string(), "alice".to_string());
    assert!(matches!(
        r,
        Err(TransitionError::InvalidTransition { expected: StatusTag::Doing })
    ));
    let key = "alice".to_string();
    assert!(matches!(
        bridge.query(&key).unwrap().status,
        RequestStatus::Error { .. }
    ));
}

#[test]
fn doing_twice_refused() {
    let mut bridge = fresh("op");
    create_for_alice(&mut bridge);
    bridge
        .mark_doing("op".to_string(), "alice".to_string(), "HASH1".to_string())
        .unwrap();
    let r = bridge.mark_doing("op".to_string(), "alice".to_string(), "HASH2".to_string());
    assert!(matches!(
        r,
        Err(TransitionError::InvalidTransition { expected: StatusTag::Created })
    ));
    let key = "alice".to_string();
    match &bridge.query(&key).unwrap().status {
        RequestStatus::Doing { to_txn_hash } => assert_eq!(to_txn_hash, "HASH1"),
        other => panic!("expected Doing, found {:?}", other),
    }
}

#[test]
fn error_messages_name_the_condition() {
    assert_eq!(
        ConstructError::InvalidOwner.message(),
        "owner's account id is invalid"
    );
    assert_eq!(ConstructError::AlreadyInitialized.message(), "already initialized");
    assert_eq!(
        CreateError::NotImplemented.message(),
        "token-funded transfers are not implemented"
    );
    assert_eq!(
        CreateError::UnfinishedRequestExists.message(),
        "an unfinished request exists"
    );
    assert_eq!(TransitionError::NotOwner.message(), "caller is not the operator");
    assert_eq!(TransitionError::RequestNotFound.message(), "request not found");
    assert_eq!(
        TransitionError::InvalidTransition { expected: StatusTag::Created }.message(),
        "invalid transition: expected Created"
    );
    assert_eq!(
        TransitionError::InvalidTransition { expected: StatusTag::Doing }.message(),
        "invalid transition: expected Doing"
    );
}

#[test]
fn requests_of_two_requesters_are_independent() {
    let mut bridge = fresh("op");
    create_for_alice(&mut bridge);
    bridge
        .create_request(
            "carol".to_string(),
            "Algorand".to_string(),
            "goNEAR".to_string(),
            "ADDR7".to_string(),
            None,
            9,
        )
        .unwrap();
    bridge
        .mark_doing("op".to_string(), "carol".to_string(), "HX".to_string())
        .unwrap();
    let alice = "alice".to_string();
    let carol = "carol".to_string();
    assert!(matches!(
        bridge.query(&alice).unwrap().status,
        RequestStatus::Created
    ));
    assert!(matches!(
        bridge.query(&carol).unwrap().status,
        RequestStatus::Doing { .. }
    ));
}
