use halfmoon_bridge::amount::to_decimal_string;
use halfmoon_bridge::model::{BridgeRequest, RequestStatus};

fn sample(status: RequestStatus, from_token_address: Option<String>) -> BridgeRequest {
    BridgeRequest {
        to_blockchain: "Algorand".to_string(),
        to_token: "goNEAR".to_string(),
        to_address: "ADDR1".to_string(),
        from_token_address,
        from_amount_atom: "1000".to_string(),
        status,
    }
}

fn assert_round_trips(req: &BridgeRequest) {
    let bytes = req.serialize();
    let back = BridgeRequest::deserialize(&bytes).expect("an encoded record must decode");
    assert_eq!(back.to_blockchain, req.to_blockchain);
    assert_eq!(back.to_token, req.to_token);
    assert_eq!(back.to_address, req.to_address);
    assert_eq!(back.from_token_address, req.from_token_address);
    assert_eq!(back.from_amount_atom, req.from_amount_atom);
    match (&back.status, &req.status) {
        (RequestStatus::Created, RequestStatus::Created) => {}
        (RequestStatus::Doing { to_txn_hash: a }, RequestStatus::Doing { to_txn_hash: b }) => {
            assert_eq!(a, b)
        }
        (RequestStatus::Done { to_txn_hash: a }, RequestStatus::Done { to_txn_hash: b }) => {
            assert_eq!(a, b)
        }
        (
            RequestStatus::Error { to_txn_hash: a, error: ea },
            RequestStatus::Error { to_txn_hash: b, error: eb },
        ) => {
            assert_eq!(a, b);
            assert_eq!(ea, eb);
        }
        (got, want) => panic!("status changed: got {:?}, want {:?}", got, want),
    }
    let again = back.serialize();
    assert_eq!(again, bytes);
}

#[test]
fn round_trip_every_status() {
    assert_round_trips(&sample(RequestStatus::Created, None));
    assert_round_trips(&sample(
        RequestStatus::Doing { to_txn_hash: "HASH1".to_string() },
        None,
    ));
    assert_round_trips(&sample(
        RequestStatus::Done { to_txn_hash: "HASH1".to_string() },
        Some("token.near".to_string()),
    ));
    assert_round_trips(&sample(
        RequestStatus::Error {
            to_txn_hash: "HASH1".to_string(),
            error: "network error".to_string(),
        },
        None,
    ));
}

#[test]
fn round_trip_empty_and_multibyte_strings() {
    let req = BridgeRequest {
        to_blockchain: String::new(),
        to_token: "??".to_string(),
        to_address: "ü€字".to_string(),
        from_token_address: Some(String::new()),
        from_amount_atom: "0".to_string(),
        status: RequestStatus::Error {
            to_txn_hash: String::new(),
            error: "código 🚀".to_string(),
        },
    };
    assert_round_trips(&req);
}

#[test]
fn serialized_bytes_are_exact() {
    let req = BridgeRequest {
        to_blockchain: "ab".to_string(),
        to_token: String::new(),
        to_address: "c".to_string(),
        from_token_address: None,
        from_amount_atom: "7".to_string(),
        status: RequestStatus::Created,
    };
    let bytes = req.serialize();
    let expected: Vec<u8> = vec![
        2, 0, 0, 0, 0, 0, 0, 0, b'a', b'b', // to_blockchain
        0, 0, 0, 0, 0, 0, 0, 0, // to_token (empty)
        1, 0, 0, 0, 0, 0, 0, 0, b'c', // to_address
        0, // no token address
        1, 0, 0, 0, 0, 0, 0, 0, b'7', // from_amount_atom
        0, // status Created
    ];
    assert_eq!(bytes, expected);
}

#[test]
fn deserialize_rejects_garbage() {
    assert!(BridgeRequest::deserialize(&[]).is_none());
    assert!(BridgeRequest::deserialize(&[1, 2, 3]).is_none());
    // Length prefix promising more bytes than exist.
    assert!(BridgeRequest::deserialize(&[255, 0, 0, 0, 0, 0, 0, 0]).is_none());
    // A valid record with a trailing byte is refused.
    let mut bytes = sample(RequestStatus::Created, None).serialize();
    bytes.push(0);
    assert!(BridgeRequest::deserialize(&bytes).is_none());
    // A valid record with its string bytes replaced by invalid UTF-8.
    let mut bytes = sample(RequestStatus::Created, None).serialize();
    bytes[8] = 0xff;
    assert!(BridgeRequest::deserialize(&bytes).is_none());
}

#[test]
fn decimal_formatting_is_exact() {
    assert_eq!(to_decimal_string(0), "0");
    assert_eq!(to_decimal_string(7), "7");
    assert_eq!(to_decimal_string(10), "10");
    assert_eq!(to_decimal_string(305), "305");
    assert_eq!(to_decimal_string(3 * 10u128.pow(24)), "3000000000000000000000000");
    assert_eq!(
        to_decimal_string(u128::MAX),
        "340282366920938463463374607431768211455"
    );
}
