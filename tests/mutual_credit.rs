use credit_node::ids::{Currency, InvoiceId, RandValue, Signature, Uid};
use credit_node::mutual_credit::{add_le, add_u128, sub_ge, sub_u128, McError, MutualCredit, U256};
use credit_node::signature_buff::{
    create_failure_signature_buffer, create_response_signature_buffer, hash_route,
    verify_failure_signature, verify_response_signature, FailureSendFunds, PendingFriendRequest,
    ResponseSendFunds,
};
use credit_node::PublicKey;
use ed25519_dalek::{Signer, SigningKey};
use sha2::{Digest, Sha512_256};

const FST: Currency = Currency { code: 0x465354 };

fn key(seed: u8) -> (SigningKey, PublicKey) {
    let sk = SigningKey::from_bytes(&[seed; 32]);
    let pk = PublicKey::new(sk.verifying_key().to_bytes());
    (sk, pk)
}

fn request(route: Vec<PublicKey>, dest_payment: u128, left_fees: u128) -> PendingFriendRequest {
    PendingFriendRequest {
        request_id: Uid { bytes: [1; 16] },
        route,
        dest_payment,
        invoice_id: InvoiceId { bytes: [2; 32] },
        left_fees,
    }
}

fn sha(data: &[u8]) -> Vec<u8> {
    Sha512_256::digest(data).to_vec()
}

#[test]
fn response_signature_buffer_layout() {
    let (_, a) = key(0xa);
    let (_, b) = key(0xb);
    let req = request(vec![a, b], 0x0102, 0);
    let resp = ResponseSendFunds {
        request_id: req.request_id,
        rand_nonce: RandValue { bytes: [3; 16] },
        signature: Signature { bytes: [0; 64] },
    };
    let mut route_bytes = a.bytes.to_vec();
    route_bytes.extend_from_slice(&b.bytes);
    let route_hash = sha(&route_bytes);
    assert_eq!(hash_route(&req.route).to_vec(), route_hash);

    let mut inner = vec![1u8; 16];
    inner.extend_from_slice(&route_hash);
    inner.extend_from_slice(&[3u8; 16]);
    let mut expected = sha(b"FUND_SUCCESS");
    expected.extend_from_slice(&sha(&inner));
    expected.extend_from_slice(&0x0102u128.to_be_bytes());
    expected.extend_from_slice(&[2u8; 32]);
    let buf = create_response_signature_buffer(&resp, &req);
    assert_eq!(buf, expected);
    assert_eq!(buf.len(), 32 + 32 + 16 + 32);
}

#[test]
fn failure_signature_buffer_layout() {
    let (_, a) = key(0xa);
    let (_, b) = key(0xb);
    let req = request(vec![a, b], 7, 0);
    let failure = FailureSendFunds {
        request_id: req.request_id,
        reporting_public_key: b,
        rand_nonce: RandValue { bytes: [4; 16] },
        signature: Signature { bytes: [0; 64] },
    };
    let mut route_bytes = a.bytes.to_vec();
    route_bytes.extend_from_slice(&b.bytes);
    let mut expected = sha(b"FUND_FAILURE");
    expected.extend_from_slice(&[1u8; 16]);
    expected.extend_from_slice(&sha(&route_bytes));
    expected.extend_from_slice(&7u128.to_be_bytes());
    expected.extend_from_slice(&[2u8; 32]);
    expected.extend_from_slice(&b.bytes);
    expected.extend_from_slice(&[4u8; 16]);
    assert_eq!(create_failure_signature_buffer(&failure, &req), expected);
}

#[test]
fn signatures_verify_over_exact_buffers() {
    let (ska, a) = key(0xa);
    let (skb, b) = key(0xb);
    let req = request(vec![a, b], 10, 1);
    let mut resp = ResponseSendFunds {
        request_id: req.request_id,
        rand_nonce: RandValue { bytes: [3; 16] },
        signature: Signature { bytes: [0; 64] },
    };
    let buf = create_response_signature_buffer(&resp, &req);
    resp.signature = Signature { bytes: skb.sign(&buf).to_bytes() };
    assert!(verify_response_signature(&resp, &req));
    // signed by a node that is not the destination
    resp.signature = Signature { bytes: ska.sign(&buf).to_bytes() };
    assert!(!verify_response_signature(&resp, &req));

    let mut failure = FailureSendFunds {
        request_id: req.request_id,
        reporting_public_key: a,
        rand_nonce: RandValue { bytes: [4; 16] },
        signature: Signature { bytes: [0; 64] },
    };
    let fbuf = create_failure_signature_buffer(&failure, &req);
    failure.signature = Signature { bytes: ska.sign(&fbuf).to_bytes() };
    assert!(verify_failure_signature(0, 0, &failure, &req).is_some());
    // a reporter off the route is refused even with a valid signature
    let (skc, c) = key(0xc);
    failure.reporting_public_key = c;
    let fbuf = create_failure_signature_buffer(&failure, &req);
    failure.signature = Signature { bytes: skc.sign(&fbuf).to_bytes() };
    assert!(verify_failure_signature(0, 0, &failure, &req).is_none());
}

fn pair() -> (MutualCredit, MutualCredit) {
    let mut payer = MutualCredit::new(FST, 0);
    payer.balance.local_max_debt = 100;
    let mut next = MutualCredit::new(FST, 0);
    next.balance.remote_max_debt = 100;
    (payer, next)
}

#[test]
fn request_then_response_moves_value() {
    let (_, a) = key(0xa);
    let (skb, b) = key(0xb);
    let (mut payer, mut dest) = pair();
    payer.outgoing_request(request(vec![a, b], 10, 1)).unwrap();
    dest.incoming_request(request(vec![a, b], 10, 1)).unwrap();
    assert_eq!(payer.balance.local_pending_debt, 11);
    assert_eq!(dest.balance.remote_pending_debt, 11);

    let mut resp = ResponseSendFunds {
        request_id: Uid { bytes: [1; 16] },
        rand_nonce: RandValue { bytes: [3; 16] },
        signature: Signature { bytes: [0; 64] },
    };
    let buf = create_response_signature_buffer(&resp, &payer.local_pending[0]);
    resp.signature = Signature { bytes: skb.sign(&buf).to_bytes() };

    dest.outgoing_response(&resp).unwrap();
    assert_eq!(dest.balance.balance, 11);
    assert_eq!(dest.balance.remote_pending_debt, 0);
    assert_eq!((dest.balance.in_fees.hi, dest.balance.in_fees.lo), (0, 1));
    assert!(dest.remote_pending.is_empty());

    payer.incoming_response(&resp).unwrap();
    assert_eq!(payer.balance.balance, -11);
    assert_eq!(payer.balance.local_pending_debt, 0);
    assert_eq!((payer.balance.out_fees.hi, payer.balance.out_fees.lo), (0, 1));

    // settled once: a second response finds nothing
    assert_eq!(payer.incoming_response(&resp).unwrap_err(), McError::RequestDoesNotExist);
    assert_eq!(dest.outgoing_response(&resp).unwrap_err(), McError::RequestDoesNotExist);
}

#[test]
fn request_then_failure_releases_debt() {
    let (ska, a) = key(0xa);
    let (_, b) = key(0xb);
    let (mut payer, mut next) = pair();
    payer.outgoing_request(request(vec![a, b], 10, 1)).unwrap();
    next.incoming_request(request(vec![a, b], 10, 1)).unwrap();
    let mut failure = FailureSendFunds {
        request_id: Uid { bytes: [1; 16] },
        reporting_public_key: a,
        rand_nonce: RandValue { bytes: [5; 16] },
        signature: Signature { bytes: [0; 64] },
    };
    let bad = failure;
    assert_eq!(payer.incoming_failure(&bad).unwrap_err(), McError::InvalidFailureSignature);
    let buf = create_failure_signature_buffer(&failure, &payer.local_pending[0]);
    failure.signature = Signature { bytes: ska.sign(&buf).to_bytes() };
    payer.incoming_failure(&failure).unwrap();
    assert_eq!(payer.balance.local_pending_debt, 0);
    assert_eq!(payer.balance.balance, 0);
    next.outgoing_failure(&failure).unwrap();
    assert_eq!(next.balance.remote_pending_debt, 0);
    assert_eq!(payer.incoming_failure(&failure).unwrap_err(), McError::RequestDoesNotExist);
    assert_eq!(next.outgoing_failure(&failure).unwrap_err(), McError::RequestDoesNotExist);
}

#[test]
fn response_with_bad_signature_is_refused() {
    let (_, a) = key(0xa);
    let (_, b) = key(0xb);
    let (mut payer, _) = pair();
    payer.outgoing_request(request(vec![a, b], 10, 1)).unwrap();
    let resp = ResponseSendFunds {
        request_id: Uid { bytes: [1; 16] },
        rand_nonce: RandValue { bytes: [3; 16] },
        signature: Signature { bytes: [9; 64] },
    };
    assert_eq!(payer.incoming_response(&resp).unwrap_err(), McError::InvalidResponseSignature);
    assert_eq!(payer.balance.local_pending_debt, 11);
}

#[test]
fn requests_respect_debt_caps() {
    let (_, a) = key(0xa);
    let (_, b) = key(0xb);
    let (mut payer, mut next) = pair();
    assert_eq!(
        payer.outgoing_request(request(vec![a, b], 100, 1)).unwrap_err(),
        McError::InsufficientTrust
    );
    assert_eq!(
        next.incoming_request(request(vec![a, b], 100, 1)).unwrap_err(),
        McError::InsufficientTrust
    );
    payer.outgoing_request(request(vec![a, b], 99, 1)).unwrap();
    assert_eq!(
        payer.outgoing_request(request(vec![a, b], 1, 0)).unwrap_err(),
        McError::RequestAlreadyExists
    );
    assert_eq!(
        next.incoming_request(request(vec![a, b], u128::MAX, 1)).unwrap_err(),
        McError::CreditsCalcOverflow
    );
    next.incoming_request(request(vec![a, b], 99, 1)).unwrap();
    assert_eq!(
        next.incoming_request(request(vec![a, b], 0, 0)).unwrap_err(),
        McError::RequestAlreadyExists
    );
}

#[test]
fn u256_add_carries() {
    let a = U256 { hi: 0, lo: u128::MAX };
    let b = a.checked_add_u128(1).unwrap();
    assert_eq!((b.hi, b.lo), (1, 0));
    let top = U256 { hi: u128::MAX, lo: u128::MAX };
    assert!(top.checked_add_u128(1).is_none());
    assert!(U256::zero().checked_add_u128(5).unwrap().lo == 5);
}

#[test]
fn balance_arithmetic_helpers() {
    assert!(add_le(-5, 10, 5));
    assert!(!add_le(-5, 11, 5));
    assert!(add_le(i128::MIN, u128::MAX, u128::MAX));
    assert!(sub_ge(5, 10, 5));
    assert!(!sub_ge(5, 11, 5));
    assert_eq!(add_u128(i128::MIN, u128::MAX), Some(i128::MAX));
    assert_eq!(add_u128(1, i128::MAX as u128), None);
    assert_eq!(sub_u128(i128::MAX, u128::MAX), Some(i128::MIN));
    assert_eq!(sub_u128(-1, i128::MAX as u128 + 1), None);
    assert_eq!(sub_u128(0, 1u128 << 127), Some(i128::MIN));
}
