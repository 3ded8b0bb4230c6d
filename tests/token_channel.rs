use credit_node::ids::{Currency, HashResult, InvoiceId, RandValue, Signature, Uid};
use credit_node::move_token::{create_move_token_buffer, hash_move_token, MoveToken};
use credit_node::mutual_credit::FriendTcOp;
use credit_node::operations::{TcOp, TokenChannelError};
use credit_node::reset::ResetTerms;
use credit_node::signature_buff::PendingFriendRequest;
use credit_node::token_channel::{ReceiveMoveTokenOutput, TcStatus, TokenChannel};
use credit_node::PublicKey;
use ed25519_dalek::{Signer, SigningKey};

const FST: Currency = Currency { code: 0x465354 };

struct Side {
    sk: SigningKey,
    tc: TokenChannel,
}

fn key(seed: u8) -> (SigningKey, PublicKey) {
    let sk = SigningKey::from_bytes(&[seed; 32]);
    let pk = PublicKey::new(sk.verifying_key().to_bytes());
    (sk, pk)
}

/// The side that holds the turn first, then the other.
fn sides() -> (Side, Side) {
    let (ska, pka) = key(0xa);
    let (skb, pkb) = key(0xb);
    let a = Side { sk: ska, tc: TokenChannel::new(pka, pkb) };
    let b = Side { sk: skb, tc: TokenChannel::new(pkb, pka) };
    match a.tc.status {
        TcStatus::ConsistentIn(_) => (a, b),
        TcStatus::ConsistentOut(..) => (b, a),
        TcStatus::Inconsistent(..) => unreachable!(),
    }
}

/// Moves from `from` with the operations `ops()` and hands the same move to `to`.
fn send(from: &mut Side, to: &mut Side, ops: fn() -> Vec<TcOp>, nonce: u8) -> ReceiveMoveTokenOutput {
    let rand_nonce = RandValue { bytes: [nonce; 16] };
    let buf = from.tc.move_token_buffer(&ops(), &rand_nonce).unwrap();
    let signature = Signature { bytes: from.sk.sign(&buf).to_bytes() };
    from.tc.handle_out_move_token(ops(), rand_nonce, signature).unwrap();
    let out = from.tc.outgoing_move_token().unwrap();
    let mt = MoveToken {
        old_token: out.old_token,
        operations: ops(),
        rand_nonce: out.rand_nonce,
        move_token_counter: out.move_token_counter,
        signature: out.signature,
    };
    to.tc.handle_in_move_token(mt)
}

fn add_fst() -> Vec<TcOp> {
    vec![TcOp::AddCurrency(FST)]
}

fn allow_100() -> Vec<TcOp> {
    vec![TcOp::SetRemoteMaxDebt((FST, 100))]
}

fn no_ops() -> Vec<TcOp> {
    Vec::new()
}

fn copy_terms(t: &ResetTerms) -> ResetTerms {
    ResetTerms {
        reset_token: t.reset_token,
        move_token_counter: t.move_token_counter,
        balances: t.balances.clone(),
    }
}

fn local_terms(tc: &TokenChannel) -> &ResetTerms {
    match &tc.status {
        TcStatus::Inconsistent(t, _) => t,
        _ => panic!("channel is consistent"),
    }
}

#[test]
fn test_move_token_basic() {
    let (mut b, mut a) = sides();
    assert!(matches!(a.tc.status, TcStatus::ConsistentOut(..)));
    // Send a MoveToken message from b to a:
    let res = send(&mut b, &mut a, add_fst, 1);
    assert_eq!(res, ReceiveMoveTokenOutput::Received);
    assert_eq!(a.tc.mutual_credits.len(), 1);
    assert_eq!(b.tc.mutual_credits.len(), 1);
    assert!(matches!(a.tc.status, TcStatus::ConsistentIn(_)));
    assert!(matches!(b.tc.status, TcStatus::ConsistentOut(..)));
}

#[test]
fn initial_tokens_agree() {
    let (first, second) = sides();
    let h = match first.tc.status {
        TcStatus::ConsistentIn(h) => h,
        _ => unreachable!(),
    };
    let out = second.tc.outgoing_move_token().unwrap();
    assert_eq!(hash_move_token(out).new_token.bytes, h.new_token.bytes);
    assert_eq!(h.move_token_counter, 0);
}

#[test]
fn counters_increase_and_tokens_chain() {
    let (mut x, mut y) = sides();
    let before = x.tc.last_counter();
    assert_eq!(send(&mut x, &mut y, add_fst, 1), ReceiveMoveTokenOutput::Received);
    assert_eq!(x.tc.last_counter(), before + 1);
    assert_eq!(y.tc.last_counter(), before + 1);
    let h = match y.tc.status {
        TcStatus::ConsistentIn(h) => h,
        _ => unreachable!(),
    };
    assert_eq!(send(&mut y, &mut x, no_ops, 2), ReceiveMoveTokenOutput::Received);
    let out = y.tc.outgoing_move_token().unwrap();
    assert_eq!(out.old_token.bytes, h.new_token.bytes);
    assert_eq!(out.move_token_counter, before + 2);
}

#[test]
fn retransmission_is_idempotent() {
    let (mut x, mut y) = sides();
    assert_eq!(send(&mut x, &mut y, add_fst, 1), ReceiveMoveTokenOutput::Received);
    // x resends its move: y already holds it
    let out = x.tc.outgoing_move_token().unwrap();
    let again = MoveToken {
        old_token: out.old_token,
        operations: add_fst(),
        rand_nonce: out.rand_nonce,
        move_token_counter: out.move_token_counter,
        signature: out.signature,
    };
    assert_eq!(y.tc.handle_in_move_token(again), ReceiveMoveTokenOutput::Duplicate);
    assert_eq!(y.tc.mutual_credits.len(), 1);
    assert!(matches!(y.tc.status, TcStatus::ConsistentIn(_)));
}

#[test]
fn out_move_needs_turn_and_own_signature() {
    let (mut x, mut y) = sides();
    let rn = RandValue { bytes: [1; 16] };
    assert_eq!(
        y.tc.move_token_buffer(&add_fst(), &rn).unwrap_err(),
        TokenChannelError::NotOurTurn
    );
    assert_eq!(
        y.tc.handle_out_move_token(add_fst(), rn, Signature { bytes: [0; 64] }).unwrap_err(),
        TokenChannelError::NotOurTurn
    );
    let buf = x.tc.move_token_buffer(&add_fst(), &rn).unwrap();
    let wrong = Signature { bytes: y.sk.sign(&buf).to_bytes() };
    assert_eq!(
        x.tc.handle_out_move_token(add_fst(), rn, wrong).unwrap_err(),
        TokenChannelError::InvalidSignature
    );
    // an operation that cannot apply refuses the whole move
    let buf = x.tc.move_token_buffer(&allow_100(), &rn).unwrap();
    let sig = Signature { bytes: x.sk.sign(&buf).to_bytes() };
    assert_eq!(
        x.tc.handle_out_move_token(allow_100(), rn, sig).unwrap_err(),
        TokenChannelError::UnknownCurrency
    );
    assert!(matches!(x.tc.status, TcStatus::ConsistentIn(_)));
}

fn pay_request() -> Vec<TcOp> {
    let (_, a) = key(0xa);
    let (_, b) = key(0xb);
    vec![TcOp::Credit((
        FST,
        FriendTcOp::RequestSendFunds(PendingFriendRequest {
            request_id: Uid { bytes: [1; 16] },
            route: vec![a, b],
            dest_payment: 10,
            invoice_id: InvoiceId { bytes: [2; 32] },
            left_fees: 1,
        }),
    ))]
}

/// x and y with one currency, a cap of 100 each way, and one request from
/// x pending on both sides; x holds the last move sent.
fn with_pending_request() -> (Side, Side) {
    let (mut x, mut y) = sides();
    assert_eq!(send(&mut x, &mut y, add_fst, 1), ReceiveMoveTokenOutput::Received);
    assert_eq!(send(&mut y, &mut x, allow_100, 2), ReceiveMoveTokenOutput::Received);
    assert_eq!(send(&mut x, &mut y, allow_100, 3), ReceiveMoveTokenOutput::Received);
    assert_eq!(send(&mut y, &mut x, no_ops, 4), ReceiveMoveTokenOutput::Received);
    assert_eq!(send(&mut x, &mut y, pay_request, 5), ReceiveMoveTokenOutput::Received);
    assert_eq!(x.tc.mutual_credits[0].local_pending.len(), 1);
    assert_eq!(y.tc.mutual_credits[0].remote_pending.len(), 1);
    assert_eq!(x.tc.mutual_credits[0].balance.local_pending_debt, 11);
    (x, y)
}

#[test]
fn inconsistency_on_counter_skip() {
    let (mut x, mut y) = with_pending_request();
    let prev = y.tc.last_counter();
    // y holds the turn and sends a move whose counter skips one.
    let h = match y.tc.status {
        TcStatus::ConsistentIn(h) => h,
        _ => unreachable!(),
    };
    let rn = RandValue { bytes: [6; 16] };
    let skipped = prev + 2;
    let buf = create_move_token_buffer(&h.new_token, &no_ops(), &rn, skipped);
    let signature = Signature { bytes: y.sk.sign(&buf).to_bytes() };
    let mt = MoveToken {
        old_token: h.new_token,
        operations: no_ops(),
        rand_nonce: rn,
        move_token_counter: skipped,
        signature,
    };
    assert_eq!(x.tc.handle_in_move_token(mt), ReceiveMoveTokenOutput::ChainInconsistency);
    let t = local_terms(&x.tc);
    assert!(t.move_token_counter > skipped);
    assert_eq!(t.balances.len(), 1);
    assert_eq!(t.balances[0].0, FST);
    assert_eq!(t.balances[0].1.balance, x.tc.mutual_credits[0].balance.balance);
    // the ledgers are untouched until a reset
    assert_eq!(x.tc.mutual_credits[0].local_pending.len(), 1);
    // sticky: a proper move does not bring it back
    let _ = y;
}

#[test]
fn reset_accept() {
    let (mut x, mut y) = with_pending_request();
    // x goes inconsistent on a bogus move, y on another.
    let bogus = |tc: &mut TokenChannel| {
        let mt = MoveToken {
            old_token: HashResult { bytes: [7; 32] },
            operations: Vec::new(),
            rand_nonce: RandValue { bytes: [0; 16] },
            move_token_counter: 1000,
            signature: Signature { bytes: [0; 64] },
        };
        tc.handle_in_move_token(mt)
    };
    assert_eq!(bogus(&mut x.tc), ReceiveMoveTokenOutput::ChainInconsistency);
    assert_eq!(bogus(&mut y.tc), ReceiveMoveTokenOutput::ChainInconsistency);
    let x_terms = copy_terms(local_terms(&x.tc));
    let y_terms = copy_terms(local_terms(&y.tc));
    assert!(x_terms.move_token_counter > 1000);
    x.tc.set_remote_reset_terms(copy_terms(&y_terms)).unwrap();
    y.tc.set_remote_reset_terms(copy_terms(&x_terms)).unwrap();

    // x accepts y's terms.
    x.tc.accept_remote_reset().unwrap();
    match x.tc.status {
        TcStatus::ConsistentIn(h) => {
            assert_eq!(h.new_token.bytes, y_terms.reset_token.bytes);
            assert_eq!(h.move_token_counter, y_terms.move_token_counter);
        }
        _ => panic!("not consistent"),
    }
    let mc = &x.tc.mutual_credits[0];
    assert!(mc.local_pending.is_empty() && mc.remote_pending.is_empty());
    assert_eq!(mc.balance.local_pending_debt, 0);
    assert_eq!(mc.balance.balance, -y_terms.balances[0].1.balance);

    // The next move chains from the reset token and resumes y.
    assert_eq!(send(&mut x, &mut y, no_ops, 9), ReceiveMoveTokenOutput::Received);
    let out = x.tc.outgoing_move_token().unwrap();
    assert_eq!(out.old_token.bytes, y_terms.reset_token.bytes);
    assert_eq!(out.move_token_counter, y_terms.move_token_counter + 1);
    assert!(matches!(y.tc.status, TcStatus::ConsistentIn(_)));
    let mc = &y.tc.mutual_credits[0];
    assert!(mc.local_pending.is_empty() && mc.remote_pending.is_empty());
    assert_eq!(mc.balance.balance, y_terms.balances[0].1.balance);
}

#[test]
fn reset_terms_are_checked() {
    let (mut x, _) = sides();
    assert_eq!(x.tc.accept_remote_reset().unwrap_err(), TokenChannelError::NoResetTerms);
    let (mut p, mut q) = with_pending_request();
    let mt = MoveToken {
        old_token: HashResult { bytes: [7; 32] },
        operations: Vec::new(),
        rand_nonce: RandValue { bytes: [0; 16] },
        move_token_counter: 5,
        signature: Signature { bytes: [0; 64] },
    };
    assert_eq!(p.tc.handle_in_move_token(mt), ReceiveMoveTokenOutput::ChainInconsistency);
    assert_eq!(p.tc.accept_remote_reset().unwrap_err(), TokenChannelError::NoResetTerms);
    let mut forged = copy_terms(local_terms(&p.tc));
    forged.move_token_counter += 1;
    assert_eq!(
        p.tc.set_remote_reset_terms(forged).unwrap_err(),
        TokenChannelError::InvalidResetTerms
    );
    let t = copy_terms(local_terms(&p.tc));
    assert_eq!(q.tc.set_remote_reset_terms(t).unwrap_err(), TokenChannelError::NoResetTerms);
}

#[test]
fn move_while_inconsistent_is_ignored() {
    let (mut x, mut y) = with_pending_request();
    let mt = MoveToken {
        old_token: HashResult { bytes: [7; 32] },
        operations: Vec::new(),
        rand_nonce: RandValue { bytes: [0; 16] },
        move_token_counter: 1,
        signature: Signature { bytes: [0; 64] },
    };
    assert_eq!(x.tc.handle_in_move_token(mt), ReceiveMoveTokenOutput::ChainInconsistency);
    let mt = MoveToken {
        old_token: HashResult { bytes: [7; 32] },
        operations: Vec::new(),
        rand_nonce: RandValue { bytes: [0; 16] },
        move_token_counter: 2,
        signature: Signature { bytes: [0; 64] },
    };
    assert_eq!(x.tc.handle_in_move_token(mt), ReceiveMoveTokenOutput::Ignored);
    let _ = &mut y;
}

fn big_request() -> Vec<TcOp> {
    let (_, a) = key(0xa);
    let (_, b) = key(0xb);
    vec![TcOp::Credit((
        FST,
        FriendTcOp::RequestSendFunds(PendingFriendRequest {
            request_id: Uid { bytes: [3; 16] },
            route: vec![a, b],
            dest_payment: 200,
            invoice_id: InvoiceId { bytes: [2; 32] },
            left_fees: 0,
        }),
    ))]
}

#[test]
fn caps_hold_after_applied_moves() {
    let (x, y) = with_pending_request();
    for side in [&x, &y] {
        for mc in &side.tc.mutual_credits {
            let b = mc.balance;
            assert!(b.balance - (b.local_pending_debt as i128) >= -(b.local_max_debt as i128));
            assert!(b.balance + (b.remote_pending_debt as i128) <= b.remote_max_debt as i128);
        }
    }
}

#[test]
fn request_over_cap_breaks_the_chain() {
    let (mut x, mut y) = with_pending_request();
    // y holds the turn; y answers with nothing, then x may move.
    assert_eq!(send(&mut y, &mut x, no_ops, 6), ReceiveMoveTokenOutput::Received);
    // x's own ledger refuses a request above its cap:
    let rn = RandValue { bytes: [8; 16] };
    let buf = x.tc.move_token_buffer(&big_request(), &rn).unwrap();
    let signature = Signature { bytes: x.sk.sign(&buf).to_bytes() };
    assert!(matches!(
        x.tc.handle_out_move_token(big_request(), rn, signature),
        Err(TokenChannelError::InvalidCredit(_))
    ));
    // A peer that sends it anyway makes the channel inconsistent, with no
    // operation of the move applied.
    let h = match x.tc.status {
        TcStatus::ConsistentIn(h) => h,
        _ => unreachable!(),
    };
    let mt = MoveToken {
        old_token: h.new_token,
        operations: big_request(),
        rand_nonce: rn,
        move_token_counter: h.move_token_counter + 1,
        signature,
    };
    let pending_before = y.tc.mutual_credits[0].remote_pending.len();
    assert_eq!(y.tc.handle_in_move_token(mt), ReceiveMoveTokenOutput::ChainInconsistency);
    assert_eq!(y.tc.mutual_credits[0].remote_pending.len(), pending_before);
    assert!(matches!(y.tc.status, TcStatus::Inconsistent(_, None)));
}
