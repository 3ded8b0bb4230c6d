use vstd::prelude::*;

use crate::ids::{append_bytes, InvoiceId, RandValue, Signature, Uid};
use crate::keys::PublicKey;
use crate::primitives::{be_bytes, sha512_256_of, sha_512_256, signature_valid, verify_signature, write_u128_be};

verus! {

/// The ASCII bytes of "FUND_SUCCESS", the domain prefix of a response signature buffer.
pub open spec fn fund_success_bytes() -> Seq<u8> {
    seq![70u8, 85, 78, 68, 95, 83, 85, 67, 67, 69, 83, 83]
}

/// The ASCII bytes of "FUND_FAILURE", the domain prefix of a failure signature buffer.
pub open spec fn fund_failure_bytes() -> Seq<u8> {
    seq![70u8, 85, 78, 68, 95, 70, 65, 73, 76, 85, 82, 69]
}

/// "FUND_SUCCESS" as bytes.
pub fn fund_success_prefix() -> (r: [u8; 12])
    ensures
        r@ == fund_success_bytes(),
{
    let r: [u8; 12] = [70u8, 85, 78, 68, 95, 83, 85, 67, 67, 69, 83, 83];
    assert(r@ =~= fund_success_bytes());
    r
}

/// "FUND_FAILURE" as bytes.
pub fn fund_failure_prefix() -> (r: [u8; 12])
    ensures
        r@ == fund_failure_bytes(),
{
    let r: [u8; 12] = [70u8, 85, 78, 68, 95, 70, 65, 73, 76, 85, 82, 69];
    assert(r@ =~= fund_failure_bytes());
    r
}

/// The fields of a payment request that the signatures of its outcome cover.
#[derive(Debug)]
pub struct PendingFriendRequest {
    pub request_id: Uid,
    /// The nodes of the route, from the payer to the destination.
    pub route: Vec<PublicKey>,
    pub dest_payment: u128,
    pub invoice_id: InvoiceId,
    /// Fees left for the nodes after this one on the route.
    pub left_fees: u128,
}

/// The mathematical value of a pending request.
pub ghost struct PendingView {
    pub request_id: Uid,
    pub route: Seq<PublicKey>,
    pub dest_payment: u128,
    pub invoice_id: InvoiceId,
    pub left_fees: u128,
}

impl PendingFriendRequest {
    pub open spec fn view(&self) -> PendingView {
        PendingView {
            request_id: self.request_id,
            route: self.route@,
            dest_payment: self.dest_payment,
            invoice_id: self.invoice_id,
            left_fees: self.left_fees,
        }
    }

    /// A copy with the same value.
    pub fn duplicate(&self) -> (r: PendingFriendRequest)
        ensures
            r@ == self@,
    {
        let route = self.route.clone();
        assert(route@ =~= self.route@);
        PendingFriendRequest {
            request_id: self.request_id,
            route,
            dest_payment: self.dest_payment,
            invoice_id: self.invoice_id,
            left_fees: self.left_fees,
        }
    }
}

/// A successful outcome of a payment request, signed by its destination.
#[derive(Debug, Clone, Copy)]
pub struct ResponseSendFunds {
    pub request_id: Uid,
    pub rand_nonce: RandValue,
    pub signature: Signature,
}

/// A failed outcome of a payment request, signed by the node that reports it.
#[derive(Debug, Clone, Copy)]
pub struct FailureSendFunds {
    pub request_id: Uid,
    pub reporting_public_key: PublicKey,
    pub rand_nonce: RandValue,
    pub signature: Signature,
}

/// The keys of a route, one after the other.
pub open spec fn route_bytes(route: Seq<PublicKey>) -> Seq<u8>
    decreases route.len(),
{
    if route.len() == 0 {
        Seq::empty()
    } else {
        route_bytes(route.drop_last()) + route.last()@
    }
}

/// The hash that stands for a route in signed buffers.
pub open spec fn route_hash(route: Seq<PublicKey>) -> Seq<u8> {
    sha512_256_of(route_bytes(route))
}

/// `SHA-512/256("FUND_SUCCESS") ‖ SHA-512/256(request_id ‖ route_hash ‖ rand_nonce) ‖
/// dest_payment ‖ invoice_id`, the payment as 16 big-endian bytes.
pub open spec fn response_signature_bytes(
    request_id: Seq<u8>,
    route: Seq<PublicKey>,
    rand_nonce: Seq<u8>,
    dest_payment: u128,
    invoice_id: Seq<u8>,
) -> Seq<u8> {
    sha512_256_of(fund_success_bytes()) + sha512_256_of(request_id + route_hash(route) + rand_nonce)
        + be_bytes(dest_payment as nat, 16) + invoice_id
}

/// `SHA-512/256("FUND_FAILURE") ‖ request_id ‖ route_hash ‖ dest_payment ‖ invoice_id ‖
/// reporting_public_key ‖ rand_nonce`, the payment as 16 big-endian bytes.
pub open spec fn failure_signature_bytes(
    request_id: Seq<u8>,
    route: Seq<PublicKey>,
    dest_payment: u128,
    invoice_id: Seq<u8>,
    reporting_public_key: Seq<u8>,
    rand_nonce: Seq<u8>,
) -> Seq<u8> {
    sha512_256_of(fund_failure_bytes()) + request_id + route_hash(route) + be_bytes(
        dest_payment as nat,
        16,
    ) + invoice_id + reporting_public_key + rand_nonce
}

/// Appends the keys of a route, one after the other.
pub fn append_route(buf: &mut Vec<u8>, route: &Vec<PublicKey>)
    ensures
        final(buf)@ == old(buf)@ + route_bytes(route@),
{
    let mut i: usize = 0;
    while i < route.len()
        invariant
            0 <= i <= route@.len(),
            buf@ == old(buf)@ + route_bytes(route@.subrange(0, i as int)),
        decreases route@.len() - i,
    {
        let pk = route[i];
        append_bytes(buf, &pk.bytes);
        assert(route@.subrange(0, i + 1).drop_last() =~= route@.subrange(0, i as int));
        assert(buf@ =~= old(buf)@ + route_bytes(route@.subrange(0, i + 1)));
        i = i + 1;
    }
    assert(route@.subrange(0, route@.len() as int) =~= route@);
}

/// The hash of a route: SHA-512/256 over its keys in order.
pub fn hash_route(route: &Vec<PublicKey>) -> (r: [u8; 32])
    ensures
        r@ == route_hash(route@),
{
    let mut buf: Vec<u8> = Vec::new();
    append_route(&mut buf, route);
    assert(buf@ =~= route_bytes(route@));
    sha_512_256(buf.as_slice()).bytes
}

/// The buffer that the destination signs to confirm a payment. It covers
/// the request's fields, not only the response's.
pub fn create_response_signature_buffer(
    response_send_funds: &ResponseSendFunds,
    pending_request: &PendingFriendRequest,
) -> (r: Vec<u8>)
    ensures
        r@ == response_signature_bytes(
            pending_request.request_id@,
            pending_request.route@,
            response_send_funds.rand_nonce@,
            pending_request.dest_payment,
            pending_request.invoice_id@,
        ),
{
    let mut sbuffer: Vec<u8> = Vec::new();
    let prefix_bytes = fund_success_prefix();
    let prefix = sha_512_256(&prefix_bytes);
    append_bytes(&mut sbuffer, &prefix.bytes);
    let mut inner_blob: Vec<u8> = Vec::new();
    append_bytes(&mut inner_blob, &pending_request.request_id.bytes);
    let rh = hash_route(&pending_request.route);
    append_bytes(&mut inner_blob, &rh);
    append_bytes(&mut inner_blob, &response_send_funds.rand_nonce.bytes);
    let inner = sha_512_256(inner_blob.as_slice());
    append_bytes(&mut sbuffer, &inner.bytes);
    write_u128_be(&mut sbuffer, pending_request.dest_payment);
    append_bytes(&mut sbuffer, &pending_request.invoice_id.bytes);
    sbuffer
}

/// The buffer that a reporting node signs to declare a payment failed.
pub fn create_failure_signature_buffer(
    failure_send_funds: &FailureSendFunds,
    pending_request: &PendingFriendRequest,
) -> (r: Vec<u8>)
    ensures
        r@ == failure_signature_bytes(
            pending_request.request_id@,
            pending_request.route@,
            pending_request.dest_payment,
            pending_request.invoice_id@,
            failure_send_funds.reporting_public_key@,
            failure_send_funds.rand_nonce@,
        ),
{
    let mut sbuffer: Vec<u8> = Vec::new();
    let prefix_bytes = fund_failure_prefix();
    let prefix = sha_512_256(&prefix_bytes);
    append_bytes(&mut sbuffer, &prefix.bytes);
    append_bytes(&mut sbuffer, &pending_request.request_id.bytes);
    let rh = hash_route(&pending_request.route);
    append_bytes(&mut sbuffer, &rh);
    write_u128_be(&mut sbuffer, pending_request.dest_payment);
    append_bytes(&mut sbuffer, &pending_request.invoice_id.bytes);
    append_bytes(&mut sbuffer, &failure_send_funds.reporting_public_key.bytes);
    append_bytes(&mut sbuffer, &failure_send_funds.rand_nonce.bytes);
    sbuffer
}

/// The key `k` is one of the route's nodes.
pub open spec fn on_route(route: Seq<PublicKey>, k: Seq<u8>) -> bool {
    exists|i: int| 0 <= i < route.len() && route[i]@ == k
}

/// Position of `k` on the route, if it is there.
pub fn pk_to_index(route: &Vec<PublicKey>, k: &PublicKey) -> (r: Option<usize>)
    ensures
        r matches Some(i) ==> i < route@.len() && route@[i as int]@ == k@,
        r is None ==> !on_route(route@, k@),
{
    let mut i: usize = 0;
    while i < route.len()
        invariant
            0 <= i <= route@.len(),
            forall|j: int| 0 <= j < i ==> route@[j]@ != k@,
        decreases route@.len() - i,
    {
        if route[i].equals(k) {
            return Some(i);
        }
        i = i + 1;
    }
    None
}

/// A failure report holds when its reporting key is on the request's route
/// and its signature by that key over the failure buffer verifies.
pub open spec fn failure_signature_holds(
    failure_send_funds: FailureSendFunds,
    pending_request: PendingView,
) -> bool {
    &&& on_route(pending_request.route, failure_send_funds.reporting_public_key@)
    &&& signature_valid(
        failure_signature_bytes(
            pending_request.request_id@,
            pending_request.route,
            pending_request.dest_payment,
            pending_request.invoice_id@,
            failure_send_funds.reporting_public_key@,
            failure_send_funds.rand_nonce@,
        ),
        failure_send_funds.reporting_public_key@,
        failure_send_funds.signature@,
    )
}

/// A response holds when the route has a destination and the destination's
/// signature over the response buffer verifies.
pub open spec fn response_signature_holds(
    response_send_funds: ResponseSendFunds,
    pending_request: PendingView,
) -> bool {
    &&& pending_request.route.len() > 0
    &&& signature_valid(
        response_signature_bytes(
            pending_request.request_id@,
            pending_request.route,
            response_send_funds.rand_nonce@,
            pending_request.dest_payment,
            pending_request.invoice_id@,
        ),
        pending_request.route.last()@,
        response_send_funds.signature@,
    )
}

/// Verifies a failure report against the request it answers. The two
/// positions on the route are not consulted.
pub fn verify_failure_signature(
    index: usize,
    reporting_index: usize,
    failure_send_funds: &FailureSendFunds,
    pending_request: &PendingFriendRequest,
) -> (r: Option<()>)
    ensures
        r is Some <==> failure_signature_holds(*failure_send_funds, pending_request@),
{
    let failure_signature_buffer = create_failure_signature_buffer(
        failure_send_funds,
        pending_request,
    );
    let reporting_public_key = &failure_send_funds.reporting_public_key;
    if pk_to_index(&pending_request.route, reporting_public_key).is_none() {
        return None;
    }
    if !verify_signature(
        failure_signature_buffer.as_slice(),
        reporting_public_key,
        &failure_send_funds.signature,
    ) {
        return None;
    }
    Some(())
}

/// Verifies a response against the request it answers: the signer is the
/// route's destination.
pub fn verify_response_signature(
    response_send_funds: &ResponseSendFunds,
    pending_request: &PendingFriendRequest,
) -> (r: bool)
    ensures
        r == response_signature_holds(*response_send_funds, pending_request@),
{
    let n = pending_request.route.len();
    if n == 0 {
        return false;
    }
    let buffer = create_response_signature_buffer(response_send_funds, pending_request);
    let dest = pending_request.route[n - 1];
    verify_signature(buffer.as_slice(), &dest, &response_send_funds.signature)
}

} // verus!
