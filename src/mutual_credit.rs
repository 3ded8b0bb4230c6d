use vstd::prelude::*;

use crate::ids::{same_bytes, Currency, Uid};
use crate::signature_buff::{
    failure_signature_holds, response_signature_holds, verify_failure_signature,
    verify_response_signature, FailureSendFunds, PendingFriendRequest, PendingView,
    ResponseSendFunds,
};

verus! {

/// A request still waiting for its outcome.
pub type PendingTransaction = PendingFriendRequest;

/// A 256-bit unsigned amount, as two 128-bit halves.
#[derive(Clone, Copy, Debug)]
pub struct U256 {
    pub hi: u128,
    pub lo: u128,
}

/// 2^128.
pub open spec fn two_pow_128() -> int {
    u128::MAX as int + 1
}

/// `a + x` in 256 bits, where the sum fits.
pub open spec fn u256_add(a: U256, x: u128) -> U256 {
    if a.lo + x <= u128::MAX {
        U256 { hi: a.hi, lo: (a.lo + x) as u128 }
    } else {
        U256 { hi: (a.hi + 1) as u128, lo: (a.lo + x - two_pow_128()) as u128 }
    }
}

impl U256 {
    pub open spec fn value(&self) -> int {
        self.hi * two_pow_128() + self.lo
    }

    /// Zero.
    pub fn zero() -> (r: U256)
        ensures
            r.value() == 0,
            r == (U256 { hi: 0, lo: 0 }),
    {
        U256 { hi: 0, lo: 0 }
    }

    /// `self + x`, or `None` when the sum does not fit in 256 bits.
    pub fn checked_add_u128(&self, x: u128) -> (r: Option<U256>)
        ensures
            r matches Some(v) ==> v.value() == self.value() + x && v == u256_add(*self, x),
            r is None <==> self.value() + x >= two_pow_128() * two_pow_128(),
    {
        match self.lo.checked_add(x) {
            Some(lo) => {
                assert(self.value() + x < two_pow_128() * two_pow_128()) by (nonlinear_arith)
                    requires
                        self.hi < two_pow_128(),
                        self.lo + x < two_pow_128(),
                        self.value() == self.hi * two_pow_128() + self.lo,
                ;
                Some(U256 { hi: self.hi, lo })
            },
            None => {
                let lo = (self.lo - (u128::MAX - x)) - 1;
                match self.hi.checked_add(1) {
                    Some(hi) => {
                        assert(self.value() + x == hi * two_pow_128() + lo) by (nonlinear_arith)
                            requires
                                hi == self.hi + 1,
                                lo == self.lo + x - two_pow_128(),
                                two_pow_128() == u128::MAX as int + 1,
                        ;
                        assert(self.value() + x < two_pow_128() * two_pow_128()) by (nonlinear_arith)
                            requires
                                hi < two_pow_128(),
                                lo < two_pow_128(),
                                self.value() + x == hi * two_pow_128() + lo,
                        ;
                        Some(U256 { hi, lo })
                    },
                    None => {
                        assert(self.value() + x >= two_pow_128() * two_pow_128()) by (nonlinear_arith)
                            requires
                                self.hi == two_pow_128() - 1,
                                self.lo + x >= two_pow_128(),
                                two_pow_128() == u128::MAX as int + 1,
                        ;
                        None
                    },
                }
            },
        }
    }
}

/// The ledger figures of one currency with a friend. `balance` is what the
/// friend owes us (negative: what we owe).
#[derive(Clone, Copy, Debug)]
pub struct McBalance {
    pub balance: i128,
    pub local_max_debt: u128,
    pub remote_max_debt: u128,
    pub local_pending_debt: u128,
    pub remote_pending_debt: u128,
    pub in_fees: U256,
    pub out_fees: U256,
}

impl McBalance {
    /// A ledger at `balance`, with no caps, nothing pending and no fees.
    pub fn new(balance: i128) -> (r: McBalance)
        ensures
            r.balance == balance,
            r.local_max_debt == 0,
            r.remote_max_debt == 0,
            r.local_pending_debt == 0,
            r.remote_pending_debt == 0,
            r.in_fees == (U256 { hi: 0, lo: 0 }),
            r.out_fees == (U256 { hi: 0, lo: 0 }),
    {
        McBalance {
            balance,
            local_max_debt: 0,
            remote_max_debt: 0,
            local_pending_debt: 0,
            remote_pending_debt: 0,
            in_fees: U256::zero(),
            out_fees: U256::zero(),
        }
    }

    /// The two debt caps hold: what we may still owe stays within our cap,
    /// and what the friend may still owe stays within its cap.
    pub open spec fn caps_hold(&self) -> bool {
        &&& -(self.local_max_debt as int) <= self.balance - self.local_pending_debt
        &&& self.balance + self.remote_pending_debt <= self.remote_max_debt as int
    }
}

/// What a pending transaction freezes: the payment and the fees left on it.
pub open spec fn frozen(t: PendingView) -> int {
    t.dest_payment + t.left_fees
}

/// The total frozen by a list of pending transactions.
pub open spec fn frozen_sum(s: Seq<PendingView>) -> int
    decreases s.len(),
{
    if s.len() == 0 {
        0
    } else {
        frozen_sum(s.drop_last()) + frozen(s.last())
    }
}

/// Some pending transaction of the list has this request id.
pub open spec fn has_request(s: Seq<PendingView>, id: Seq<u8>) -> bool {
    exists|i: int| 0 <= i < s.len() && s[i].request_id@ == id
}

/// No request id stands twice in the list.
pub open spec fn ids_unique(s: Seq<PendingView>) -> bool {
    forall|i: int, j: int|
        0 <= i < s.len() && 0 <= j < s.len() && i != j ==> s[i].request_id@ != s[j].request_id@
}

/// Pending transactions freeze a total of zero or more.
pub proof fn lemma_frozen_sum_nonneg(s: Seq<PendingView>)
    ensures
        frozen_sum(s) >= 0,
    decreases s.len(),
{
    if s.len() > 0 {
        lemma_frozen_sum_nonneg(s.drop_last());
    }
}

/// Removing one transaction takes its frozen amount off the total.
pub proof fn lemma_frozen_sum_remove(s: Seq<PendingView>, i: int)
    requires
        0 <= i < s.len(),
    ensures
        frozen_sum(s.remove(i)) == frozen_sum(s) - frozen(s[i]),
        frozen(s[i]) <= frozen_sum(s),
    decreases s.len(),
{
    if i == s.len() - 1 {
        assert(s.remove(i) =~= s.drop_last());
        lemma_frozen_sum_nonneg(s.drop_last());
    } else {
        lemma_frozen_sum_remove(s.drop_last(), i);
        assert(s.remove(i).drop_last() =~= s.drop_last().remove(i));
        assert(s.remove(i).last() == s.last());
    }
}

/// A request's entry is settled once: after its removal, whether by a
/// response or by a failure, the list no longer knows its id, keeps every
/// other entry, and frees exactly what the entry froze; so no second
/// response or failure can settle it again. A reset clears every entry.
pub proof fn lemma_pending_settled_once(s: Seq<PendingView>, i: int)
    requires
        ids_unique(s),
        0 <= i < s.len(),
    ensures
        !has_request(s.remove(i), s[i].request_id@),
        ids_unique(s.remove(i)),
        forall|j: int|
            0 <= j < s.len() && j != i ==> has_request(s.remove(i), #[trigger] s[j].request_id@),
        frozen_sum(s.remove(i)) == frozen_sum(s) - frozen(s[i]),
        frozen(s[i]) <= frozen_sum(s),
        !has_request(Seq::<PendingView>::empty(), s[i].request_id@),
{
    lemma_frozen_sum_remove(s, i);
    let r = s.remove(i);
    assert forall|j: int| 0 <= j < r.len() implies r[j].request_id@ != s[i].request_id@ by {
        if j < i {
            assert(r[j] == s[j]);
        } else {
            assert(r[j] == s[j + 1]);
        }
    }
    assert forall|j: int| 0 <= j < s.len() && j != i implies has_request(
        r,
        #[trigger] s[j].request_id@,
    ) by {
        if j < i {
            assert(r[j] == s[j]);
        } else {
            assert(r[j - 1] == s[j]);
        }
    }
}

/// The views of a list of pending transactions.
pub open spec fn pending_views(s: Seq<PendingTransaction>) -> Seq<PendingView> {
    s.map_values(|t: PendingTransaction| t@)
}

/// Where the request with id `id` stands in the list.
pub open spec fn request_index(s: Seq<PendingView>, id: Seq<u8>) -> int {
    choose|i: int| 0 <= i < s.len() && s[i].request_id@ == id
}

/// With unique ids, the request with an id stands where it was found.
pub proof fn lemma_request_index(s: Seq<PendingView>, id: Seq<u8>, i: int)
    requires
        ids_unique(s),
        0 <= i < s.len(),
        s[i].request_id@ == id,
    ensures
        request_index(s, id) == i,
{
    let j = request_index(s, id);
    assert(0 <= j < s.len() && s[j].request_id@ == id);
}

/// A new pending transaction adds what it freezes to the total.
pub proof fn lemma_frozen_sum_push(s: Seq<PendingView>, p: PendingView)
    ensures
        frozen_sum(s.push(p)) == frozen_sum(s) + frozen(p),
{
    assert(s.push(p).drop_last() =~= s);
}

/// Why a credit operation was refused.
#[derive(Debug, Clone, Copy, PartialEq, Eq, Structural)]
pub enum McError {
    RequestAlreadyExists,
    RequestDoesNotExist,
    InsufficientTrust,
    CreditsCalcOverflow,
    InvalidResponseSignature,
    InvalidFailureSignature,
}

/// A credit operation.
#[derive(Debug)]
pub enum FriendTcOp {
    RequestSendFunds(PendingTransaction),
    ResponseSendFunds(ResponseSendFunds),
    FailureSendFunds(FailureSendFunds),
}

/// The mathematical value of a mutual credit.
pub ghost struct McView {
    pub currency: Currency,
    pub balance: McBalance,
    /// Requests that we opened.
    pub local: Seq<PendingView>,
    /// Requests that the friend opened.
    pub remote: Seq<PendingView>,
}

impl McView {
    /// Request ids are unique on each side, and each pending debt is the sum
    /// of what that side's pending requests freeze.
    pub open spec fn wf(self) -> bool {
        &&& ids_unique(self.local)
        &&& ids_unique(self.remote)
        &&& self.balance.local_pending_debt == frozen_sum(self.local)
        &&& self.balance.remote_pending_debt == frozen_sum(self.remote)
    }
}

/// The friend opens a request through us: it is recorded on the friend's
/// side, and the friend's pending debt grows by what it freezes, which must
/// stay within the debt we allow the friend.
pub open spec fn incoming_request_spec(m: McView, p: PendingView) -> Result<McView, McError> {
    let b = m.balance;
    if has_request(m.remote, p.request_id@) {
        Err(McError::RequestAlreadyExists)
    } else if b.remote_pending_debt + frozen(p) > u128::MAX {
        Err(McError::CreditsCalcOverflow)
    } else if b.balance + b.remote_pending_debt + frozen(p) > b.remote_max_debt {
        Err(McError::InsufficientTrust)
    } else {
        Ok(
            McView {
                remote: m.remote.push(p),
                balance: McBalance {
                    remote_pending_debt: (b.remote_pending_debt + frozen(p)) as u128,
                    ..b
                },
                ..m
            },
        )
    }
}

/// We open a request: it is recorded on our side, and our pending debt
/// grows by what it freezes, which must stay within the debt the friend
/// allows us.
pub open spec fn outgoing_request_spec(m: McView, p: PendingView) -> Result<McView, McError> {
    let b = m.balance;
    if has_request(m.local, p.request_id@) {
        Err(McError::RequestAlreadyExists)
    } else if b.local_pending_debt + frozen(p) > u128::MAX {
        Err(McError::CreditsCalcOverflow)
    } else if b.balance - (b.local_pending_debt + frozen(p)) < -(b.local_max_debt as int) {
        Err(McError::InsufficientTrust)
    } else {
        Ok(
            McView {
                local: m.local.push(p),
                balance: McBalance {
                    local_pending_debt: (b.local_pending_debt + frozen(p)) as u128,
                    ..b
                },
                ..m
            },
        )
    }
}

/// The friend confirms one of our requests, signed by its destination: the
/// request is settled, its frozen amount leaves our pending debt and our
/// balance, and its fees count as paid out.
pub open spec fn incoming_response_spec(m: McView, r: ResponseSendFunds) -> Result<McView, McError> {
    let b = m.balance;
    if !has_request(m.local, r.request_id@) {
        Err(McError::RequestDoesNotExist)
    } else {
        let i = request_index(m.local, r.request_id@);
        let p = m.local[i];
        if !response_signature_holds(r, p) {
            Err(McError::InvalidResponseSignature)
        } else if b.balance - frozen(p) < i128::MIN {
            Err(McError::CreditsCalcOverflow)
        } else if b.out_fees.value() + p.left_fees >= two_pow_128() * two_pow_128() {
            Err(McError::CreditsCalcOverflow)
        } else {
            Ok(
                McView {
                    local: m.local.remove(i),
                    balance: McBalance {
                        balance: (b.balance - frozen(p)) as i128,
                        local_pending_debt: (b.local_pending_debt - frozen(p)) as u128,
                        out_fees: u256_add(b.out_fees, p.left_fees),
                        ..b
                    },
                    ..m
                },
            )
        }
    }
}

/// We confirm one of the friend's requests: the request is settled, its
/// frozen amount leaves the friend's pending debt and joins our balance, and
/// its fees count as earned.
pub open spec fn outgoing_response_spec(m: McView, r: ResponseSendFunds) -> Result<McView, McError> {
    let b = m.balance;
    if !has_request(m.remote, r.request_id@) {
        Err(McError::RequestDoesNotExist)
    } else {
        let i = request_index(m.remote, r.request_id@);
        let p = m.remote[i];
        if b.balance + frozen(p) > i128::MAX {
            Err(McError::CreditsCalcOverflow)
        } else if b.in_fees.value() + p.left_fees >= two_pow_128() * two_pow_128() {
            Err(McError::CreditsCalcOverflow)
        } else {
            Ok(
                McView {
                    remote: m.remote.remove(i),
                    balance: McBalance {
                        balance: (b.balance + frozen(p)) as i128,
                        remote_pending_debt: (b.remote_pending_debt - frozen(p)) as u128,
                        in_fees: u256_add(b.in_fees, p.left_fees),
                        ..b
                    },
                    ..m
                },
            )
        }
    }
}

/// The friend reports one of our requests failed, signed by a node on its
/// route: the request is dropped and what it froze is released.
pub open spec fn incoming_failure_spec(m: McView, f: FailureSendFunds) -> Result<McView, McError> {
    let b = m.balance;
    if !has_request(m.local, f.request_id@) {
        Err(McError::RequestDoesNotExist)
    } else {
        let i = request_index(m.local, f.request_id@);
        let p = m.local[i];
        if !failure_signature_holds(f, p) {
            Err(McError::InvalidFailureSignature)
        } else {
            Ok(
                McView {
                    local: m.local.remove(i),
                    balance: McBalance {
                        local_pending_debt: (b.local_pending_debt - frozen(p)) as u128,
                        ..b
                    },
                    ..m
                },
            )
        }
    }
}

/// We report one of the friend's requests failed: the request is dropped
/// and what it froze is released.
pub open spec fn outgoing_failure_spec(m: McView, f: FailureSendFunds) -> Result<McView, McError> {
    let b = m.balance;
    if !has_request(m.remote, f.request_id@) {
        Err(McError::RequestDoesNotExist)
    } else {
        let i = request_index(m.remote, f.request_id@);
        let p = m.remote[i];
        Ok(
            McView {
                remote: m.remote.remove(i),
                balance: McBalance {
                    remote_pending_debt: (b.remote_pending_debt - frozen(p)) as u128,
                    ..b
                },
                ..m
            },
        )
    }
}

/// One credit operation, sent by the friend (`incoming`) or by us.
pub open spec fn op_spec(m: McView, op: FriendTcOp, incoming: bool) -> Result<McView, McError> {
    match op {
        FriendTcOp::RequestSendFunds(p) => if incoming {
            incoming_request_spec(m, p@)
        } else {
            outgoing_request_spec(m, p@)
        },
        FriendTcOp::ResponseSendFunds(r) => if incoming {
            incoming_response_spec(m, r)
        } else {
            outgoing_response_spec(m, r)
        },
        FriendTcOp::FailureSendFunds(f) => if incoming {
            incoming_failure_spec(m, f)
        } else {
            outgoing_failure_spec(m, f)
        },
    }
}

/// `balance + add <= cap`, without overflow.
pub fn add_le(balance: i128, add: u128, cap: u128) -> (r: bool)
    ensures
        r == (balance + add <= cap),
{
    if balance >= 0 {
        match (balance as u128).checked_add(add) {
            Some(v) => v <= cap,
            None => false,
        }
    } else {
        let nb: u128 = ((-(balance + 1)) as u128) + 1;
        if add >= nb {
            add - nb <= cap
        } else {
            true
        }
    }
}

/// `balance - sub >= -floor`, without overflow.
pub fn sub_ge(balance: i128, sub: u128, floor: u128) -> (r: bool)
    ensures
        r == (balance - sub >= -(floor as int)),
{
    if balance >= 0 {
        match (balance as u128).checked_add(floor) {
            Some(v) => v >= sub,
            None => true,
        }
    } else {
        let nb: u128 = ((-(balance + 1)) as u128) + 1;
        if floor >= nb {
            floor - nb >= sub
        } else {
            false
        }
    }
}

/// `balance + x`, or `None` if it leaves the range of `i128`.
pub fn add_u128(balance: i128, x: u128) -> (r: Option<i128>)
    ensures
        r matches Some(v) ==> v == balance + x,
        r is None <==> balance + x > i128::MAX,
{
    if x > i128::MAX as u128 {
        if balance >= 0 {
            None
        } else {
            let nb: u128 = ((-(balance + 1)) as u128) + 1;
            let d: u128 = x - nb;
            if d <= i128::MAX as u128 {
                Some(d as i128)
            } else {
                None
            }
        }
    } else {
        balance.checked_add(x as i128)
    }
}

/// `balance - x`, or `None` if it leaves the range of `i128`.
pub fn sub_u128(balance: i128, x: u128) -> (r: Option<i128>)
    ensures
        r matches Some(v) ==> v == balance - x,
        r is None <==> balance - x < i128::MIN,
{
    if x > i128::MAX as u128 {
        if balance < 0 {
            None
        } else {
            let d: u128 = x - (balance as u128);
            if d < 0x8000_0000_0000_0000_0000_0000_0000_0000u128 {
                Some(-(d as i128))
            } else if d == 0x8000_0000_0000_0000_0000_0000_0000_0000u128 {
                Some(i128::MIN)
            } else {
                None
            }
        }
    } else {
        balance.checked_sub(x as i128)
    }
}

/// Position of the request with id `id`, if any.
pub fn find_request(s: &Vec<PendingTransaction>, id: &Uid) -> (r: Option<usize>)
    ensures
        r matches Some(i) ==> i < s@.len() && s@[i as int].request_id@ == id@,
        r is None ==> !has_request(pending_views(s@), id@),
{
    let mut i: usize = 0;
    while i < s.len()
        invariant
            0 <= i <= s@.len(),
            forall|j: int| 0 <= j < i ==> s@[j].request_id@ != id@,
        decreases s@.len() - i,
    {
        if same_bytes(&s[i].request_id.bytes, &id.bytes) {
            return Some(i);
        }
        i = i + 1;
    }
    None
}

/// `new` and the call's result `r` are what the transition `s` gives from
/// `old`: its new value on success, its error and no change on failure.
pub open spec fn applied(old: McView, new: McView, r: Result<(), McError>, s: Result<McView, McError>) -> bool {
    match s {
        Ok(v) => r is Ok && new == v,
        Err(e) => r == Err::<(), McError>(e) && new == old,
    }
}

/// Every credit operation keeps a well-formed ledger well formed.
pub proof fn lemma_op_keeps_wf(m: McView, op: FriendTcOp, incoming: bool)
    requires
        m.wf(),
    ensures
        op_spec(m, op, incoming) matches Ok(v) ==> v.wf() && v.currency == m.currency
            && v.balance.local_max_debt == m.balance.local_max_debt
            && v.balance.remote_max_debt == m.balance.remote_max_debt,
{
    match op {
        FriendTcOp::RequestSendFunds(p) => {
            lemma_frozen_sum_push(m.remote, p@);
            lemma_frozen_sum_push(m.local, p@);
        },
        FriendTcOp::ResponseSendFunds(r) => {
            if has_request(m.local, r.request_id@) {
                let i = request_index(m.local, r.request_id@);
                lemma_pending_settled_once(m.local, i);
            }
            if has_request(m.remote, r.request_id@) {
                let i = request_index(m.remote, r.request_id@);
                lemma_pending_settled_once(m.remote, i);
            }
        },
        FriendTcOp::FailureSendFunds(f) => {
            if has_request(m.local, f.request_id@) {
                let i = request_index(m.local, f.request_id@);
                lemma_pending_settled_once(m.local, i);
            }
            if has_request(m.remote, f.request_id@) {
                let i = request_index(m.remote, f.request_id@);
                lemma_pending_settled_once(m.remote, i);
            }
        },
    }
}

/// Every credit operation that is applied keeps the two debt caps: a
/// request is refused where it would break one, and a response or a failure
/// only moves value between a pending debt and the balance, or releases it.
pub proof fn lemma_op_keeps_caps(m: McView, op: FriendTcOp, incoming: bool)
    requires
        m.wf(),
        m.balance.caps_hold(),
    ensures
        op_spec(m, op, incoming) matches Ok(v) ==> v.balance.caps_hold(),
{
    lemma_op_keeps_wf(m, op, incoming);
    let b = m.balance;
    match op {
        FriendTcOp::RequestSendFunds(p) => {
            let pv = p@;
            if incoming {
                if let Ok(v) = incoming_request_spec(m, pv) {
                    assert(v.balance.remote_pending_debt == b.remote_pending_debt + frozen(pv));
                }
            } else {
                if let Ok(v) = outgoing_request_spec(m, pv) {
                    assert(v.balance.local_pending_debt == b.local_pending_debt + frozen(pv));
                }
            }
        },
        FriendTcOp::ResponseSendFunds(r) => {
            if incoming && has_request(m.local, r.request_id@) {
                lemma_pending_settled_once(m.local, request_index(m.local, r.request_id@));
                let p = m.local[request_index(m.local, r.request_id@)];
                assert(frozen(p) >= 0);
            }
            if !incoming && has_request(m.remote, r.request_id@) {
                lemma_pending_settled_once(m.remote, request_index(m.remote, r.request_id@));
                let p = m.remote[request_index(m.remote, r.request_id@)];
                assert(frozen(p) >= 0);
            }
        },
        FriendTcOp::FailureSendFunds(f) => {
            if incoming && has_request(m.local, f.request_id@) {
                lemma_pending_settled_once(m.local, request_index(m.local, f.request_id@));
                let p = m.local[request_index(m.local, f.request_id@)];
                assert(frozen(p) >= 0);
            }
            if !incoming && has_request(m.remote, f.request_id@) {
                lemma_pending_settled_once(m.remote, request_index(m.remote, f.request_id@));
                let p = m.remote[request_index(m.remote, f.request_id@)];
                assert(frozen(p) >= 0);
            }
        },
    }
}

/// The ledger of one currency with a friend.
#[derive(Debug)]
pub struct MutualCredit {
    pub currency: Currency,
    pub balance: McBalance,
    /// Requests that we opened and that wait for their outcome.
    pub local_pending: Vec<PendingTransaction>,
    /// Requests that the friend opened and that wait for their outcome.
    pub remote_pending: Vec<PendingTransaction>,
}

impl MutualCredit {
    pub open spec fn view(&self) -> McView {
        McView {
            currency: self.currency,
            balance: self.balance,
            local: pending_views(self.local_pending@),
            remote: pending_views(self.remote_pending@),
        }
    }

    /// A ledger at `balance`, with no caps and nothing pending.
    pub fn new(currency: Currency, balance: i128) -> (r: MutualCredit)
        ensures
            r@.wf(),
            r@.currency == currency,
            r@.balance.balance == balance,
            r@.balance.local_max_debt == 0,
            r@.balance.remote_max_debt == 0,
            r@.balance.local_pending_debt == 0,
            r@.balance.remote_pending_debt == 0,
            r@.balance.in_fees == (U256 { hi: 0, lo: 0 }),
            r@.balance.out_fees == (U256 { hi: 0, lo: 0 }),
            r@.local.len() == 0,
            r@.remote.len() == 0,
    {
        let r = MutualCredit {
            currency,
            balance: McBalance::new(balance),
            local_pending: Vec::new(),
            remote_pending: Vec::new(),
        };
        assert(r@.local =~= Seq::<PendingView>::empty());
        assert(r@.remote =~= Seq::<PendingView>::empty());
        r
    }

    /// A copy with the same value.
    pub fn duplicate(&self) -> (r: MutualCredit)
        ensures
            r@ == self@,
    {
        let mut local: Vec<PendingTransaction> = Vec::new();
        let mut i: usize = 0;
        while i < self.local_pending.len()
            invariant
                0 <= i <= self.local_pending@.len(),
                local@.len() == i,
                pending_views(local@) == pending_views(self.local_pending@).subrange(0, i as int),
            decreases self.local_pending@.len() - i,
        {
            let ghost prev = local@;
            let d = self.local_pending[i].duplicate();
            local.push(d);
            assert(local@ == prev.push(d));
            assert(pending_views(local@)[i as int] == self.local_pending@[i as int]@);
            assert(pending_views(local@) =~= pending_views(self.local_pending@).subrange(0, i + 1));
            i = i + 1;
        }
        let mut remote: Vec<PendingTransaction> = Vec::new();
        let mut j: usize = 0;
        while j < self.remote_pending.len()
            invariant
                0 <= j <= self.remote_pending@.len(),
                remote@.len() == j,
                pending_views(remote@) == pending_views(self.remote_pending@).subrange(0, j as int),
            decreases self.remote_pending@.len() - j,
        {
            let ghost prev = remote@;
            let d = self.remote_pending[j].duplicate();
            remote.push(d);
            assert(remote@ == prev.push(d));
            assert(pending_views(remote@)[j as int] == self.remote_pending@[j as int]@);
            assert(pending_views(remote@) =~= pending_views(self.remote_pending@).subrange(0, j + 1));
            j = j + 1;
        }
        assert(pending_views(local@) =~= pending_views(self.local_pending@));
        assert(pending_views(remote@) =~= pending_views(self.remote_pending@));
        MutualCredit {
            currency: self.currency,
            balance: self.balance,
            local_pending: local,
            remote_pending: remote,
        }
    }

    /// Applies a request that the friend opened through us.
    pub fn incoming_request(&mut self, p: PendingTransaction) -> (r: Result<(), McError>)
        requires
            old(self)@.wf(),
        ensures
            final(self)@.wf(),
            applied(old(self)@, final(self)@, r, incoming_request_spec(old(self)@, p@)),
    {
        proof {
            lemma_frozen_sum_push(self@.remote, p@);
        }
        if let Some(i) = find_request(&self.remote_pending, &p.request_id) {
            assert(pending_views(self.remote_pending@)[i as int] == self.remote_pending@[i as int]@);
            assert(pending_views(self.remote_pending@)[i as int].request_id@ == p.request_id@);
            return Err(McError::RequestAlreadyExists);
        }
        let amount = match p.dest_payment.checked_add(p.left_fees) {
            Some(a) => a,
            None => return Err(McError::CreditsCalcOverflow),
        };
        let new_debt = match self.balance.remote_pending_debt.checked_add(amount) {
            Some(d) => d,
            None => return Err(McError::CreditsCalcOverflow),
        };
        if !add_le(self.balance.balance, new_debt, self.balance.remote_max_debt) {
            return Err(McError::InsufficientTrust);
        }
        let ghost pv = p@;
        self.remote_pending.push(p);
        self.balance.remote_pending_debt = new_debt;
        assert(pending_views(self.remote_pending@) =~= pending_views(old(self).remote_pending@).push(pv));
        Ok(())
    }

    /// Applies a request that we open.
    pub fn outgoing_request(&mut self, p: PendingTransaction) -> (r: Result<(), McError>)
        requires
            old(self)@.wf(),
        ensures
            final(self)@.wf(),
            applied(old(self)@, final(self)@, r, outgoing_request_spec(old(self)@, p@)),
    {
        proof {
            lemma_frozen_sum_push(self@.local, p@);
        }
        if let Some(i) = find_request(&self.local_pending, &p.request_id) {
            assert(pending_views(self.local_pending@)[i as int] == self.local_pending@[i as int]@);
            assert(pending_views(self.local_pending@)[i as int].request_id@ == p.request_id@);
            return Err(McError::RequestAlreadyExists);
        }
        let amount = match p.dest_payment.checked_add(p.left_fees) {
            Some(a) => a,
            None => return Err(McError::CreditsCalcOverflow),
        };
        let new_debt = match self.balance.local_pending_debt.checked_add(amount) {
            Some(d) => d,
            None => return Err(McError::CreditsCalcOverflow),
        };
        if !sub_ge(self.balance.balance, new_debt, self.balance.local_max_debt) {
            return Err(McError::InsufficientTrust);
        }
        let ghost pv = p@;
        self.local_pending.push(p);
        self.balance.local_pending_debt = new_debt;
        assert(pending_views(self.local_pending@) =~= pending_views(old(self).local_pending@).push(pv));
        Ok(())
    }

    /// Applies a response of the friend to one of our requests.
    pub fn incoming_response(&mut self, r: &ResponseSendFunds) -> (res: Result<(), McError>)
        requires
            old(self)@.wf(),
        ensures
            final(self)@.wf(),
            applied(old(self)@, final(self)@, res, incoming_response_spec(old(self)@, *r)),
    {
        let i = match find_request(&self.local_pending, &r.request_id) {
            Some(i) => i,
            None => return Err(McError::RequestDoesNotExist),
        };
        proof {
            assert(pending_views(self.local_pending@)[i as int] == self.local_pending@[i as int]@);
            assert(pending_views(self.local_pending@)[i as int].request_id@ == r.request_id@);
            lemma_request_index(self@.local, r.request_id@, i as int);
            lemma_pending_settled_once(self@.local, i as int);
        }
        if !verify_response_signature(r, &self.local_pending[i]) {
            return Err(McError::InvalidResponseSignature);
        }
        let amount: u128 = self.local_pending[i].dest_payment + self.local_pending[i].left_fees;
        let new_balance = match sub_u128(self.balance.balance, amount) {
            Some(v) => v,
            None => return Err(McError::CreditsCalcOverflow),
        };
        let new_fees = match self.balance.out_fees.checked_add_u128(self.local_pending[i].left_fees) {
            Some(v) => v,
            None => return Err(McError::CreditsCalcOverflow),
        };
        self.local_pending.remove(i);
        self.balance.balance = new_balance;
        self.balance.local_pending_debt = self.balance.local_pending_debt - amount;
        self.balance.out_fees = new_fees;
        assert(pending_views(self.local_pending@) =~= pending_views(old(self).local_pending@).remove(
            i as int,
        ));
        Ok(())
    }

    /// Applies our response to one of the friend's requests.
    pub fn outgoing_response(&mut self, r: &ResponseSendFunds) -> (res: Result<(), McError>)
        requires
            old(self)@.wf(),
        ensures
            final(self)@.wf(),
            applied(old(self)@, final(self)@, res, outgoing_response_spec(old(self)@, *r)),
    {
        let i = match find_request(&self.remote_pending, &r.request_id) {
            Some(i) => i,
            None => return Err(McError::RequestDoesNotExist),
        };
        proof {
            assert(pending_views(self.remote_pending@)[i as int] == self.remote_pending@[i as int]@);
            assert(pending_views(self.remote_pending@)[i as int].request_id@ == r.request_id@);
            lemma_request_index(self@.remote, r.request_id@, i as int);
            lemma_pending_settled_once(self@.remote, i as int);
        }
        let amount: u128 = self.remote_pending[i].dest_payment + self.remote_pending[i].left_fees;
        let new_balance = match add_u128(self.balance.balance, amount) {
            Some(v) => v,
            None => return Err(McError::CreditsCalcOverflow),
        };
        let new_fees = match self.balance.in_fees.checked_add_u128(self.remote_pending[i].left_fees) {
            Some(v) => v,
            None => return Err(McError::CreditsCalcOverflow),
        };
        self.remote_pending.remove(i);
        self.balance.balance = new_balance;
        self.balance.remote_pending_debt = self.balance.remote_pending_debt - amount;
        self.balance.in_fees = new_fees;
        assert(pending_views(self.remote_pending@) =~= pending_views(old(self).remote_pending@).remove(
            i as int,
        ));
        Ok(())
    }

    /// Applies a failure report of the friend on one of our requests.
    pub fn incoming_failure(&mut self, f: &FailureSendFunds) -> (res: Result<(), McError>)
        requires
            old(self)@.wf(),
        ensures
            final(self)@.wf(),
            applied(old(self)@, final(self)@, res, incoming_failure_spec(old(self)@, *f)),
    {
        let i = match find_request(&self.local_pending, &f.request_id) {
            Some(i) => i,
            None => return Err(McError::RequestDoesNotExist),
        };
        proof {
            assert(pending_views(self.local_pending@)[i as int] == self.local_pending@[i as int]@);
            assert(pending_views(self.local_pending@)[i as int].request_id@ == f.request_id@);
            lemma_request_index(self@.local, f.request_id@, i as int);
            lemma_pending_settled_once(self@.local, i as int);
        }
        if verify_failure_signature(0, 0, f, &self.local_pending[i]).is_none() {
            return Err(McError::InvalidFailureSignature);
        }
        let amount: u128 = self.local_pending[i].dest_payment + self.local_pending[i].left_fees;
        self.local_pending.remove(i);
        self.balance.local_pending_debt = self.balance.local_pending_debt - amount;
        assert(pending_views(self.local_pending@) =~= pending_views(old(self).local_pending@).remove(
            i as int,
        ));
        Ok(())
    }

    /// Applies our failure report on one of the friend's requests.
    pub fn outgoing_failure(&mut self, f: &FailureSendFunds) -> (res: Result<(), McError>)
        requires
            old(self)@.wf(),
        ensures
            final(self)@.wf(),
            applied(old(self)@, final(self)@, res, outgoing_failure_spec(old(self)@, *f)),
    {
        let i = match find_request(&self.remote_pending, &f.request_id) {
            Some(i) => i,
            None => return Err(McError::RequestDoesNotExist),
        };
        proof {
            assert(pending_views(self.remote_pending@)[i as int] == self.remote_pending@[i as int]@);
            assert(pending_views(self.remote_pending@)[i as int].request_id@ == f.request_id@);
            lemma_request_index(self@.remote, f.request_id@, i as int);
            lemma_pending_settled_once(self@.remote, i as int);
        }
        let amount: u128 = self.remote_pending[i].dest_payment + self.remote_pending[i].left_fees;
        self.remote_pending.remove(i);
        self.balance.remote_pending_debt = self.balance.remote_pending_debt - amount;
        assert(pending_views(self.remote_pending@) =~= pending_views(old(self).remote_pending@).remove(
            i as int,
        ));
        Ok(())
    }

    /// Applies one credit operation, sent by the friend (`incoming`) or by us.
    pub fn apply_op(&mut self, op: &FriendTcOp, incoming: bool) -> (r: Result<(), McError>)
        requires
            old(self)@.wf(),
        ensures
            final(self)@.wf(),
            applied(old(self)@, final(self)@, r, op_spec(old(self)@, *op, incoming)),
    {
        match op {
            FriendTcOp::RequestSendFunds(p) => {
                let p2 = p.duplicate();
                if incoming {
                    self.incoming_request(p2)
                } else {
                    self.outgoing_request(p2)
                }
            },
            FriendTcOp::ResponseSendFunds(r) => if incoming {
                self.incoming_response(r)
            } else {
                self.outgoing_response(r)
            },
            FriendTcOp::FailureSendFunds(f) => if incoming {
                self.incoming_failure(f)
            } else {
                self.outgoing_failure(f)
            },
        }
    }
}

} // verus!
