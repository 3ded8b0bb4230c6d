use vstd::prelude::*;

use crate::ids::{append_bytes, Currency};

use crate::mutual_credit::{
    lemma_op_keeps_caps, lemma_op_keeps_wf, op_spec, FriendTcOp, McBalance, McError, McView,
    MutualCredit, U256,
};
use crate::primitives::{be_bytes, write_u128_be};
use crate::signature_buff::{append_route, route_bytes};

verus! {

/// An operation carried by a move token.
#[derive(Debug)]
pub enum TcOp {
    /// Opens a ledger for a currency, at zero.
    AddCurrency(Currency),
    /// Closes an empty ledger.
    RemoveCurrency(Currency),
    /// The sender's cap on what the receiver may owe it in a currency.
    SetRemoteMaxDebt((Currency, u128)),
    /// A credit operation in a currency.
    Credit((Currency, FriendTcOp)),
}

/// Wire tag of `TcOp::AddCurrency`.
pub const OP_ADD_CURRENCY: u8 = 0;
/// Wire tag of `TcOp::RemoveCurrency`.
pub const OP_REMOVE_CURRENCY: u8 = 1;
/// Wire tag of `TcOp::SetRemoteMaxDebt`.
pub const OP_SET_REMOTE_MAX_DEBT: u8 = 2;
/// Wire tag of a request.
pub const OP_REQUEST: u8 = 3;
/// Wire tag of a response.
pub const OP_RESPONSE: u8 = 4;
/// Wire tag of a failure.
pub const OP_FAILURE: u8 = 5;

/// The bytes of one operation: a tag, then its fields; integers as 16
/// big-endian bytes, a route as its length then its keys.
pub open spec fn op_bytes(op: TcOp) -> Seq<u8> {
    match op {
        TcOp::AddCurrency(c) => seq![OP_ADD_CURRENCY] + be_bytes(c.code as nat, 16),
        TcOp::RemoveCurrency(c) => seq![OP_REMOVE_CURRENCY] + be_bytes(c.code as nat, 16),
        TcOp::SetRemoteMaxDebt((c, d)) => seq![OP_SET_REMOTE_MAX_DEBT] + be_bytes(c.code as nat, 16)
            + be_bytes(d as nat, 16),
        TcOp::Credit((c, FriendTcOp::RequestSendFunds(p))) => seq![OP_REQUEST] + be_bytes(
            c.code as nat,
            16,
        ) + p.request_id@ + be_bytes(p.route@.len(), 16) + route_bytes(p.route@) + be_bytes(
            p.dest_payment as nat,
            16,
        ) + p.invoice_id@ + be_bytes(p.left_fees as nat, 16),
        TcOp::Credit((c, FriendTcOp::ResponseSendFunds(r))) => seq![OP_RESPONSE] + be_bytes(
            c.code as nat,
            16,
        ) + r.request_id@ + r.rand_nonce@ + r.signature@,
        TcOp::Credit((c, FriendTcOp::FailureSendFunds(f))) => seq![OP_FAILURE] + be_bytes(
            c.code as nat,
            16,
        ) + f.request_id@ + f.reporting_public_key@ + f.rand_nonce@ + f.signature@,
    }
}

/// The bytes of a list of operations, one after the other.
pub open spec fn ops_bytes(ops: Seq<TcOp>) -> Seq<u8>
    decreases ops.len(),
{
    if ops.len() == 0 {
        Seq::empty()
    } else {
        ops_bytes(ops.drop_last()) + op_bytes(ops.last())
    }
}

/// Appends the bytes of one operation.
pub fn encode_op(buf: &mut Vec<u8>, op: &TcOp)
    ensures
        final(buf)@ == old(buf)@ + op_bytes(*op),
{
    match op {
        TcOp::AddCurrency(c) => {
            buf.push(OP_ADD_CURRENCY);
            write_u128_be(buf, c.code as u128);
        },
        TcOp::RemoveCurrency(c) => {
            buf.push(OP_REMOVE_CURRENCY);
            write_u128_be(buf, c.code as u128);
        },
        TcOp::SetRemoteMaxDebt((c, d)) => {
            buf.push(OP_SET_REMOTE_MAX_DEBT);
            write_u128_be(buf, c.code as u128);
            write_u128_be(buf, *d);
        },
        TcOp::Credit((c, FriendTcOp::RequestSendFunds(p))) => {
            buf.push(OP_REQUEST);
            write_u128_be(buf, c.code as u128);
            append_bytes(buf, &p.request_id.bytes);
            write_u128_be(buf, p.route.len() as u128);
            append_route(buf, &p.route);
            write_u128_be(buf, p.dest_payment);
            append_bytes(buf, &p.invoice_id.bytes);
            write_u128_be(buf, p.left_fees);
        },
        TcOp::Credit((c, FriendTcOp::ResponseSendFunds(r))) => {
            buf.push(OP_RESPONSE);
            write_u128_be(buf, c.code as u128);
            append_bytes(buf, &r.request_id.bytes);
            append_bytes(buf, &r.rand_nonce.bytes);
            append_bytes(buf, &r.signature.bytes);
        },
        TcOp::Credit((c, FriendTcOp::FailureSendFunds(f))) => {
            buf.push(OP_FAILURE);
            write_u128_be(buf, c.code as u128);
            append_bytes(buf, &f.request_id.bytes);
            append_bytes(buf, &f.reporting_public_key.bytes);
            append_bytes(buf, &f.rand_nonce.bytes);
            append_bytes(buf, &f.signature.bytes);
        },
    }
    assert(final(buf)@ =~= old(buf)@ + op_bytes(*op));
}

/// The bytes of a list of operations.
pub fn encode_operations(ops: &Vec<TcOp>) -> (r: Vec<u8>)
    ensures
        r@ == ops_bytes(ops@),
{
    let mut buf: Vec<u8> = Vec::new();
    let mut i: usize = 0;
    while i < ops.len()
        invariant
            0 <= i <= ops@.len(),
            buf@ == ops_bytes(ops@.subrange(0, i as int)),
        decreases ops@.len() - i,
    {
        encode_op(&mut buf, &ops[i]);
        assert(ops@.subrange(0, i + 1).drop_last() =~= ops@.subrange(0, i as int));
        i = i + 1;
    }
    assert(ops@.subrange(0, ops@.len() as int) =~= ops@);
    buf
}

/// Why a move token, or one of its operations, was refused.
#[derive(Debug, Clone, Copy, PartialEq, Eq, Structural)]
pub enum TokenChannelError {
    /// A credit operation failed.
    InvalidCredit(McError),
    CurrencyAlreadyExists,
    UnknownCurrency,
    /// A ledger with a balance or pending requests cannot be closed.
    CurrencyNotEmpty,
    /// A new cap below what is already owed.
    InvalidMaxDebt,
    /// The move counter cannot go higher.
    CounterOverflow,
    InvalidSignature,
    /// The move needs the turn, which we do not hold.
    NotOurTurn,
    /// The channel is not inconsistent, or holds no terms of the friend.
    NoResetTerms,
    /// Reset terms that name a currency twice or hold a balance that cannot be negated.
    InvalidResetTerms,
}

/// The ledgers' values.
pub open spec fn credit_views(s: Seq<MutualCredit>) -> Seq<McView> {
    s.map_values(|m: MutualCredit| m@)
}

/// Some ledger is in currency `c`.
pub open spec fn has_currency(mcs: Seq<McView>, c: Currency) -> bool {
    exists|i: int| 0 <= i < mcs.len() && mcs[i].currency == c
}

/// Where the ledger of currency `c` stands.
pub open spec fn currency_index(mcs: Seq<McView>, c: Currency) -> int {
    choose|i: int| 0 <= i < mcs.len() && mcs[i].currency == c
}

/// Each ledger is well formed, and no currency has two ledgers.
pub open spec fn credits_wf(mcs: Seq<McView>) -> bool {
    &&& forall|i: int| 0 <= i < mcs.len() ==> (#[trigger] mcs[i]).wf()
    &&& forall|i: int, j: int|
        0 <= i < mcs.len() && 0 <= j < mcs.len() && i != j ==> mcs[i].currency != mcs[j].currency
}

/// Every ledger keeps its two debt caps.
pub open spec fn caps_hold_all(mcs: Seq<McView>) -> bool {
    forall|i: int| 0 <= i < mcs.len() ==> (#[trigger] mcs[i]).balance.caps_hold()
}

/// A new ledger at zero.
pub open spec fn empty_credit(c: Currency) -> McView {
    McView {
        currency: c,
        balance: McBalance {
            balance: 0,
            local_max_debt: 0,
            remote_max_debt: 0,
            local_pending_debt: 0,
            remote_pending_debt: 0,
            in_fees: U256 { hi: 0, lo: 0 },
            out_fees: U256 { hi: 0, lo: 0 },
        },
        local: Seq::empty(),
        remote: Seq::empty(),
    }
}

/// One operation of a move token on the ledgers, sent by the friend
/// (`incoming`) or by us. A cap set by the friend is the cap on our debt; a
/// cap set by us is the cap on the friend's; neither may fall below what is
/// already owed.
pub open spec fn tc_op_spec(mcs: Seq<McView>, op: TcOp, incoming: bool) -> Result<
    Seq<McView>,
    TokenChannelError,
> {
    match op {
        TcOp::AddCurrency(c) => if has_currency(mcs, c) {
            Err(TokenChannelError::CurrencyAlreadyExists)
        } else {
            Ok(mcs.push(empty_credit(c)))
        },
        TcOp::RemoveCurrency(c) => if !has_currency(mcs, c) {
            Err(TokenChannelError::UnknownCurrency)
        } else {
            let i = currency_index(mcs, c);
            let m = mcs[i];
            if m.balance.balance != 0 || m.local.len() > 0 || m.remote.len() > 0 {
                Err(TokenChannelError::CurrencyNotEmpty)
            } else {
                Ok(mcs.remove(i))
            }
        },
        TcOp::SetRemoteMaxDebt((c, d)) => if !has_currency(mcs, c) {
            Err(TokenChannelError::UnknownCurrency)
        } else {
            let i = currency_index(mcs, c);
            let m = mcs[i];
            let b = m.balance;
            if incoming {
                if b.balance - b.local_pending_debt < -(d as int) {
                    Err(TokenChannelError::InvalidMaxDebt)
                } else {
                    Ok(mcs.update(i, McView { balance: McBalance { local_max_debt: d, ..b }, ..m }))
                }
            } else {
                if b.balance + b.remote_pending_debt > d {
                    Err(TokenChannelError::InvalidMaxDebt)
                } else {
                    Ok(mcs.update(i, McView { balance: McBalance { remote_max_debt: d, ..b }, ..m }))
                }
            }
        },
        TcOp::Credit((c, cop)) => if !has_currency(mcs, c) {
            Err(TokenChannelError::UnknownCurrency)
        } else {
            let i = currency_index(mcs, c);
            match op_spec(mcs[i], cop, incoming) {
                Ok(v) => Ok(mcs.update(i, v)),
                Err(e) => Err(TokenChannelError::InvalidCredit(e)),
            }
        },
    }
}

/// A move token's operations in order, all or nothing: the first refused
/// operation refuses the whole token.
pub open spec fn tc_ops_spec(mcs: Seq<McView>, ops: Seq<TcOp>, incoming: bool) -> Result<
    Seq<McView>,
    TokenChannelError,
>
    decreases ops.len(),
{
    if ops.len() == 0 {
        Ok(mcs)
    } else {
        match tc_ops_spec(mcs, ops.drop_last(), incoming) {
            Ok(m2) => tc_op_spec(m2, ops.last(), incoming),
            Err(e) => Err(e),
        }
    }
}

/// With one ledger per currency, the ledger of a currency stands where it was found.
pub proof fn lemma_currency_index(mcs: Seq<McView>, c: Currency, i: int)
    requires
        credits_wf(mcs),
        0 <= i < mcs.len(),
        mcs[i].currency == c,
    ensures
        currency_index(mcs, c) == i,
{
    let j = currency_index(mcs, c);
    assert(0 <= j < mcs.len() && mcs[j].currency == c);
}

/// Applying operations keeps the ledgers well formed.
pub proof fn lemma_tc_op_keeps_wf(mcs: Seq<McView>, op: TcOp, incoming: bool)
    requires
        credits_wf(mcs),
    ensures
        tc_op_spec(mcs, op, incoming) matches Ok(v) ==> credits_wf(v),
        caps_hold_all(mcs) ==> (tc_op_spec(mcs, op, incoming) matches Ok(v) ==> caps_hold_all(v)),
{
    match op {
        TcOp::AddCurrency(c) => {
            if !has_currency(mcs, c) {
                let v = mcs.push(empty_credit(c));
                assert(empty_credit(c).local =~= Seq::<crate::signature_buff::PendingView>::empty());
                assert forall|i: int| 0 <= i < v.len() implies (#[trigger] v[i]).wf() by {
                    if i < mcs.len() {
                        assert(v[i] == mcs[i]);
                    }
                }
                assert forall|i: int, j: int|
                    0 <= i < v.len() && 0 <= j < v.len() && i != j implies v[i].currency
                    != v[j].currency by {
                    if i < mcs.len() && j < mcs.len() {
                        assert(v[i] == mcs[i] && v[j] == mcs[j]);
                    } else if i < mcs.len() {
                        assert(v[i] == mcs[i]);
                    } else {
                        assert(v[j] == mcs[j]);
                    }
                }
            }
        },
        TcOp::RemoveCurrency(c) => {
            if has_currency(mcs, c) {
                let i = currency_index(mcs, c);
                let v = mcs.remove(i);
                assert forall|k: int| 0 <= k < v.len() implies (#[trigger] v[k]).wf() by {
                    if k < i {
                        assert(v[k] == mcs[k]);
                    } else {
                        assert(v[k] == mcs[k + 1]);
                    }
                }
                assert forall|k: int, j: int|
                    0 <= k < v.len() && 0 <= j < v.len() && k != j implies v[k].currency
                    != v[j].currency by {
                    let k2 = if k < i { k } else { k + 1 };
                    let j2 = if j < i { j } else { j + 1 };
                    assert(v[k] == mcs[k2] && v[j] == mcs[j2]);
                }
                if caps_hold_all(mcs) {
                    assert forall|k: int| 0 <= k < v.len() implies (
                    #[trigger] v[k]).balance.caps_hold() by {
                        if k < i {
                            assert(v[k] == mcs[k]);
                        } else {
                            assert(v[k] == mcs[k + 1]);
                        }
                    }
                }
            }
        },
        TcOp::SetRemoteMaxDebt((c, d)) => {
            if has_currency(mcs, c) {
                let i = currency_index(mcs, c);
                assert(mcs[i].wf());
            }
        },
        TcOp::Credit((c, cop)) => {
            if has_currency(mcs, c) {
                let i = currency_index(mcs, c);
                assert(mcs[i].wf());
                lemma_op_keeps_wf(mcs[i], cop, incoming);
                if caps_hold_all(mcs) {
                    assert(mcs[i].balance.caps_hold());
                    lemma_op_keeps_caps(mcs[i], cop, incoming);
                }
            }
        },
    }
}

/// Applying a list of operations keeps the ledgers well formed, and keeps
/// every debt cap that held.
pub proof fn lemma_tc_ops_keep_wf(mcs: Seq<McView>, ops: Seq<TcOp>, incoming: bool)
    requires
        credits_wf(mcs),
    ensures
        tc_ops_spec(mcs, ops, incoming) matches Ok(v) ==> credits_wf(v),
        caps_hold_all(mcs) ==> (tc_ops_spec(mcs, ops, incoming) matches Ok(v) ==> caps_hold_all(v)),
    decreases ops.len(),
{
    if ops.len() > 0 {
        lemma_tc_ops_keep_wf(mcs, ops.drop_last(), incoming);
        match tc_ops_spec(mcs, ops.drop_last(), incoming) {
            Ok(m2) => {
                lemma_tc_op_keeps_wf(m2, ops.last(), incoming);
            },
            Err(e) => {},
        }
    }
}

/// Position of the ledger of currency `c`, if any.
pub fn find_currency(mcs: &Vec<MutualCredit>, c: Currency) -> (r: Option<usize>)
    ensures
        r matches Some(i) ==> i < mcs@.len() && mcs@[i as int]@.currency == c,
        r is None ==> !has_currency(credit_views(mcs@), c),
{
    let mut i: usize = 0;
    while i < mcs.len()
        invariant
            0 <= i <= mcs@.len(),
            forall|j: int| 0 <= j < i ==> mcs@[j]@.currency != c,
        decreases mcs@.len() - i,
    {
        if mcs[i].currency == c {
            return Some(i);
        }
        i = i + 1;
    }
    None
}

/// Applies one operation to the ledgers. On refusal the ledgers are left
/// as they were.
pub fn apply_tc_op(mcs: &mut Vec<MutualCredit>, op: &TcOp, incoming: bool) -> (r: Result<
    (),
    TokenChannelError,
>)
    requires
        credits_wf(credit_views(old(mcs)@)),
    ensures
        match tc_op_spec(credit_views(old(mcs)@), *op, incoming) {
            Ok(v) => r is Ok && credit_views(final(mcs)@) == v,
            Err(e) => r == Err::<(), TokenChannelError>(e) && credit_views(final(mcs)@)
                == credit_views(old(mcs)@),
        },
{
    let ghost views = credit_views(mcs@);
    match op {
        TcOp::AddCurrency(c) => {
            if let Some(i) = find_currency(mcs, *c) {
                assert(views[i as int].currency == *c);
                return Err(TokenChannelError::CurrencyAlreadyExists);
            }
            let m = MutualCredit::new(*c, 0);
            assert(m@.local =~= Seq::<crate::signature_buff::PendingView>::empty());
            assert(m@.remote =~= Seq::<crate::signature_buff::PendingView>::empty());
            assert(m@ == empty_credit(*c));
            mcs.push(m);
            assert(credit_views(mcs@) =~= views.push(empty_credit(*c)));
            Ok(())
        },
        TcOp::RemoveCurrency(c) => {
            let i = match find_currency(mcs, *c) {
                Some(i) => i,
                None => return Err(TokenChannelError::UnknownCurrency),
            };
            proof {
                assert(views[i as int] == mcs@[i as int]@);
                lemma_currency_index(views, *c, i as int);
            }
            if mcs[i].balance.balance != 0 || mcs[i].local_pending.len() > 0
                || mcs[i].remote_pending.len() > 0 {
                return Err(TokenChannelError::CurrencyNotEmpty);
            }
            mcs.remove(i);
            assert(credit_views(mcs@) =~= views.remove(i as int));
            Ok(())
        },
        TcOp::SetRemoteMaxDebt((c, d)) => {
            let i = match find_currency(mcs, *c) {
                Some(i) => i,
                None => return Err(TokenChannelError::UnknownCurrency),
            };
            proof {
                assert(views[i as int] == mcs@[i as int]@);
                lemma_currency_index(views, *c, i as int);
            }
            let mut m = mcs.remove(i);
            let ghost removed = mcs@;
            if incoming {
                if !crate::mutual_credit::sub_ge(m.balance.balance, m.balance.local_pending_debt, *d) {
                    mcs.insert(i, m);
                    assert(mcs@ =~= old(mcs)@);
                    return Err(TokenChannelError::InvalidMaxDebt);
                }
                m.balance.local_max_debt = *d;
            } else {
                if !crate::mutual_credit::add_le(m.balance.balance, m.balance.remote_pending_debt, *d) {
                    mcs.insert(i, m);
                    assert(mcs@ =~= old(mcs)@);
                    return Err(TokenChannelError::InvalidMaxDebt);
                }
                m.balance.remote_max_debt = *d;
            }
            mcs.insert(i, m);
            assert(credit_views(mcs@) =~= views.update(i as int, m@));
            Ok(())
        },
        TcOp::Credit((c, cop)) => {
            let i = match find_currency(mcs, *c) {
                Some(i) => i,
                None => return Err(TokenChannelError::UnknownCurrency),
            };
            proof {
                assert(views[i as int] == mcs@[i as int]@);
                lemma_currency_index(views, *c, i as int);
            }
            let mut m = mcs.remove(i);
            let res = m.apply_op(cop, incoming);
            mcs.insert(i, m);
            match res {
                Ok(()) => {
                    assert(credit_views(mcs@) =~= views.update(i as int, m@));
                    Ok(())
                },
                Err(e) => {
                    assert(credit_views(mcs@) =~= views);
                    Err(TokenChannelError::InvalidCredit(e))
                },
            }
        },
    }
}

/// Applies a move token's operations in order to the ledgers. On refusal
/// the ledgers are left part way: callers work on a copy.
pub fn apply_operations(mcs: &mut Vec<MutualCredit>, ops: &Vec<TcOp>, incoming: bool) -> (r: Result<
    (),
    TokenChannelError,
>)
    requires
        credits_wf(credit_views(old(mcs)@)),
    ensures
        match tc_ops_spec(credit_views(old(mcs)@), ops@, incoming) {
            Ok(v) => r is Ok && credit_views(final(mcs)@) == v,
            Err(e) => r == Err::<(), TokenChannelError>(e),
        },
{
    let ghost start = credit_views(mcs@);
    let mut i: usize = 0;
    assert(ops@.subrange(0, 0) =~= Seq::<TcOp>::empty());
    while i < ops.len()
        invariant
            0 <= i <= ops@.len(),
            start == credit_views(old(mcs)@),
            credits_wf(start),
            tc_ops_spec(start, ops@.subrange(0, i as int), incoming) == Ok::<
                Seq<McView>,
                TokenChannelError,
            >(credit_views(mcs@)),
            credits_wf(credit_views(mcs@)),
        decreases ops@.len() - i,
    {
        let ghost before = credit_views(mcs@);
        proof {
            assert(ops@.subrange(0, i + 1).drop_last() =~= ops@.subrange(0, i as int));
            assert(ops@.subrange(0, i + 1).last() == ops@[i as int]);
            assert(tc_ops_spec(start, ops@.subrange(0, i + 1), incoming) == tc_op_spec(
                before,
                ops@[i as int],
                incoming,
            ));
            lemma_tc_op_keeps_wf(before, ops@[i as int], incoming);
        }
        let res = apply_tc_op(mcs, &ops[i], incoming);
        if let Err(e) = res {
            proof {
                assert(tc_op_spec(before, ops@[i as int], incoming) == Err::<
                    Seq<McView>,
                    TokenChannelError,
                >(e));
                assert(tc_ops_spec(start, ops@.subrange(0, i + 1), incoming) is Err);
                lemma_tc_ops_prefix_err(start, ops@, i + 1, incoming);
                assert(start == credit_views(old(mcs)@));
            }
            return Err(e);
        }
        i = i + 1;
    }
    assert(ops@.subrange(0, ops@.len() as int) =~= ops@);
    Ok(())
}

/// Once a prefix of the operations is refused, the whole list is refused
/// with the same error.
pub proof fn lemma_tc_ops_prefix_err(mcs: Seq<McView>, ops: Seq<TcOp>, n: int, incoming: bool)
    requires
        0 <= n <= ops.len(),
        tc_ops_spec(mcs, ops.subrange(0, n), incoming) is Err,
    ensures
        tc_ops_spec(mcs, ops, incoming) == tc_ops_spec(mcs, ops.subrange(0, n), incoming),
    decreases ops.len() - n,
{
    if n < ops.len() {
        assert(ops.subrange(0, n + 1).drop_last() =~= ops.subrange(0, n));
        assert(tc_ops_spec(mcs, ops.subrange(0, n + 1), incoming) == tc_ops_spec(
            mcs,
            ops.subrange(0, n),
            incoming,
        ));
        lemma_tc_ops_prefix_err(mcs, ops, n + 1, incoming);
    } else {
        assert(ops.subrange(0, n) =~= ops);
    }
}

} // verus!
