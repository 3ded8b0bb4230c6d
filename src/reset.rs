use vstd::prelude::*;

use crate::ids::{Currency, HashResult};
use crate::mutual_credit::{McBalance, McView, MutualCredit, U256};
use crate::operations::{credit_views, credits_wf, currency_index, find_currency, has_currency};
use crate::primitives::{be_bytes, sha512_256_of, sha_512_256, write_u128_be};
use crate::signature_buff::PendingView;

verus! {

/// The figures of one currency that a reset resumes from.
#[derive(Debug, Clone, Copy)]
pub struct ResetBalance {
    pub balance: i128,
    pub in_fees: U256,
    pub out_fees: U256,
}

/// A proposal of the state to resume an inconsistent channel from.
#[derive(Debug)]
pub struct ResetTerms {
    /// The token that the first move after the reset chains from.
    pub reset_token: HashResult,
    /// Above every counter the proposer has used or seen.
    pub move_token_counter: u128,
    pub balances: Vec<(Currency, ResetBalance)>,
}

/// The bytes of one currency's reset figures; the balance in two's complement.
pub open spec fn reset_balance_bytes(c: Currency, rb: ResetBalance) -> Seq<u8> {
    be_bytes(c.code as nat, 16) + be_bytes((rb.balance as u128) as nat, 16) + be_bytes(
        rb.in_fees.hi as nat,
        16,
    ) + be_bytes(rb.in_fees.lo as nat, 16) + be_bytes(rb.out_fees.hi as nat, 16) + be_bytes(
        rb.out_fees.lo as nat,
        16,
    )
}

/// The bytes of each currency's reset figures, one after the other.
pub open spec fn balances_bytes(t: Seq<(Currency, ResetBalance)>) -> Seq<u8>
    decreases t.len(),
{
    if t.len() == 0 {
        Seq::empty()
    } else {
        balances_bytes(t.drop_last()) + reset_balance_bytes(t.last().0, t.last().1)
    }
}

/// The bytes that a reset token is the hash of: the counter, then each
/// currency's figures.
pub open spec fn reset_terms_bytes(counter: u128, t: Seq<(Currency, ResetBalance)>) -> Seq<u8> {
    be_bytes(counter as nat, 16) + balances_bytes(t)
}

/// The reset token of terms: a function of the terms alone.
pub open spec fn reset_token_of(counter: u128, t: Seq<(Currency, ResetBalance)>) -> Seq<u8> {
    sha512_256_of(reset_terms_bytes(counter, t))
}

/// The reset figures of the ledgers as they stand.
pub open spec fn current_balances(mcs: Seq<McView>) -> Seq<(Currency, ResetBalance)> {
    mcs.map_values(
        |m: McView|
            (
                m.currency,
                ResetBalance {
                    balance: m.balance.balance,
                    in_fees: m.balance.in_fees,
                    out_fees: m.balance.out_fees,
                },
            ),
    )
}

/// Terms name each currency once; terms of the friend, whose balances we
/// take negated, hold no balance that cannot be negated.
pub open spec fn terms_valid(t: Seq<(Currency, ResetBalance)>, negate: bool) -> bool {
    &&& forall|i: int, j: int| 0 <= i < t.len() && 0 <= j < t.len() && i != j ==> t[i].0 != t[j].0
    &&& negate ==> forall|i: int| 0 <= i < t.len() ==> t[i].1.balance != i128::MIN
}

/// The ledger that a reset resumes from for one currency: the agreed balance
/// and fees (seen from the friend's side when `negate`: balance negated, fees
/// swapped), the caps the currency had, and nothing pending.
pub open spec fn reset_credit(old: Seq<McView>, c: Currency, rb: ResetBalance, negate: bool) -> McView {
    let has = has_currency(old, c);
    let prev = old[currency_index(old, c)].balance;
    McView {
        currency: c,
        balance: McBalance {
            balance: if negate {
                (-rb.balance) as i128
            } else {
                rb.balance
            },
            local_max_debt: if has {
                prev.local_max_debt
            } else {
                0
            },
            remote_max_debt: if has {
                prev.remote_max_debt
            } else {
                0
            },
            local_pending_debt: 0,
            remote_pending_debt: 0,
            in_fees: if negate {
                rb.out_fees
            } else {
                rb.in_fees
            },
            out_fees: if negate {
                rb.in_fees
            } else {
                rb.out_fees
            },
        },
        local: Seq::empty(),
        remote: Seq::empty(),
    }
}

/// The ledgers that a reset resumes from.
pub open spec fn reset_credits(old: Seq<McView>, t: Seq<(Currency, ResetBalance)>, negate: bool) -> Seq<
    McView,
> {
    Seq::new(t.len(), |i: int| reset_credit(old, t[i].0, t[i].1, negate))
}

/// The reset figures of the ledgers as they stand.
pub fn current_reset_balances(mcs: &Vec<MutualCredit>) -> (r: Vec<(Currency, ResetBalance)>)
    ensures
        r@ == current_balances(credit_views(mcs@)),
{
    let mut r: Vec<(Currency, ResetBalance)> = Vec::new();
    let mut i: usize = 0;
    while i < mcs.len()
        invariant
            0 <= i <= mcs@.len(),
            r@.len() == i,
            forall|j: int| 0 <= j < i ==> r@[j] == current_balances(credit_views(mcs@))[j],
        decreases mcs@.len() - i,
    {
        let b = mcs[i].balance;
        r.push((mcs[i].currency, ResetBalance { balance: b.balance, in_fees: b.in_fees, out_fees: b.out_fees }));
        i = i + 1;
    }
    assert(r@ =~= current_balances(credit_views(mcs@)));
    r
}

/// Appends the bytes of each currency's reset figures.
pub fn reset_terms_buffer(counter: u128, balances: &Vec<(Currency, ResetBalance)>) -> (r: Vec<u8>)
    ensures
        r@ == reset_terms_bytes(counter, balances@),
{
    let mut buf: Vec<u8> = Vec::new();
    write_u128_be(&mut buf, counter);
    let ghost head = buf@;
    let mut i: usize = 0;
    while i < balances.len()
        invariant
            0 <= i <= balances@.len(),
            head == be_bytes(counter as nat, 16),
            buf@ == head + balances_bytes(balances@.subrange(0, i as int)),
        decreases balances@.len() - i,
    {
        let (c, rb) = balances[i];
        write_u128_be(&mut buf, c.code as u128);
        write_u128_be(&mut buf, rb.balance as u128);
        write_u128_be(&mut buf, rb.in_fees.hi);
        write_u128_be(&mut buf, rb.in_fees.lo);
        write_u128_be(&mut buf, rb.out_fees.hi);
        write_u128_be(&mut buf, rb.out_fees.lo);
        assert(balances@.subrange(0, i + 1).drop_last() =~= balances@.subrange(0, i as int));
        assert(buf@ =~= head + balances_bytes(balances@.subrange(0, i + 1)));
        i = i + 1;
    }
    assert(balances@.subrange(0, balances@.len() as int) =~= balances@);
    buf
}

/// The reset token of terms.
pub fn compute_reset_token(counter: u128, balances: &Vec<(Currency, ResetBalance)>) -> (r:
    HashResult)
    ensures
        r@ == reset_token_of(counter, balances@),
{
    let buf = reset_terms_buffer(counter, balances);
    sha_512_256(buf.as_slice())
}

/// Whether the terms are valid (see `terms_valid`).
pub fn check_terms(balances: &Vec<(Currency, ResetBalance)>, negate: bool) -> (r: bool)
    ensures
        r == terms_valid(balances@, negate),
{
    let n = balances.len();
    let mut i: usize = 0;
    while i < n
        invariant
            0 <= i <= n,
            n == balances@.len(),
            forall|a: int, b: int| 0 <= a < i && 0 <= b < n && a != b ==> balances@[a].0 != balances@[b].0,
            negate ==> forall|a: int| 0 <= a < i ==> balances@[a].1.balance != i128::MIN,
        decreases n - i,
    {
        if negate && balances[i].1.balance == i128::MIN {
            return false;
        }
        let mut j: usize = 0;
        while j < n
            invariant
                0 <= j <= n,
                i < n,
                n == balances@.len(),
                forall|b: int| 0 <= b < j && b != i ==> balances@[i as int].0 != balances@[b].0,
            decreases n - j,
        {
            if j != i && balances[i].0 == balances[j].0 {
                return false;
            }
            j = j + 1;
        }
        i = i + 1;
    }
    true
}

/// The ledgers that a reset to these terms resumes from, or `None` if the
/// terms are not valid.
pub fn credits_from_terms(
    old: &Vec<MutualCredit>,
    balances: &Vec<(Currency, ResetBalance)>,
    negate: bool,
) -> (r: Option<Vec<MutualCredit>>)
    requires
        credits_wf(credit_views(old@)),
    ensures
        r is Some <==> terms_valid(balances@, negate),
        r matches Some(v) ==> credit_views(v@) == reset_credits(credit_views(old@), balances@, negate)
            && credits_wf(credit_views(v@)),
{
    if !check_terms(balances, negate) {
        return None;
    }
    let ghost olds = credit_views(old@);
    let mut r: Vec<MutualCredit> = Vec::new();
    let mut i: usize = 0;
    while i < balances.len()
        invariant
            0 <= i <= balances@.len(),
            olds == credit_views(old@),
            credits_wf(olds),
            terms_valid(balances@, negate),
            r@.len() == i,
            forall|j: int| 0 <= j < i ==> (#[trigger] r@[j])@ == reset_credit(olds, balances@[j].0, balances@[j].1, negate),
        decreases balances@.len() - i,
    {
        let (c, rb) = balances[i];
        let (lmd, rmd) = match find_currency(old, c) {
            Some(k) => {
                proof {
                    assert(olds[k as int] == old@[k as int]@);
                    crate::operations::lemma_currency_index(olds, c, k as int);
                }
                (old[k].balance.local_max_debt, old[k].balance.remote_max_debt)
            },
            None => (0u128, 0u128),
        };
        let (bal, inf, outf) = if negate {
            (-rb.balance, rb.out_fees, rb.in_fees)
        } else {
            (rb.balance, rb.in_fees, rb.out_fees)
        };
        let mut m = MutualCredit::new(c, bal);
        m.balance.local_max_debt = lmd;
        m.balance.remote_max_debt = rmd;
        m.balance.in_fees = inf;
        m.balance.out_fees = outf;
        assert(m@.local =~= Seq::<PendingView>::empty());
        assert(m@.remote =~= Seq::<PendingView>::empty());
        r.push(m);
        i = i + 1;
    }
    assert(credit_views(r@) =~= reset_credits(olds, balances@, negate));
    Some(r)
}

/// A reset clears every pending request: the ledgers it resumes from hold
/// none, on either side, and no pending debt.
pub proof fn lemma_reset_clears_pending(
    old: Seq<McView>,
    t: Seq<(Currency, ResetBalance)>,
    negate: bool,
)
    ensures
        forall|i: int|
            0 <= i < t.len() ==> {
                let m = #[trigger] reset_credits(old, t, negate)[i];
                &&& m.local.len() == 0
                &&& m.remote.len() == 0
                &&& m.balance.local_pending_debt == 0
                &&& m.balance.remote_pending_debt == 0
            },
{
}

} // verus!
