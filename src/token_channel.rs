use vstd::prelude::*;

use crate::ids::{RandValue, Signature};
use crate::keys::{bytes_lt, PublicKey};
use crate::move_token::{
    create_move_token_buffer, hash_move_token, initial_move_token, initial_token, is_hashed_of,
    lemma_initial_token,
    is_initial_move_token, move_token_bytes, same_token, token_of, MoveToken, MoveTokenHashed,
};
use crate::mutual_credit::{MutualCredit, McView};
use crate::operations::{
    apply_operations, caps_hold_all, credit_views, credits_wf, lemma_tc_ops_keep_wf, tc_ops_spec,
    TcOp, TokenChannelError,
};
use crate::primitives::{signature_valid, verify_signature};
use crate::reset::{
    compute_reset_token, credits_from_terms, current_balances, current_reset_balances,
    reset_credits, reset_token_of, terms_valid, ResetTerms,
};

verus! {

/// Status of a token channel.
#[derive(Debug)]
pub enum TcStatus {
    /// We received the last move and hold the turn.
    ConsistentIn(MoveTokenHashed),
    /// We sent the last move, which we resend until it is answered; the
    /// move we received before it, if any.
    ConsistentOut(MoveToken, Option<MoveTokenHashed>),
    /// The two sides disagree: our reset terms, and the friend's if they came.
    Inconsistent(ResetTerms, Option<ResetTerms>),
}

/// What receiving a move token came to.
#[derive(Debug, Clone, Copy, PartialEq, Eq, Structural)]
pub enum ReceiveMoveTokenOutput {
    /// A resend of the move we already hold: nothing changes.
    Duplicate,
    /// A resend of the move before our outgoing one: resend ours.
    RetransmitOutgoing,
    /// The move was applied and we hold the turn.
    Received,
    /// The move broke the chain; the channel is now inconsistent.
    ChainInconsistency,
    /// The channel is inconsistent and the move does not resume it.
    Ignored,
}

/// The counter of the last move the status knows of.
pub open spec fn status_counter(s: TcStatus) -> u128 {
    match s {
        TcStatus::ConsistentIn(h) => h.move_token_counter,
        TcStatus::ConsistentOut(m, _) => m.move_token_counter,
        TcStatus::Inconsistent(t, _) => t.move_token_counter,
    }
}

/// `a + 1`, except at the top of `u128`.
pub open spec fn next_counter(a: u128) -> u128 {
    if a == u128::MAX {
        a
    } else {
        (a + 1) as u128
    }
}

/// The larger of two counters.
pub open spec fn max_counter(a: u128, b: u128) -> u128 {
    if a >= b {
        a
    } else {
        b
    }
}

/// The turn-taking ledger between us and one friend.
#[derive(Debug)]
pub struct TokenChannel {
    pub local_public_key: PublicKey,
    pub remote_public_key: PublicKey,
    pub status: TcStatus,
    pub mutual_credits: Vec<MutualCredit>,
}

impl TokenChannel {
    /// The ledgers are well formed, one per currency.
    pub open spec fn wf(&self) -> bool {
        credits_wf(credit_views(self.mutual_credits@))
    }

    /// The values of the ledgers.
    pub open spec fn credits(&self) -> Seq<McView> {
        credit_views(self.mutual_credits@)
    }

    /// `next` is this channel gone inconsistent after a move with counter
    /// `seen`: the ledgers stay as they were, and our reset terms hold
    /// their current figures, a counter above both our last move and
    /// `seen`, and the token of those terms.
    pub open spec fn went_inconsistent(self, next: TokenChannel, seen: u128) -> bool {
        &&& next.local_public_key == self.local_public_key
        &&& next.remote_public_key == self.remote_public_key
        &&& next.credits() == self.credits()
        &&& next.status matches TcStatus::Inconsistent(t, None) && {
            &&& t.move_token_counter == next_counter(max_counter(status_counter(self.status), seen))
            &&& t.balances@ == current_balances(self.credits())
            &&& t.reset_token@ == reset_token_of(t.move_token_counter, t.balances@)
        }
    }

    /// A new channel with no ledgers. The side with the lower key holds the
    /// first move as sent; the other side holds it as received.
    pub fn new(local_public_key: PublicKey, remote_public_key: PublicKey) -> (r: TokenChannel)
        ensures
            r.wf(),
            r.local_public_key == local_public_key,
            r.remote_public_key == remote_public_key,
            r.mutual_credits@.len() == 0,
            bytes_lt(local_public_key@, remote_public_key@) ==> (r.status matches TcStatus::ConsistentOut(
                mt,
                None,
            ) && is_initial_move_token(mt, local_public_key@, remote_public_key@)),
            !bytes_lt(local_public_key@, remote_public_key@) ==> (r.status matches TcStatus::ConsistentIn(
                h,
            ) && h.move_token_counter == 0 && h.new_token@ == initial_token(
                local_public_key@,
                remote_public_key@,
            )),
    {
        let mt = initial_move_token(&local_public_key, &remote_public_key);
        let status = if local_public_key.less_than(&remote_public_key) {
            TcStatus::ConsistentOut(mt, None)
        } else {
            let h = hash_move_token(&mt);
            proof {
                lemma_initial_token(mt, local_public_key@, remote_public_key@);
            }
            TcStatus::ConsistentIn(h)
        };
        let r = TokenChannel {
            local_public_key,
            remote_public_key,
            status,
            mutual_credits: Vec::new(),
        };
        assert(r.credits() =~= Seq::<McView>::empty());
        r
    }

    /// The counter of the last move this channel knows of.
    pub fn last_counter(&self) -> (r: u128)
        ensures
            r == status_counter(self.status),
    {
        match &self.status {
            TcStatus::ConsistentIn(h) => h.move_token_counter,
            TcStatus::ConsistentOut(m, _) => m.move_token_counter,
            TcStatus::Inconsistent(t, _) => t.move_token_counter,
        }
    }

    /// Goes inconsistent after a move with counter `seen`.
    fn set_inconsistent(&mut self, seen: u128)
        requires
            old(self).wf(),
        ensures
            final(self).wf(),
            old(self).went_inconsistent(*final(self), seen),
    {
        let own = self.last_counter();
        let top = if own >= seen {
            own
        } else {
            seen
        };
        let counter = if top == u128::MAX {
            top
        } else {
            top + 1
        };
        let balances = current_reset_balances(&self.mutual_credits);
        let reset_token = compute_reset_token(counter, &balances);
        self.status = TcStatus::Inconsistent(
            ResetTerms { reset_token, move_token_counter: counter, balances },
            None,
        );
    }
}

/// A copy of the ledgers.
pub fn duplicate_credits(mcs: &Vec<MutualCredit>) -> (r: Vec<MutualCredit>)
    ensures
        credit_views(r@) == credit_views(mcs@),
{
    let mut r: Vec<MutualCredit> = Vec::new();
    let mut i: usize = 0;
    while i < mcs.len()
        invariant
            0 <= i <= mcs@.len(),
            r@.len() == i,
            forall|j: int| 0 <= j < i ==> (#[trigger] r@[j])@ == mcs@[j]@,
        decreases mcs@.len() - i,
    {
        r.push(mcs[i].duplicate());
        i = i + 1;
    }
    assert(credit_views(r@) =~= credit_views(mcs@));
    r
}

impl TokenChannel {
    /// The friend's signature on `mt` verifies.
    pub open spec fn remote_signed(&self, mt: MoveToken) -> bool {
        signature_valid(
            move_token_bytes(mt.old_token@, mt.operations@, mt.rand_nonce@, mt.move_token_counter),
            self.remote_public_key@,
            mt.signature@,
        )
    }

    /// `mt` answers our outgoing move `out`: it chains from `out`'s token,
    /// carries the next counter, is signed by the friend, and its
    /// operations apply to our ledgers.
    pub open spec fn answers(&self, out: MoveToken, mt: MoveToken) -> bool {
        &&& mt.old_token@ == token_of(out)
        &&& out.move_token_counter < u128::MAX
        &&& mt.move_token_counter == out.move_token_counter + 1
        &&& self.remote_signed(mt)
        &&& tc_ops_spec(self.credits(), mt.operations@, true) is Ok
    }

    /// `mt` accepts our reset terms `t`: it chains from their token, carries
    /// the next counter, is signed by the friend, and its operations apply to
    /// the ledgers the terms resume from.
    pub open spec fn accepts_terms(&self, t: ResetTerms, mt: MoveToken) -> bool {
        &&& mt.old_token@ == t.reset_token@
        &&& t.move_token_counter < u128::MAX
        &&& mt.move_token_counter == t.move_token_counter + 1
        &&& self.remote_signed(mt)
        &&& terms_valid(t.balances@, false)
        &&& tc_ops_spec(reset_credits(self.credits(), t.balances@, false), mt.operations@, true) is Ok
    }

    /// Handles a move token of the friend.
    ///
    /// Holding the turn, we take a resend of the move we hold as a duplicate
    /// and anything else as a break of the chain. Waiting for an answer, we
    /// answer a resend of the move before ours by resending ours, and apply
    /// a move that answers ours: its operations all apply, in order, or the
    /// channel goes inconsistent with none of them applied. Inconsistent, we
    /// resume only on a move that accepts our reset terms: the ledgers
    /// restart from the terms, the move's operations apply, and the channel
    /// is consistent again.
    pub fn handle_in_move_token(&mut self, mt: MoveToken) -> (r: ReceiveMoveTokenOutput)
        requires
            old(self).wf(),
        ensures
            final(self).wf(),
            final(self).local_public_key == old(self).local_public_key,
            final(self).remote_public_key == old(self).remote_public_key,
            r == ReceiveMoveTokenOutput::Received ==> (final(self).status matches TcStatus::ConsistentIn(h)
                && is_hashed_of(h, mt)) && status_counter(final(self).status) == mt.move_token_counter
                && mt.move_token_counter > status_counter(old(self).status),
            (r == ReceiveMoveTokenOutput::Duplicate || r == ReceiveMoveTokenOutput::RetransmitOutgoing
                || r == ReceiveMoveTokenOutput::Ignored) ==> final(self).status == old(self).status
                && final(self).mutual_credits == old(self).mutual_credits,
            r == ReceiveMoveTokenOutput::ChainInconsistency ==> old(self).went_inconsistent(
                *final(self),
                mt.move_token_counter,
            ),
            match old(self).status {
                TcStatus::ConsistentIn(h) => if h.new_token@ == token_of(mt) {
                    r == ReceiveMoveTokenOutput::Duplicate
                } else {
                    r == ReceiveMoveTokenOutput::ChainInconsistency
                },
                TcStatus::ConsistentOut(out, opt_in) => if opt_in matches Some(l) && l.new_token@
                    == token_of(mt) {
                    r == ReceiveMoveTokenOutput::RetransmitOutgoing
                } else if old(self).answers(out, mt) {
                    &&& r == ReceiveMoveTokenOutput::Received
                    &&& tc_ops_spec(old(self).credits(), mt.operations@, true) == Ok::<
                        Seq<McView>,
                        TokenChannelError,
                    >(final(self).credits())
                    &&& caps_hold_all(old(self).credits()) ==> caps_hold_all(final(self).credits())
                } else {
                    r == ReceiveMoveTokenOutput::ChainInconsistency
                },
                TcStatus::Inconsistent(t, _) => if old(self).accepts_terms(t, mt) {
                    &&& r == ReceiveMoveTokenOutput::Received
                    &&& tc_ops_spec(
                        reset_credits(old(self).credits(), t.balances@, false),
                        mt.operations@,
                        true,
                    ) == Ok::<Seq<McView>, TokenChannelError>(final(self).credits())
                } else {
                    r == ReceiveMoveTokenOutput::Ignored
                },
            },
    {
        let hin = hash_move_token(&mt);
        // 0: duplicate, 1: resend ours, 2: try the answer to our move,
        // 3: try the acceptance of our terms, 4: chain broken.
        let decision: u8 = match &self.status {
            TcStatus::ConsistentIn(h) => if same_token(&h.new_token, &hin.new_token) {
                0
            } else {
                4
            },
            TcStatus::ConsistentOut(out, opt_in) => {
                let resend = match opt_in {
                    Some(l) => same_token(&l.new_token, &hin.new_token),
                    None => false,
                };
                if resend {
                    1
                } else {
                    let hout = hash_move_token(out);
                    if same_token(&mt.old_token, &hout.new_token) && out.move_token_counter
                        < u128::MAX && mt.move_token_counter == out.move_token_counter + 1 {
                        2
                    } else {
                        4
                    }
                }
            },
            TcStatus::Inconsistent(t, _) => {
                if same_token(&mt.old_token, &t.reset_token) && t.move_token_counter < u128::MAX
                    && mt.move_token_counter == t.move_token_counter + 1 {
                    3
                } else {
                    5
                }
            },
        };
        if decision == 0 {
            return ReceiveMoveTokenOutput::Duplicate;
        }
        if decision == 1 {
            return ReceiveMoveTokenOutput::RetransmitOutgoing;
        }
        if decision == 5 {
            return ReceiveMoveTokenOutput::Ignored;
        }
        if decision == 4 {
            self.set_inconsistent(mt.move_token_counter);
            return ReceiveMoveTokenOutput::ChainInconsistency;
        }
        let buf = create_move_token_buffer(
            &mt.old_token,
            &mt.operations,
            &mt.rand_nonce,
            mt.move_token_counter,
        );
        let signed = verify_signature(buf.as_slice(), &self.remote_public_key, &mt.signature);
        if decision == 2 {
            if !signed {
                self.set_inconsistent(mt.move_token_counter);
                return ReceiveMoveTokenOutput::ChainInconsistency;
            }
            let mut base = duplicate_credits(&self.mutual_credits);
            proof {
                lemma_tc_ops_keep_wf(self.credits(), mt.operations@, true);
            }
            match apply_operations(&mut base, &mt.operations, true) {
                Ok(()) => {
                    self.mutual_credits = base;
                    self.status = TcStatus::ConsistentIn(hin);
                    ReceiveMoveTokenOutput::Received
                },
                Err(_) => {
                    self.set_inconsistent(mt.move_token_counter);
                    ReceiveMoveTokenOutput::ChainInconsistency
                },
            }
        } else {
            if !signed {
                return ReceiveMoveTokenOutput::Ignored;
            }
            let opt_base = match &self.status {
                TcStatus::Inconsistent(t, _) => credits_from_terms(&self.mutual_credits, &t.balances, false),
                _ => None,
            };
            let mut base = match opt_base {
                Some(b) => b,
                None => return ReceiveMoveTokenOutput::Ignored,
            };
            proof {
                lemma_tc_ops_keep_wf(credit_views(base@), mt.operations@, true);
            }
            match apply_operations(&mut base, &mt.operations, true) {
                Ok(()) => {
                    self.mutual_credits = base;
                    self.status = TcStatus::ConsistentIn(hin);
                    ReceiveMoveTokenOutput::Received
                },
                Err(_) => ReceiveMoveTokenOutput::Ignored,
            }
        }
    }
}

impl TokenChannel {
    /// The buffer to sign for our next move with these operations and
    /// nonce. Only the side holding the turn moves, and only while the
    /// counter can go up.
    pub fn move_token_buffer(&self, operations: &Vec<TcOp>, rand_nonce: &RandValue) -> (r: Result<
        Vec<u8>,
        TokenChannelError,
    >)
        ensures
            match self.status {
                TcStatus::ConsistentIn(h) => if h.move_token_counter == u128::MAX {
                    r == Err::<Vec<u8>, TokenChannelError>(TokenChannelError::CounterOverflow)
                } else {
                    r matches Ok(b) && b@ == move_token_bytes(
                        h.new_token@,
                        operations@,
                        rand_nonce@,
                        (h.move_token_counter + 1) as u128,
                    )
                },
                _ => r == Err::<Vec<u8>, TokenChannelError>(TokenChannelError::NotOurTurn),
            },
    {
        match &self.status {
            TcStatus::ConsistentIn(h) => {
                if h.move_token_counter == u128::MAX {
                    return Err(TokenChannelError::CounterOverflow);
                }
                Ok(create_move_token_buffer(&h.new_token, operations, rand_nonce, h.move_token_counter + 1))
            },
            _ => Err(TokenChannelError::NotOurTurn),
        }
    }

    /// Makes our move: the operations apply to our ledgers, all of them or
    /// none, and the signed move becomes the one we send until it is
    /// answered. It chains from the token we hold and carries the next
    /// counter; the signature must be ours over exactly that.
    pub fn handle_out_move_token(
        &mut self,
        operations: Vec<TcOp>,
        rand_nonce: RandValue,
        signature: Signature,
    ) -> (r: Result<(), TokenChannelError>)
        requires
            old(self).wf(),
        ensures
            final(self).wf(),
            final(self).local_public_key == old(self).local_public_key,
            final(self).remote_public_key == old(self).remote_public_key,
            r is Err ==> final(self).status == old(self).status && final(self).mutual_credits == old(
                self,
            ).mutual_credits,
            match old(self).status {
                TcStatus::ConsistentIn(h) => if h.move_token_counter == u128::MAX {
                    r == Err::<(), TokenChannelError>(TokenChannelError::CounterOverflow)
                } else if !signature_valid(
                    move_token_bytes(
                        h.new_token@,
                        operations@,
                        rand_nonce@,
                        (h.move_token_counter + 1) as u128,
                    ),
                    old(self).local_public_key@,
                    signature@,
                ) {
                    r == Err::<(), TokenChannelError>(TokenChannelError::InvalidSignature)
                } else {
                    match tc_ops_spec(old(self).credits(), operations@, false) {
                        Err(e) => r == Err::<(), TokenChannelError>(e),
                        Ok(v) => {
                            &&& r is Ok
                            &&& final(self).credits() == v
                            &&& final(self).status matches TcStatus::ConsistentOut(mt, Some(h2)) && h2
                                == h && mt.old_token == h.new_token && mt.operations == operations
                                && mt.rand_nonce == rand_nonce && mt.move_token_counter
                                == h.move_token_counter + 1 && mt.signature == signature
                            &&& caps_hold_all(old(self).credits()) ==> caps_hold_all(v)
                        },
                    }
                },
                _ => r == Err::<(), TokenChannelError>(TokenChannelError::NotOurTurn),
            },
    {
        let h = match &self.status {
            TcStatus::ConsistentIn(h) => *h,
            _ => return Err(TokenChannelError::NotOurTurn),
        };
        if h.move_token_counter == u128::MAX {
            return Err(TokenChannelError::CounterOverflow);
        }
        let counter = h.move_token_counter + 1;
        let buf = create_move_token_buffer(&h.new_token, &operations, &rand_nonce, counter);
        if !verify_signature(buf.as_slice(), &self.local_public_key, &signature) {
            return Err(TokenChannelError::InvalidSignature);
        }
        let mut base = duplicate_credits(&self.mutual_credits);
        proof {
            lemma_tc_ops_keep_wf(self.credits(), operations@, false);
        }
        match apply_operations(&mut base, &operations, false) {
            Ok(()) => {},
            Err(e) => return Err(e),
        }
        self.mutual_credits = base;
        self.status = TcStatus::ConsistentOut(
            MoveToken { old_token: h.new_token, operations, rand_nonce, move_token_counter: counter, signature },
            Some(h),
        );
        Ok(())
    }

    /// The move we resend until it is answered, if we hold one.
    pub fn outgoing_move_token(&self) -> (r: Option<&MoveToken>)
        ensures
            match self.status {
                TcStatus::ConsistentOut(mt, _) => r == Some(&mt),
                _ => r is None,
            },
    {
        match &self.status {
            TcStatus::ConsistentOut(mt, _) => Some(mt),
            _ => None,
        }
    }

    /// Records the friend's reset terms. They are taken only while the
    /// channel is inconsistent and only if their token is the token of the
    /// terms.
    pub fn set_remote_reset_terms(&mut self, terms: ResetTerms) -> (r: Result<(), TokenChannelError>)
        requires
            old(self).wf(),
        ensures
            final(self).wf(),
            final(self).local_public_key == old(self).local_public_key,
            final(self).remote_public_key == old(self).remote_public_key,
            final(self).mutual_credits == old(self).mutual_credits,
            match old(self).status {
                TcStatus::Inconsistent(t, _) => if terms.reset_token@ == reset_token_of(
                    terms.move_token_counter,
                    terms.balances@,
                ) {
                    r is Ok && final(self).status == TcStatus::Inconsistent(t, Some(terms))
                } else {
                    r == Err::<(), TokenChannelError>(TokenChannelError::InvalidResetTerms)
                        && final(self).status == old(self).status
                },
                _ => r == Err::<(), TokenChannelError>(TokenChannelError::NoResetTerms)
                    && final(self).status == old(self).status,
            },
    {
        if !matches!(self.status, TcStatus::Inconsistent(_, _)) {
            return Err(TokenChannelError::NoResetTerms);
        }
        let token = compute_reset_token(terms.move_token_counter, &terms.balances);
        if !same_token(&token, &terms.reset_token) {
            return Err(TokenChannelError::InvalidResetTerms);
        }
        match &mut self.status {
            TcStatus::Inconsistent(_, opt_remote) => {
                *opt_remote = Some(terms);
            },
            _ => {},
        }
        Ok(())
    }

    /// Accepts the friend's reset terms: every pending request is dropped,
    /// each currency's ledger restarts from the friend's figures seen from
    /// our side, and the channel holds, as its last incoming move, one whose
    /// token is the terms' token, so that our next move chains from it.
    pub fn accept_remote_reset(&mut self) -> (r: Result<(), TokenChannelError>)
        requires
            old(self).wf(),
        ensures
            final(self).wf(),
            final(self).local_public_key == old(self).local_public_key,
            final(self).remote_public_key == old(self).remote_public_key,
            r is Err ==> final(self).status == old(self).status && final(self).mutual_credits == old(
                self,
            ).mutual_credits,
            match old(self).status {
                TcStatus::Inconsistent(_, Some(rt)) => if terms_valid(rt.balances@, true) {
                    &&& r is Ok
                    &&& final(self).credits() == reset_credits(old(self).credits(), rt.balances@, true)
                    &&& final(self).status matches TcStatus::ConsistentIn(h) && h.new_token
                        == rt.reset_token && h.move_token_counter == rt.move_token_counter
                } else {
                    r == Err::<(), TokenChannelError>(TokenChannelError::InvalidResetTerms)
                },
                _ => r == Err::<(), TokenChannelError>(TokenChannelError::NoResetTerms),
            },
    {
        let (reset_token, counter, opt_credits) = match &self.status {
            TcStatus::Inconsistent(_, Some(rt)) => (
                rt.reset_token,
                rt.move_token_counter,
                credits_from_terms(&self.mutual_credits, &rt.balances, true),
            ),
            _ => return Err(TokenChannelError::NoResetTerms),
        };
        let credits = match opt_credits {
            Some(c) => c,
            None => return Err(TokenChannelError::InvalidResetTerms),
        };
        let empty: Vec<TcOp> = Vec::new();
        let encoded = crate::operations::encode_operations(&empty);
        let operations_hash = crate::primitives::sha_512_256(encoded.as_slice());
        self.mutual_credits = credits;
        self.status = TcStatus::ConsistentIn(
            MoveTokenHashed {
                old_token: reset_token,
                operations_hash,
                rand_nonce: RandValue { bytes: [0u8; 16] },
                move_token_counter: counter,
                new_token: reset_token,
            },
        );
        Ok(())
    }
}

/// The counter of reset terms is above every counter the channel has used
/// or seen: above our last move and above the move that broke the chain,
/// as long as neither is the largest `u128`.
pub proof fn lemma_reset_counter_above(own: u128, seen: u128)
    requires
        own < u128::MAX,
        seen < u128::MAX,
    ensures
        next_counter(max_counter(own, seen)) > own,
        next_counter(max_counter(own, seen)) > seen,
{
}

} // verus!
