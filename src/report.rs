use vstd::prelude::*;

use crate::ids::{Currency, HashResult};
use crate::keys::PublicKey;
use crate::move_token::MoveTokenHashed;
use crate::operations::credit_views;
use crate::reset::ResetBalance;
use crate::token_channel::{TcStatus, TokenChannel};

verus! {

/// Why a report mutation was rejected.
#[derive(Debug, Clone, Copy, PartialEq, Eq, Structural)]
pub enum ReportMutateError {
    FriendDoesNotExist,
    FriendAlreadyExists,
}

/// Whether a friend is reachable now.
#[derive(Debug, Clone, Copy, PartialEq, Eq, Structural)]
pub enum FriendLivenessReport {
    Online,
    Offline,
}

/// Whether a side accepts new requests.
#[derive(Debug, Clone, Copy, PartialEq, Eq, Structural)]
pub enum RequestsStatusReport {
    Open,
    Closed,
}

/// Whether a friend is enabled.
#[derive(Debug, Clone, Copy, PartialEq, Eq, Structural)]
pub enum FriendStatusReport {
    Enabled,
    Disabled,
}

/// Who holds the last move.
#[derive(Debug, Clone, Copy, PartialEq, Eq, Structural)]
pub enum DirectionReport {
    Incoming,
    Outgoing,
}

/// The figures of one currency's ledger.
#[derive(Debug, Clone, Copy)]
pub struct McBalanceReport {
    pub currency: Currency,
    pub balance: i128,
    pub remote_max_debt: u128,
    pub local_max_debt: u128,
    pub local_pending_debt: u128,
    pub remote_pending_debt: u128,
    pub num_local_pending_requests: u64,
    pub num_remote_pending_requests: u64,
}

/// A consistent channel.
#[derive(Debug)]
pub struct TcReport {
    pub direction: DirectionReport,
    pub balances: Vec<McBalanceReport>,
}

/// Reset terms, as reported.
#[derive(Debug)]
pub struct ResetTermsReport {
    pub reset_token: HashResult,
    pub move_token_counter: u128,
    pub balances: Vec<(Currency, ResetBalance)>,
}

/// An inconsistent channel: our terms, and the friend's if they came.
#[derive(Debug)]
pub struct ChannelInconsistentReport {
    pub local_reset_terms: ResetTermsReport,
    pub opt_remote_reset_terms: Option<ResetTermsReport>,
}

/// The status of a friend's token channel, as reported.
#[derive(Debug)]
pub enum ChannelStatusReport {
    Consistent(TcReport),
    Inconsistent(ChannelInconsistentReport),
}

/// What a report holds of a friend.
#[derive(Debug)]
pub struct FriendReport<A> {
    pub address: A,
    pub name: String,
    pub opt_last_incoming_move_token: Option<MoveTokenHashed>,
    pub liveness: FriendLivenessReport,
    pub channel_status: ChannelStatusReport,
    pub wanted_remote_max_debt: u128,
    pub wanted_local_requests_status: RequestsStatusReport,
    pub num_pending_requests: u64,
    pub num_pending_responses: u64,
    pub status: FriendStatusReport,
    pub num_pending_user_requests: u64,
}

/// A change to one friend's report.
#[derive(Debug)]
pub enum FriendReportMutation<A> {
    SetFriendInfo((A, String)),
    SetChannelStatus(ChannelStatusReport),
    SetWantedRemoteMaxDebt(u128),
    SetWantedLocalRequestsStatus(RequestsStatusReport),
    SetNumPendingResponses(u64),
    SetNumPendingRequests(u64),
    SetFriendStatus(FriendStatusReport),
    SetNumPendingUserRequests(u64),
    SetOptLastIncomingMoveToken(Option<MoveTokenHashed>),
    SetLiveness(FriendLivenessReport),
}

/// A new friend, as reported.
#[derive(Debug)]
pub struct AddFriendReport<A> {
    pub friend_public_key: PublicKey,
    pub address: A,
    pub name: String,
    pub opt_last_incoming_move_token: Option<MoveTokenHashed>,
    pub channel_status: ChannelStatusReport,
}

/// A friend's report, by key.
#[derive(Debug)]
pub struct FriendReportEntry<A> {
    pub public_key: PublicKey,
    pub report: FriendReport<A>,
}

/// The observable state of the node.
#[derive(Debug)]
pub struct FunderReport<A> {
    pub local_public_key: PublicKey,
    pub opt_address: Option<A>,
    pub friends: Vec<FriendReportEntry<A>>,
    pub num_ready_receipts: u64,
}

/// A change to the node's report.
#[derive(Debug)]
pub enum FunderReportMutation<A> {
    SetAddress(Option<A>),
    AddFriend(AddFriendReport<A>),
    RemoveFriend(PublicKey),
    FriendReportMutation((PublicKey, FriendReportMutation<A>)),
    SetNumReadyReceipts(u64),
}

/// A friend's report after one change.
pub open spec fn friend_mutated<A>(f: FriendReport<A>, m: FriendReportMutation<A>) -> FriendReport<A> {
    match m {
        FriendReportMutation::SetFriendInfo((address, name)) => FriendReport { address, name, ..f },
        FriendReportMutation::SetChannelStatus(channel_status) => FriendReport { channel_status, ..f },
        FriendReportMutation::SetWantedRemoteMaxDebt(d) => FriendReport { wanted_remote_max_debt: d, ..f },
        FriendReportMutation::SetWantedLocalRequestsStatus(s) => FriendReport {
            wanted_local_requests_status: s,
            ..f
        },
        FriendReportMutation::SetNumPendingResponses(n) => FriendReport { num_pending_responses: n, ..f },
        FriendReportMutation::SetNumPendingRequests(n) => FriendReport { num_pending_requests: n, ..f },
        FriendReportMutation::SetFriendStatus(status) => FriendReport { status, ..f },
        FriendReportMutation::SetNumPendingUserRequests(n) => FriendReport {
            num_pending_user_requests: n,
            ..f
        },
        FriendReportMutation::SetOptLastIncomingMoveToken(t) => FriendReport {
            opt_last_incoming_move_token: t,
            ..f
        },
        FriendReportMutation::SetLiveness(liveness) => FriendReport { liveness, ..f },
    }
}

/// Applies one change to a friend's report.
pub fn friend_report_mutate<A>(friend_report: &mut FriendReport<A>, mutation: FriendReportMutation<A>)
    ensures
        *final(friend_report) == friend_mutated(*old(friend_report), mutation),
{
    match mutation {
        FriendReportMutation::SetFriendInfo((address, name)) => {
            friend_report.address = address;
            friend_report.name = name;
        },
        FriendReportMutation::SetChannelStatus(channel_status) => {
            friend_report.channel_status = channel_status;
        },
        FriendReportMutation::SetWantedRemoteMaxDebt(d) => {
            friend_report.wanted_remote_max_debt = d;
        },
        FriendReportMutation::SetWantedLocalRequestsStatus(s) => {
            friend_report.wanted_local_requests_status = s;
        },
        FriendReportMutation::SetNumPendingResponses(n) => {
            friend_report.num_pending_responses = n;
        },
        FriendReportMutation::SetNumPendingRequests(n) => {
            friend_report.num_pending_requests = n;
        },
        FriendReportMutation::SetFriendStatus(status) => {
            friend_report.status = status;
        },
        FriendReportMutation::SetNumPendingUserRequests(n) => {
            friend_report.num_pending_user_requests = n;
        },
        FriendReportMutation::SetOptLastIncomingMoveToken(t) => {
            friend_report.opt_last_incoming_move_token = t;
        },
        FriendReportMutation::SetLiveness(liveness) => {
            friend_report.liveness = liveness;
        },
    }
}

/// The report of a friend just added: offline, disabled, closed to
/// requests, with nothing wanted or pending.
pub open spec fn new_friend_report<A>(add: AddFriendReport<A>) -> FriendReport<A> {
    FriendReport {
        address: add.address,
        name: add.name,
        opt_last_incoming_move_token: add.opt_last_incoming_move_token,
        liveness: FriendLivenessReport::Offline,
        channel_status: add.channel_status,
        wanted_remote_max_debt: 0,
        wanted_local_requests_status: RequestsStatusReport::Closed,
        num_pending_requests: 0,
        num_pending_responses: 0,
        status: FriendStatusReport::Disabled,
        num_pending_user_requests: 0,
    }
}

/// Some friend of the report has key `k`.
pub open spec fn has_friend<A>(s: Seq<FriendReportEntry<A>>, k: Seq<u8>) -> bool {
    exists|i: int| 0 <= i < s.len() && s[i].public_key@ == k
}

/// No key stands twice among the friends of a report.
pub open spec fn friend_keys_unique<A>(s: Seq<FriendReportEntry<A>>) -> bool {
    forall|i: int, j: int|
        0 <= i < s.len() && 0 <= j < s.len() && i != j ==> s[i].public_key@ != s[j].public_key@
}

/// Position of the friend with key `k`, if any.
pub fn find_friend<A>(s: &Vec<FriendReportEntry<A>>, k: &PublicKey) -> (r: Option<usize>)
    ensures
        r matches Some(i) ==> i < s@.len() && s@[i as int].public_key@ == k@,
        r is None ==> !has_friend(s@, k@),
{
    let mut i: usize = 0;
    while i < s.len()
        invariant
            0 <= i <= s@.len(),
            forall|j: int| 0 <= j < i ==> s@[j].public_key@ != k@,
        decreases s@.len() - i,
    {
        if s[i].public_key.equals(k) {
            return Some(i);
        }
        i = i + 1;
    }
    None
}

/// Applies one change to the node's report. Adding a friend that is there
/// already, and removing or changing a friend that is not, are rejected and
/// change nothing.
pub fn funder_report_mutate<A>(funder_report: &mut FunderReport<A>, mutation: FunderReportMutation<A>) -> (r:
    Result<(), ReportMutateError>)
    requires
        friend_keys_unique(old(funder_report).friends@),
    ensures
        friend_keys_unique(final(funder_report).friends@),
        final(funder_report).local_public_key == old(funder_report).local_public_key,
        r is Err ==> *final(funder_report) == *old(funder_report),
        match mutation {
            FunderReportMutation::SetAddress(a) => r is Ok && *final(funder_report) == (FunderReport {
                opt_address: a,
                ..*old(funder_report)
            }),
            FunderReportMutation::SetNumReadyReceipts(n) => r is Ok && *final(funder_report) == (
            FunderReport { num_ready_receipts: n, ..*old(funder_report) }),
            FunderReportMutation::AddFriend(add) => if has_friend(
                old(funder_report).friends@,
                add.friend_public_key@,
            ) {
                r == Err::<(), ReportMutateError>(ReportMutateError::FriendAlreadyExists)
            } else {
                &&& r is Ok
                &&& final(funder_report).friends@ == old(funder_report).friends@.push(
                    FriendReportEntry { public_key: add.friend_public_key, report: new_friend_report(add) },
                )
                &&& final(funder_report).opt_address == old(funder_report).opt_address
                &&& final(funder_report).num_ready_receipts == old(funder_report).num_ready_receipts
            },
            FunderReportMutation::RemoveFriend(k) => if !has_friend(old(funder_report).friends@, k@) {
                r == Err::<(), ReportMutateError>(ReportMutateError::FriendDoesNotExist)
            } else {
                &&& r is Ok
                &&& exists|i: int|
                    0 <= i < old(funder_report).friends@.len()
                        && old(funder_report).friends@[i].public_key@ == k@
                        && final(funder_report).friends@ == old(funder_report).friends@.remove(i)
                &&& final(funder_report).opt_address == old(funder_report).opt_address
                &&& final(funder_report).num_ready_receipts == old(funder_report).num_ready_receipts
            },
            FunderReportMutation::FriendReportMutation((k, m)) => if !has_friend(
                old(funder_report).friends@,
                k@,
            ) {
                r == Err::<(), ReportMutateError>(ReportMutateError::FriendDoesNotExist)
            } else {
                &&& r is Ok
                &&& exists|i: int|
                    0 <= i < old(funder_report).friends@.len()
                        && old(funder_report).friends@[i].public_key@ == k@
                        && final(funder_report).friends@ == old(funder_report).friends@.update(
                        i,
                        FriendReportEntry {
                            public_key: old(funder_report).friends@[i].public_key,
                            report: friend_mutated(old(funder_report).friends@[i].report, m),
                        },
                    )
                &&& final(funder_report).opt_address == old(funder_report).opt_address
                &&& final(funder_report).num_ready_receipts == old(funder_report).num_ready_receipts
            },
        },
{
    match mutation {
        FunderReportMutation::SetAddress(a) => {
            funder_report.opt_address = a;
            Ok(())
        },
        FunderReportMutation::SetNumReadyReceipts(n) => {
            funder_report.num_ready_receipts = n;
            Ok(())
        },
        FunderReportMutation::AddFriend(add) => {
            if find_friend(&funder_report.friends, &add.friend_public_key).is_some() {
                return Err(ReportMutateError::FriendAlreadyExists);
            }
            let public_key = add.friend_public_key;
            let report = FriendReport {
                address: add.address,
                name: add.name,
                opt_last_incoming_move_token: add.opt_last_incoming_move_token,
                liveness: FriendLivenessReport::Offline,
                channel_status: add.channel_status,
                wanted_remote_max_debt: 0,
                wanted_local_requests_status: RequestsStatusReport::Closed,
                num_pending_requests: 0,
                num_pending_responses: 0,
                status: FriendStatusReport::Disabled,
                num_pending_user_requests: 0,
            };
            proof {
                assert forall|j: int| 0 <= j < funder_report.friends@.len() implies
                    funder_report.friends@[j].public_key@ != public_key@ by {
                    if funder_report.friends@[j].public_key@ == public_key@ {
                        assert(has_friend(funder_report.friends@, public_key@));
                    }
                }
            }
            funder_report.friends.push(FriendReportEntry { public_key, report });
            Ok(())
        },
        FunderReportMutation::RemoveFriend(k) => {
            match find_friend(&funder_report.friends, &k) {
                Some(i) => {
                    let ghost before = funder_report.friends@;
                    funder_report.friends.remove(i);
                    assert(forall|j: int|
                        0 <= j < funder_report.friends@.len() ==> funder_report.friends@[j]
                            == before[if j < i { j } else { j + 1 }]);
                    Ok(())
                },
                None => Err(ReportMutateError::FriendDoesNotExist),
            }
        },
        FunderReportMutation::FriendReportMutation((k, m)) => {
            match find_friend(&funder_report.friends, &k) {
                Some(i) => {
                    let ghost before = funder_report.friends@;
                    let mut entry = funder_report.friends.remove(i);
                    friend_report_mutate(&mut entry.report, m);
                    funder_report.friends.insert(i, entry);
                    assert(funder_report.friends@ =~= before.update(
                        i as int,
                        FriendReportEntry {
                            public_key: before[i as int].public_key,
                            report: friend_mutated(before[i as int].report, m),
                        },
                    ));
                    Ok(())
                },
                None => Err(ReportMutateError::FriendDoesNotExist),
            }
        },
    }
}

/// A change of a friend's liveness.
#[derive(Debug, Clone, Copy)]
pub enum LivenessMutation {
    SetOnline(PublicKey),
    SetOffline(PublicKey),
}

/// A change of the node's ephemeral state.
#[derive(Debug, Clone, Copy)]
pub enum EphemeralMutation {
    /// A change of the freeze guard, which no report shows.
    FreezeGuardMutation,
    LivenessMutation(LivenessMutation),
}

/// The report changes of an ephemeral change: a friend going online or
/// offline becomes that friend's liveness; the freeze guard reports nothing.
pub fn ephemeral_mutation_to_report_mutations<A>(ephemeral_mutation: &EphemeralMutation) -> (r: Vec<
    FunderReportMutation<A>,
>)
    ensures
        match *ephemeral_mutation {
            EphemeralMutation::FreezeGuardMutation => r@.len() == 0,
            EphemeralMutation::LivenessMutation(LivenessMutation::SetOnline(k)) => r@ == seq![
                FunderReportMutation::<A>::FriendReportMutation(
                    (k, FriendReportMutation::SetLiveness(FriendLivenessReport::Online)),
                ),
            ],
            EphemeralMutation::LivenessMutation(LivenessMutation::SetOffline(k)) => r@ == seq![
                FunderReportMutation::<A>::FriendReportMutation(
                    (k, FriendReportMutation::SetLiveness(FriendLivenessReport::Offline)),
                ),
            ],
        },
{
    let mut r: Vec<FunderReportMutation<A>> = Vec::new();
    match ephemeral_mutation {
        EphemeralMutation::FreezeGuardMutation => {},
        EphemeralMutation::LivenessMutation(LivenessMutation::SetOnline(k)) => {
            r.push(
                FunderReportMutation::FriendReportMutation(
                    (*k, FriendReportMutation::SetLiveness(FriendLivenessReport::Online)),
                ),
            );
        },
        EphemeralMutation::LivenessMutation(LivenessMutation::SetOffline(k)) => {
            r.push(
                FunderReportMutation::FriendReportMutation(
                    (*k, FriendReportMutation::SetLiveness(FriendLivenessReport::Offline)),
                ),
            );
        },
    }
    r
}

/// The reported figures of one ledger.
pub open spec fn mc_balance_report(m: crate::mutual_credit::McView) -> McBalanceReport {
    McBalanceReport {
        currency: m.currency,
        balance: m.balance.balance,
        remote_max_debt: m.balance.remote_max_debt,
        local_max_debt: m.balance.local_max_debt,
        local_pending_debt: m.balance.local_pending_debt,
        remote_pending_debt: m.balance.remote_pending_debt,
        num_local_pending_requests: m.local.len() as u64,
        num_remote_pending_requests: m.remote.len() as u64,
    }
}

/// `rep` reports the terms `t`.
pub open spec fn reports_terms(rep: ResetTermsReport, t: crate::reset::ResetTerms) -> bool {
    &&& rep.reset_token == t.reset_token
    &&& rep.move_token_counter == t.move_token_counter
    &&& rep.balances@ == t.balances@
}

/// `r` reports the status of the channel `tc`.
pub open spec fn reports_status(r: ChannelStatusReport, tc: TokenChannel) -> bool {
    let balances = credit_views(tc.mutual_credits@).map_values(
        |m: crate::mutual_credit::McView| mc_balance_report(m),
    );
    match (tc.status, r) {
        (TcStatus::ConsistentIn(_), ChannelStatusReport::Consistent(t)) => t.direction
            == DirectionReport::Incoming && t.balances@ == balances,
        (TcStatus::ConsistentOut(_, _), ChannelStatusReport::Consistent(t)) => t.direction
            == DirectionReport::Outgoing && t.balances@ == balances,
        (TcStatus::Inconsistent(lt, ort), ChannelStatusReport::Inconsistent(ir)) => {
            &&& reports_terms(ir.local_reset_terms, lt)
            &&& match (ort, ir.opt_remote_reset_terms) {
                (None, None) => true,
                (Some(a), Some(b)) => reports_terms(b, a),
                _ => false,
            }
        },
        _ => false,
    }
}

/// The last move received on the channel, if the status keeps one.
pub open spec fn last_incoming(tc: TokenChannel) -> Option<MoveTokenHashed> {
    match tc.status {
        TcStatus::ConsistentIn(h) => Some(h),
        TcStatus::ConsistentOut(_, opt) => opt,
        TcStatus::Inconsistent(_, _) => None,
    }
}

fn terms_report(t: &crate::reset::ResetTerms) -> (r: ResetTermsReport)
    ensures
        reports_terms(r, *t),
{
    let mut balances: Vec<(Currency, ResetBalance)> = Vec::new();
    let mut i: usize = 0;
    while i < t.balances.len()
        invariant
            0 <= i <= t.balances@.len(),
            balances@ == t.balances@.subrange(0, i as int),
        decreases t.balances@.len() - i,
    {
        balances.push(t.balances[i]);
        assert(balances@ =~= t.balances@.subrange(0, i + 1));
        i = i + 1;
    }
    assert(balances@ =~= t.balances@);
    ResetTermsReport { reset_token: t.reset_token, move_token_counter: t.move_token_counter, balances }
}

/// The reported status of a token channel.
pub fn channel_status_report(tc: &TokenChannel) -> (r: ChannelStatusReport)
    ensures
        reports_status(r, *tc),
{
    match &tc.status {
        TcStatus::Inconsistent(lt, ort) => {
            let local_reset_terms = terms_report(lt);
            let opt_remote_reset_terms = match ort {
                Some(t) => Some(terms_report(t)),
                None => None,
            };
            ChannelStatusReport::Inconsistent(
                ChannelInconsistentReport { local_reset_terms, opt_remote_reset_terms },
            )
        },
        _ => {
            let direction = match &tc.status {
                TcStatus::ConsistentIn(_) => DirectionReport::Incoming,
                _ => DirectionReport::Outgoing,
            };
            let ghost views = credit_views(tc.mutual_credits@);
            let mut balances: Vec<McBalanceReport> = Vec::new();
            let mut i: usize = 0;
            while i < tc.mutual_credits.len()
                invariant
                    0 <= i <= tc.mutual_credits@.len(),
                    views == credit_views(tc.mutual_credits@),
                    balances@.len() == i,
                    forall|j: int| 0 <= j < i ==> balances@[j] == mc_balance_report(views[j]),
                decreases tc.mutual_credits@.len() - i,
            {
                let m = &tc.mutual_credits[i];
                assert(views[i as int] == m@);
                balances.push(
                    McBalanceReport {
                        currency: m.currency,
                        balance: m.balance.balance,
                        remote_max_debt: m.balance.remote_max_debt,
                        local_max_debt: m.balance.local_max_debt,
                        local_pending_debt: m.balance.local_pending_debt,
                        remote_pending_debt: m.balance.remote_pending_debt,
                        num_local_pending_requests: m.local_pending.len() as u64,
                        num_remote_pending_requests: m.remote_pending.len() as u64,
                    },
                );
                i = i + 1;
            }
            assert(balances@ =~= views.map_values(
                |m: crate::mutual_credit::McView| mc_balance_report(m),
            ));
            ChannelStatusReport::Consistent(TcReport { direction, balances })
        },
    }
}

/// The last move received on the channel, if the status keeps one.
pub fn last_incoming_move_token(tc: &TokenChannel) -> (r: Option<MoveTokenHashed>)
    ensures
        r == last_incoming(*tc),
{
    match &tc.status {
        TcStatus::ConsistentIn(h) => Some(*h),
        TcStatus::ConsistentOut(_, opt) => *opt,
        TcStatus::Inconsistent(_, _) => None,
    }
}

/// The report changes of a change to a friend's ledger: the channel's new
/// status, and its last incoming move.
pub fn ledger_mutation_to_report_mutations<A>(tc_after: &TokenChannel) -> (r: Vec<
    FriendReportMutation<A>,
>)
    ensures
        r@.len() == 2,
        r@[0] matches FriendReportMutation::SetChannelStatus(s) && reports_status(s, *tc_after),
        r@[1] == FriendReportMutation::<A>::SetOptLastIncomingMoveToken(last_incoming(*tc_after)),
{
    let mut r: Vec<FriendReportMutation<A>> = Vec::new();
    r.push(FriendReportMutation::SetChannelStatus(channel_status_report(tc_after)));
    r.push(FriendReportMutation::SetOptLastIncomingMoveToken(last_incoming_move_token(tc_after)));
    r
}

} // verus!
