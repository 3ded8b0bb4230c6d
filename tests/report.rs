use credit_node::report::{
    channel_status_report, ephemeral_mutation_to_report_mutations, funder_report_mutate,
    ledger_mutation_to_report_mutations, AddFriendReport, ChannelStatusReport, DirectionReport,
    EphemeralMutation, FriendLivenessReport, FriendReportMutation, FriendStatusReport,
    FunderReport, FunderReportMutation, LivenessMutation, ReportMutateError, RequestsStatusReport,
    TcReport,
};
use credit_node::token_channel::TokenChannel;
use credit_node::PublicKey;

fn pk(b: u8) -> PublicKey {
    PublicKey::new([b; 32])
}

fn empty_report() -> FunderReport<u32> {
    FunderReport { local_public_key: pk(0), opt_address: None, friends: Vec::new(), num_ready_receipts: 0 }
}

fn add(k: PublicKey) -> FunderReportMutation<u32> {
    FunderReportMutation::AddFriend(AddFriendReport {
        friend_public_key: k,
        address: 5,
        name: "friend".to_string(),
        opt_last_incoming_move_token: None,
        channel_status: ChannelStatusReport::Consistent(TcReport {
            direction: DirectionReport::Incoming,
            balances: Vec::new(),
        }),
    })
}

#[test]
fn add_and_remove_friend_reports() {
    let mut r = empty_report();
    funder_report_mutate(&mut r, add(pk(1))).unwrap();
    assert_eq!(r.friends.len(), 1);
    let f = &r.friends[0].report;
    assert_eq!(f.liveness, FriendLivenessReport::Offline);
    assert_eq!(f.status, FriendStatusReport::Disabled);
    assert_eq!(f.wanted_local_requests_status, RequestsStatusReport::Closed);
    assert_eq!(f.wanted_remote_max_debt, 0);
    assert_eq!(f.name, "friend");
    assert_eq!(
        funder_report_mutate(&mut r, add(pk(1))).unwrap_err(),
        ReportMutateError::FriendAlreadyExists
    );
    assert_eq!(r.friends.len(), 1);
    assert_eq!(
        funder_report_mutate(&mut r, FunderReportMutation::RemoveFriend(pk(2))).unwrap_err(),
        ReportMutateError::FriendDoesNotExist
    );
    funder_report_mutate(&mut r, FunderReportMutation::RemoveFriend(pk(1))).unwrap();
    assert!(r.friends.is_empty());
}

#[test]
fn friend_mutations_apply_to_existing_friends_only() {
    let mut r = empty_report();
    let m = FunderReportMutation::FriendReportMutation((pk(1), FriendReportMutation::SetNumPendingRequests(3)));
    assert_eq!(funder_report_mutate(&mut r, m).unwrap_err(), ReportMutateError::FriendDoesNotExist);
    funder_report_mutate(&mut r, add(pk(1))).unwrap();
    let m = FunderReportMutation::FriendReportMutation((pk(1), FriendReportMutation::SetNumPendingRequests(3)));
    funder_report_mutate(&mut r, m).unwrap();
    assert_eq!(r.friends[0].report.num_pending_requests, 3);
    let m = FunderReportMutation::FriendReportMutation((
        pk(1),
        FriendReportMutation::SetFriendInfo((9, "renamed".to_string())),
    ));
    funder_report_mutate(&mut r, m).unwrap();
    assert_eq!(r.friends[0].report.address, 9);
    assert_eq!(r.friends[0].report.name, "renamed");
    funder_report_mutate(&mut r, FunderReportMutation::SetAddress(Some(44))).unwrap();
    assert_eq!(r.opt_address, Some(44));
    funder_report_mutate(&mut r, FunderReportMutation::SetNumReadyReceipts(2)).unwrap();
    assert_eq!(r.num_ready_receipts, 2);
}

#[test]
fn liveness_maps_to_friend_liveness() {
    let m: Vec<FunderReportMutation<u32>> = ephemeral_mutation_to_report_mutations(
        &EphemeralMutation::LivenessMutation(LivenessMutation::SetOnline(pk(1))),
    );
    assert_eq!(m.len(), 1);
    assert!(matches!(&m[0], FunderReportMutation::FriendReportMutation((k,
        FriendReportMutation::SetLiveness(FriendLivenessReport::Online))) if k.bytes == [1; 32]));
    let m: Vec<FunderReportMutation<u32>> = ephemeral_mutation_to_report_mutations(
        &EphemeralMutation::LivenessMutation(LivenessMutation::SetOffline(pk(1))),
    );
    assert!(matches!(&m[0], FunderReportMutation::FriendReportMutation((_,
        FriendReportMutation::SetLiveness(FriendLivenessReport::Offline)))));
    let m: Vec<FunderReportMutation<u32>> =
        ephemeral_mutation_to_report_mutations(&EphemeralMutation::FreezeGuardMutation);
    assert!(m.is_empty());
}

#[test]
fn ledger_mutation_reports_status_and_last_move() {
    let tc = TokenChannel::new(pk(2), pk(1));
    let m: Vec<FriendReportMutation<u32>> = ledger_mutation_to_report_mutations(&tc);
    assert_eq!(m.len(), 2);
    assert!(matches!(&m[0], FriendReportMutation::SetChannelStatus(ChannelStatusReport::Consistent(t))
        if t.direction == DirectionReport::Incoming));
    assert!(matches!(&m[1], FriendReportMutation::SetOptLastIncomingMoveToken(Some(h)) if h.move_token_counter == 0));
    let tc = TokenChannel::new(pk(1), pk(2));
    match channel_status_report(&tc) {
        ChannelStatusReport::Consistent(t) => assert_eq!(t.direction, DirectionReport::Outgoing),
        _ => panic!("inconsistent"),
    }
    let m: Vec<FriendReportMutation<u32>> = ledger_mutation_to_report_mutations(&tc);
    assert!(matches!(&m[1], FriendReportMutation::SetOptLastIncomingMoveToken(None)));
}
