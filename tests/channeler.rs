use credit_node::channeler::{
    Channeler, ChannelerAction, ChannelerError, ChannelerEvent, ChannelerToFunder,
    ChannelerUpdateFriend, FriendEvent, FunderToChanneler, LpConfig,
};
use credit_node::overwrite::OverwriteChannel;
use credit_node::PublicKey;

fn pk(b: u8) -> PublicKey {
    PublicKey::new([b; 32])
}

fn update<B>(k: PublicKey, friend_address: Vec<B>, local_addresses: Vec<Vec<B>>) -> FunderToChanneler<B> {
    FunderToChanneler::UpdateFriend(ChannelerUpdateFriend {
        friend_public_key: k,
        friend_address,
        local_addresses,
    })
}

#[test]
fn tie_break_listener() {
    let mut ch = Channeler::new(pk(0x01));
    let remote = pk(0x02);
    let actions = ch.handle_from_funder(update(remote, vec![7u32], vec![vec![1u32, 2], vec![3]]));
    assert_eq!(actions.len(), 1);
    match &actions[0] {
        ChannelerAction::ListenConfig(LpConfig::UpdateFriend((k, addrs))) => {
            assert_eq!(k.bytes, remote.bytes);
            assert_eq!(addrs, &vec![1u32, 2, 3]);
        }
        other => panic!("unexpected {:?}", other),
    }
    assert!(!actions.iter().any(|a| matches!(a, ChannelerAction::Connect(_))));
    assert_eq!(ch.friends.in_friends.len(), 1);
    assert_eq!(ch.friends.out_friends.len(), 0);
}

#[test]
fn tie_break_initiator_with_reconnect() {
    let mut ch = Channeler::new(pk(0x02));
    let remote = pk(0x01);
    let actions = ch.handle_from_funder(update(remote, vec![0x00u32], vec![]));
    assert_eq!(actions.len(), 3);
    assert!(matches!(&actions[0], ChannelerAction::CreateConnectPool(k) if k.bytes == remote.bytes));
    assert!(matches!(&actions[1], ChannelerAction::Connect(k) if k.bytes == remote.bytes));
    match &actions[2] {
        ChannelerAction::ConnectorConfig((k, addrs)) => {
            assert_eq!(k.bytes, remote.bytes);
            assert_eq!(addrs, &vec![0x00u32]);
        }
        other => panic!("unexpected {:?}", other),
    }

    // The connection comes up:
    let actions: Vec<ChannelerAction<u32>> = ch.handle_connection(remote);
    assert_eq!(actions.len(), 2);
    assert!(matches!(&actions[0], ChannelerAction::AcceptConnection(k) if k.bytes == remote.bytes));
    assert!(matches!(&actions[1],
        ChannelerAction::ToFunder(ChannelerToFunder::Online(k)) if k.bytes == remote.bytes));

    // The stream drops: offline, and a new attempt to the same friend.
    let actions: Vec<ChannelerAction<u32>> =
        ch.handle_friend_event(FriendEvent::ReceiverClosed(remote));
    assert_eq!(actions.len(), 2);
    assert!(matches!(&actions[0],
        ChannelerAction::ToFunder(ChannelerToFunder::Offline(k)) if k.bytes == remote.bytes));
    assert!(matches!(&actions[1], ChannelerAction::Connect(k) if k.bytes == remote.bytes));

    // Its address is unchanged, so the connect pool keeps it:
    let again = ch.handle_from_funder(update(remote, vec![0x00u32], vec![]));
    assert_eq!(again.len(), 1);
    assert!(matches!(&again[0], ChannelerAction::ConnectorConfig((_, a)) if a == &vec![0x00u32]));
}

#[test]
fn listen_friend_reconnects_many_times() {
    let mut ch = Channeler::new(pk(0x01));
    let remote = pk(0x03);
    ch.handle_from_funder(update(remote, vec![2u32], vec![vec![1u32]]));
    for _ in 0..3 {
        let a: Vec<ChannelerAction<u32>> = ch.handle_connection(remote);
        assert!(matches!(&a[1], ChannelerAction::ToFunder(ChannelerToFunder::Online(_))));
        let a = ch.handle_from_funder(FunderToChanneler::<u32>::Message((remote, vec![1, 2, 3])));
        assert!(matches!(&a[0], ChannelerAction::SendToFriend((_, m)) if m == &vec![1u8, 2, 3]));
        let a: Vec<ChannelerAction<u32>> =
            ch.handle_friend_event(FriendEvent::IncomingMessage((remote, vec![3, 2, 1])));
        assert!(matches!(&a[0],
            ChannelerAction::ToFunder(ChannelerToFunder::Message((_, m))) if m == &vec![3u8, 2, 1]));
        let a: Vec<ChannelerAction<u32>> = ch.handle_friend_event(FriendEvent::ReceiverClosed(remote));
        assert_eq!(a.len(), 1);
        assert!(matches!(&a[0], ChannelerAction::ToFunder(ChannelerToFunder::Offline(_))));
    }
    let a = ch.handle_from_funder(FunderToChanneler::<u32>::RemoveFriend(remote));
    assert_eq!(a.len(), 2);
    assert!(matches!(&a[0], ChannelerAction::ListenConfig(LpConfig::RemoveFriend(_))));
    assert!(matches!(&a[1], ChannelerAction::ForgetFriend(_)));
    assert_eq!(ch.friends.in_friends.len(), 0);
}

#[test]
fn second_connection_is_dropped() {
    let mut ch = Channeler::new(pk(0x05));
    let remote = pk(0x01);
    ch.handle_from_funder(update(remote, vec![1u32], vec![]));
    let a: Vec<ChannelerAction<u32>> = ch.handle_connection(remote);
    assert!(matches!(&a[0], ChannelerAction::AcceptConnection(_)));
    let a: Vec<ChannelerAction<u32>> = ch.handle_connection(remote);
    assert_eq!(a.len(), 1);
    assert!(matches!(&a[0], ChannelerAction::DropConnection(_)));
    // a key that is not a friend
    let a: Vec<ChannelerAction<u32>> = ch.handle_connection(pk(0x09));
    assert!(matches!(&a[0], ChannelerAction::DropConnection(_)));
}

#[test]
fn overwrite_under_backpressure() {
    // The peer's receiver is stalled: nothing is taken from its channel.
    let mut chan: OverwriteChannel<Vec<u8>> = OverwriteChannel::new();
    assert!(chan.send(b"A".to_vec()).is_none());
    let dropped = chan.send(b"B".to_vec());
    assert_eq!(dropped, Some(b"A".to_vec()));
    assert_eq!(chan.take(), Some(b"B".to_vec()));
    assert_eq!(chan.take(), None);

    // Meanwhile the channeler goes on serving another friend.
    let mut ch = Channeler::new(pk(0x05));
    let stalled = pk(0x01);
    let other = pk(0x02);
    for k in [stalled, other] {
        ch.handle_from_funder(update(k, vec![1u32], vec![]));
        let _: Vec<ChannelerAction<u32>> = ch.handle_connection(k);
    }
    let a = ch.handle_from_funder(FunderToChanneler::<u32>::Message((stalled, b"A".to_vec())));
    assert_eq!(a.len(), 1);
    let a = ch.handle_from_funder(FunderToChanneler::<u32>::Message((other, b"C".to_vec())));
    assert!(matches!(&a[0], ChannelerAction::SendToFriend((k, _)) if k.bytes == other.bytes));
}

#[test]
fn failed_send_disables_only_that_friend() {
    let mut ch = Channeler::new(pk(0x05));
    let a_key = pk(0x01);
    let b_key = pk(0x02);
    for k in [a_key, b_key] {
        ch.handle_from_funder(update(k, vec![1u32], vec![]));
        let _: Vec<ChannelerAction<u32>> = ch.handle_connection(k);
    }
    assert!(!ch.record_send(&a_key, false));
    // later sends to that friend are dropped without error
    let a = ch.handle_from_funder(FunderToChanneler::<u32>::Message((a_key, vec![1])));
    assert!(a.is_empty());
    assert!(!ch.record_send(&a_key, true));
    // the other friend is unaffected
    assert!(ch.record_send(&b_key, true));
    let a = ch.handle_from_funder(FunderToChanneler::<u32>::Message((b_key, vec![1])));
    assert_eq!(a.len(), 1);
}

#[test]
fn message_to_unavailable_friend_is_dropped() {
    let mut ch = Channeler::new(pk(0x05));
    let a = ch.handle_from_funder(FunderToChanneler::<u32>::Message((pk(0x01), vec![1])));
    assert!(a.is_empty());
    ch.handle_from_funder(update(pk(0x01), vec![1u32], vec![]));
    let a = ch.handle_from_funder(FunderToChanneler::<u32>::Message((pk(0x01), vec![1])));
    assert!(a.is_empty());
}

#[test]
fn set_address_configures_listener() {
    let mut ch = Channeler::new(pk(0x05));
    let a = ch.handle_from_funder(FunderToChanneler::SetAddress(Some(vec![0x1337u32])));
    assert!(matches!(&a[0], ChannelerAction::ListenConfig(LpConfig::SetLocalAddresses(v)) if v == &vec![0x1337u32]));
    let a = ch.handle_from_funder(FunderToChanneler::<u32>::SetAddress(None));
    assert!(matches!(&a[0], ChannelerAction::ListenConfig(LpConfig::SetLocalAddresses(v)) if v.is_empty()));
}

#[test]
fn unknown_receiver_close_is_a_no_op() {
    let mut ch = Channeler::new(pk(0x05));
    let a: Vec<ChannelerAction<u32>> = ch.handle_friend_event(FriendEvent::ReceiverClosed(pk(0x01)));
    assert!(a.is_empty());
    ch.handle_from_funder(update(pk(0x01), vec![1u32], vec![]));
    let a: Vec<ChannelerAction<u32>> = ch.handle_friend_event(FriendEvent::ReceiverClosed(pk(0x01)));
    assert!(a.is_empty());
}

#[test]
fn remove_out_friend_and_unknown() {
    let mut ch = Channeler::new(pk(0x05));
    ch.handle_from_funder(update(pk(0x01), vec![1u32], vec![]));
    let a = ch.handle_from_funder(FunderToChanneler::<u32>::RemoveFriend(pk(0x01)));
    assert_eq!(a.len(), 1);
    assert!(matches!(&a[0], ChannelerAction::ForgetFriend(_)));
    assert!(ch.friends.out_friends.is_empty());
    let a = ch.handle_from_funder(FunderToChanneler::<u32>::RemoveFriend(pk(0x01)));
    assert!(a.is_empty());
}

#[test]
fn fatal_events_end_the_loop() {
    let mut ch = Channeler::new(pk(0x05));
    assert_eq!(
        ch.handle_event(ChannelerEvent::<u32>::ListenerClosed).unwrap_err(),
        ChannelerError::ListenerClosed
    );
    assert_eq!(
        ch.handle_event(ChannelerEvent::<u32>::ConnectorClosed).unwrap_err(),
        ChannelerError::ConnectorClosed
    );
    assert_eq!(
        ch.handle_event(ChannelerEvent::<u32>::FunderClosed).unwrap_err(),
        ChannelerError::FunderClosed
    );
    assert!(ch.handle_event(ChannelerEvent::<u32>::Connection(pk(0x01))).is_ok());
}

#[test]
fn equal_key_is_connected_to() {
    let ch = Channeler::new(pk(0x05));
    assert!(!ch.is_listen_friend(&pk(0x05)));
    assert!(ch.is_listen_friend(&PublicKey::new({
        let mut b = [0x05u8; 32];
        b[31] = 0x06;
        b
    })));
    assert!(!ch.is_listen_friend(&PublicKey::new({
        let mut b = [0x05u8; 32];
        b[0] = 0x04;
        b[1] = 0xff;
        b
    })));
}
