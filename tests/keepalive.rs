use credit_node::channeler::{
    Channeler, ChannelerAction, ChannelerToFunder, ChannelerUpdateFriend, FriendEvent,
    FunderToChanneler,
};
use credit_node::keepalive::{
    deserialize_ka_message, serialize_ka_message, KaMessage, KeepAlive, KeepAliveAction,
    KeepAliveError, KeepAliveEvent,
};
use credit_node::PublicKey;

fn tick(ka: &mut KeepAlive) -> Result<KeepAliveAction, KeepAliveError> {
    ka.handle_event(KeepAliveEvent::TimerTick)
}

#[test]
fn test_keepalive_loop_basic() {
    let keepalive_ticks = 16;
    let mut ka = KeepAlive::new(keepalive_ticks);

    // Send from user to remote:
    match ka.handle_event(KeepAliveEvent::MessageFromUser(vec![1, 2, 3])) {
        Ok(KeepAliveAction::SendToRemote(frame)) => {
            assert_eq!(frame, serialize_ka_message(&KaMessage::Message(vec![1, 2, 3])))
        }
        other => panic!("unexpected {:?}", other),
    }

    // User can not see keepalive messages sent from remote:
    let frame = serialize_ka_message(&KaMessage::KeepAlive);
    assert!(matches!(
        ka.handle_event(KeepAliveEvent::MessageFromRemote(frame)),
        Ok(KeepAliveAction::Idle)
    ));

    // Send from remote to user:
    let frame = serialize_ka_message(&KaMessage::Message(vec![3, 2, 1]));
    match ka.handle_event(KeepAliveEvent::MessageFromRemote(frame)) {
        Ok(KeepAliveAction::SendToUser(v)) => assert_eq!(v, vec![3, 2, 1]),
        other => panic!("unexpected {:?}", other),
    }

    // Move time forward: the eighth tick sends a keepalive.
    for _ in 0..7usize {
        assert!(matches!(tick(&mut ka), Ok(KeepAliveAction::Idle)));
    }
    match tick(&mut ka) {
        Ok(KeepAliveAction::SendToRemote(frame)) => {
            assert_eq!(frame, serialize_ka_message(&KaMessage::KeepAlive))
        }
        other => panic!("unexpected {:?}", other),
    }

    // Remote sends a keepalive:
    let frame = serialize_ka_message(&KaMessage::KeepAlive);
    assert!(matches!(
        ka.handle_event(KeepAliveEvent::MessageFromRemote(frame)),
        Ok(KeepAliveAction::Idle)
    ));

    // Move time forward: the remote has been silent for too long.
    let mut closed = false;
    for _ in 0..16usize {
        if let Err(e) = tick(&mut ka) {
            assert_eq!(e, KeepAliveError::RemoteTimeout);
            closed = true;
        }
    }
    assert!(closed);
}

#[test]
fn keepalive_times_out_after_n_silent_ticks() {
    let mut ka = KeepAlive::new(16);
    for i in 0..15usize {
        let r = tick(&mut ka);
        assert!(r.is_ok(), "closed early at tick {}", i + 1);
    }
    assert_eq!(tick(&mut ka).unwrap_err(), KeepAliveError::RemoteTimeout);
    assert_eq!(ka.ticks_to_close, 0);
}

#[test]
fn keepalive_counters_start_at_n_and_half_n() {
    let ka = KeepAlive::new(16);
    assert_eq!(ka.ticks_to_close, 16);
    assert_eq!(ka.ticks_to_send, 8);
    let ka = KeepAlive::new(7);
    assert_eq!(ka.ticks_to_send, 3);
}

#[test]
fn keepalive_heartbeat_every_half_n_ticks() {
    let mut ka = KeepAlive::new(16);
    let mut sent_at = Vec::new();
    for t in 1..=16usize {
        if let Ok(KeepAliveAction::SendToRemote(_)) = tick(&mut ka) {
            sent_at.push(t);
        }
        // keep the remote alive
        ka.handle_event(KeepAliveEvent::MessageFromRemote(vec![0])).unwrap();
    }
    assert_eq!(sent_at, vec![8, 16]);
}

#[test]
fn keepalive_user_message_postpones_heartbeat() {
    let mut ka = KeepAlive::new(4);
    assert!(matches!(tick(&mut ka), Ok(KeepAliveAction::Idle)));
    ka.handle_event(KeepAliveEvent::MessageFromUser(vec![9])).unwrap();
    assert_eq!(ka.ticks_to_send, 2);
    assert!(matches!(tick(&mut ka), Ok(KeepAliveAction::Idle)));
    assert!(matches!(tick(&mut ka), Ok(KeepAliveAction::SendToRemote(_))));
}

#[test]
fn keepalive_closing_events() {
    let mut ka = KeepAlive::new(4);
    assert_eq!(
        ka.handle_event(KeepAliveEvent::TimerClosed).unwrap_err(),
        KeepAliveError::TimerClosed
    );
    assert!(matches!(
        ka.handle_event(KeepAliveEvent::TunnelChannelClosed),
        Ok(KeepAliveAction::Shutdown)
    ));
    assert!(matches!(
        ka.handle_event(KeepAliveEvent::UserChannelClosed),
        Ok(KeepAliveAction::Shutdown)
    ));
}

#[test]
fn keepalive_rejects_bad_frames() {
    let mut ka = KeepAlive::new(4);
    ka.handle_event(KeepAliveEvent::TimerTick).unwrap();
    assert_eq!(
        ka.handle_event(KeepAliveEvent::MessageFromRemote(vec![])).unwrap_err(),
        KeepAliveError::DeserializeError
    );
    assert_eq!(
        ka.handle_event(KeepAliveEvent::MessageFromRemote(vec![7, 1])).unwrap_err(),
        KeepAliveError::DeserializeError
    );
    assert_eq!(
        ka.handle_event(KeepAliveEvent::MessageFromRemote(vec![0, 1])).unwrap_err(),
        KeepAliveError::DeserializeError
    );
    // a refused frame does not count as a sign of life
    assert_eq!(ka.ticks_to_close, 3);
}

#[test]
fn ka_message_encoding() {
    assert_eq!(serialize_ka_message(&KaMessage::KeepAlive), vec![0]);
    assert_eq!(serialize_ka_message(&KaMessage::Message(vec![5, 6])), vec![1, 5, 6]);
    match deserialize_ka_message(&[1, 5, 6]).unwrap() {
        KaMessage::Message(b) => assert_eq!(b, vec![5, 6]),
        KaMessage::KeepAlive => panic!("wrong message"),
    }
    assert!(matches!(deserialize_ka_message(&[0]).unwrap(), KaMessage::KeepAlive));
    match deserialize_ka_message(&serialize_ka_message(&KaMessage::Message(vec![]))).unwrap() {
        KaMessage::Message(b) => assert!(b.is_empty()),
        KaMessage::KeepAlive => panic!("wrong message"),
    }
}

#[test]
fn keepalive_timeout_takes_friend_offline() {
    let remote = PublicKey::new([0x01; 32]);
    let mut ch = Channeler::new(PublicKey::new([0x02; 32]));
    ch.handle_from_funder(FunderToChanneler::UpdateFriend(ChannelerUpdateFriend {
        friend_public_key: remote,
        friend_address: vec![0u32],
        local_addresses: vec![],
    }));
    let _: Vec<ChannelerAction<u32>> = ch.handle_connection(remote);

    let mut ka = KeepAlive::new(16);
    let mut result = Ok(KeepAliveAction::Idle);
    for _ in 0..16usize {
        result = tick(&mut ka);
    }
    assert_eq!(result.unwrap_err(), KeepAliveError::RemoteTimeout);

    // The stream is gone: its receiving side closes.
    let actions: Vec<ChannelerAction<u32>> = ch.handle_friend_event(FriendEvent::ReceiverClosed(remote));
    assert!(matches!(&actions[0], ChannelerAction::ToFunder(ChannelerToFunder::Offline(k)) if k.bytes == remote.bytes));
    assert!(matches!(&actions[1], ChannelerAction::Connect(k) if k.bytes == remote.bytes));
}
