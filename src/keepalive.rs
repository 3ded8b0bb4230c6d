use vstd::prelude::*;

verus! {

/// Why a keepalive-wrapped stream stopped.
#[derive(Debug, Clone, Copy, PartialEq, Eq, Structural)]
pub enum KeepAliveError {
    TimerClosed,
    RemoteTimeout,
    SendToUserError,
    SendToRemoteError,
    DeserializeError,
}

/// A frame on the wire below the keepalive shim.
#[derive(Debug)]
pub enum KaMessage {
    KeepAlive,
    Message(Vec<u8>),
}

/// Frame tag of a heartbeat.
pub const KA_TAG_KEEPALIVE: u8 = 0;
/// Frame tag of a user message.
pub const KA_TAG_MESSAGE: u8 = 1;

/// Bytes of a keepalive frame: a tag byte, then the user bytes if any.
pub open spec fn ka_encoding(m: KaMessage) -> Seq<u8> {
    match m {
        KaMessage::KeepAlive => seq![KA_TAG_KEEPALIVE],
        KaMessage::Message(b) => seq![KA_TAG_MESSAGE] + b@,
    }
}

/// Whether `m` is the message that the frame `bytes` decodes to.
pub open spec fn ka_decodes_to(bytes: Seq<u8>, m: KaMessage) -> bool {
    ka_encoding(m) == bytes
}

/// Whether some message encodes to `bytes`.
pub open spec fn ka_well_formed(bytes: Seq<u8>) -> bool {
    bytes.len() >= 1 && (bytes[0] == KA_TAG_MESSAGE || (bytes[0] == KA_TAG_KEEPALIVE
        && bytes.len() == 1))
}

/// Encodes a keepalive frame.
pub fn serialize_ka_message(m: &KaMessage) -> (r: Vec<u8>)
    ensures
        r@ == ka_encoding(*m),
{
    match m {
        KaMessage::KeepAlive => vec![KA_TAG_KEEPALIVE],
        KaMessage::Message(b) => {
            let mut r: Vec<u8> = vec![KA_TAG_MESSAGE];
            let mut i: usize = 0;
            while i < b.len()
                invariant
                    0 <= i <= b@.len(),
                    r@ == seq![KA_TAG_MESSAGE] + b@.subrange(0, i as int),
                decreases b@.len() - i,
            {
                r.push(b[i]);
                assert(b@.subrange(0, i + 1) =~= b@.subrange(0, i as int).push(b@[i as int]));
                assert(r@ =~= seq![KA_TAG_MESSAGE] + b@.subrange(0, i + 1));
                i = i + 1;
            }
            assert(b@.subrange(0, b@.len() as int) =~= b@);
            r
        },
    }
}

/// Decodes a keepalive frame; a frame that no message encodes to is refused.
pub fn deserialize_ka_message(bytes: &[u8]) -> (r: Result<KaMessage, KeepAliveError>)
    ensures
        ka_well_formed(bytes@) <==> r.is_ok(),
        r matches Ok(m) ==> ka_decodes_to(bytes@, m),
        r matches Err(e) ==> e == KeepAliveError::DeserializeError,
{
    if bytes.len() == 0 {
        return Err(KeepAliveError::DeserializeError);
    }
    if bytes[0] == KA_TAG_KEEPALIVE && bytes.len() == 1 {
        assert(bytes@ =~= seq![KA_TAG_KEEPALIVE]);
        return Ok(KaMessage::KeepAlive);
    }
    if bytes[0] != KA_TAG_MESSAGE {
        return Err(KeepAliveError::DeserializeError);
    }
    let mut b: Vec<u8> = Vec::new();
    let mut i: usize = 1;
    while i < bytes.len()
        invariant
            1 <= i <= bytes@.len(),
            b@ == bytes@.subrange(1, i as int),
        decreases bytes@.len() - i,
    {
        b.push(bytes[i]);
        assert(bytes@.subrange(1, i + 1) =~= bytes@.subrange(1, i as int).push(bytes@[i as int]));
        i = i + 1;
    }
    assert(seq![KA_TAG_MESSAGE] + b@ =~= bytes@);
    Ok(KaMessage::Message(b))
}

/// Two keepalive messages carry the same content.
pub open spec fn ka_same(m1: KaMessage, m2: KaMessage) -> bool {
    match (m1, m2) {
        (KaMessage::KeepAlive, KaMessage::KeepAlive) => true,
        (KaMessage::Message(a), KaMessage::Message(b)) => a@ == b@,
        _ => false,
    }
}

/// Every encoded frame is well formed, and the frame determines the message:
/// decoding what was encoded gives the same message back.
pub proof fn lemma_ka_round_trip(m1: KaMessage, m2: KaMessage)
    ensures
        ka_well_formed(ka_encoding(m1)),
        ka_decodes_to(ka_encoding(m1), m2) ==> ka_same(m1, m2),
{
    if ka_decodes_to(ka_encoding(m1), m2) {
        let e = ka_encoding(m1);
        assert(e[0] == ka_encoding(m2)[0]);
        match (m1, m2) {
            (KaMessage::Message(a), KaMessage::Message(b)) => {
                assert(a@ =~= e.subrange(1, e.len() as int));
                assert(b@ =~= e.subrange(1, e.len() as int));
            },
            _ => {},
        }
    }
}

/// What the keepalive loop was woken by.
#[derive(Debug)]
pub enum KeepAliveEvent {
    TimerTick,
    TimerClosed,
    TunnelChannelClosed,
    UserChannelClosed,
    MessageFromRemote(Vec<u8>),
    MessageFromUser(Vec<u8>),
}

/// What the keepalive loop must do next.
#[derive(Debug)]
pub enum KeepAliveAction {
    /// Nothing to send.
    Idle,
    /// Send these frame bytes to the remote side.
    SendToRemote(Vec<u8>),
    /// Deliver these bytes to the user.
    SendToUser(Vec<u8>),
    /// One of the two streams closed: shut down without error.
    Shutdown,
}

/// Liveness counters of one keepalive-wrapped stream.
#[derive(Debug, Clone, Copy)]
pub struct KeepAlive {
    /// `N`: ticks of silence after which the remote side counts as gone.
    pub keepalive_ticks: usize,
    /// Ticks left until the stream is closed for silence.
    pub ticks_to_close: usize,
    /// Ticks left until a heartbeat is due.
    pub ticks_to_send: usize,
}

impl KeepAlive {
    /// Counters of a fresh stream: `N` ticks to close, `N/2` to the first heartbeat.
    pub fn new(keepalive_ticks: usize) -> (r: KeepAlive)
        ensures
            r.keepalive_ticks == keepalive_ticks,
            r.ticks_to_close == keepalive_ticks,
            r.ticks_to_send == keepalive_ticks / 2,
    {
        KeepAlive { keepalive_ticks, ticks_to_close: keepalive_ticks, ticks_to_send: keepalive_ticks / 2 }
    }

    /// One timer tick: both counters go down by one (never below zero); a
    /// close counter at zero fails the stream, a send counter at zero emits a
    /// heartbeat and starts over at `N/2`.
    pub fn on_tick(&mut self) -> (r: Result<bool, KeepAliveError>)
        ensures
            final(self).keepalive_ticks == old(self).keepalive_ticks,
            final(self).ticks_to_close == if old(self).ticks_to_close == 0 {
                0
            } else {
                (old(self).ticks_to_close - 1) as usize
            },
            (final(self).ticks_to_close == 0) <==> r.is_err(),
            r matches Err(e) ==> e == KeepAliveError::RemoteTimeout,
            r.is_ok() ==> {
                let dec = if old(self).ticks_to_send == 0 {
                    0
                } else {
                    old(self).ticks_to_send - 1
                };
                &&& r == Ok::<bool, KeepAliveError>(dec == 0)
                &&& final(self).ticks_to_send == if dec == 0 {
                    old(self).keepalive_ticks / 2
                } else {
                    dec as usize
                }
            },
    {
        self.ticks_to_close = self.ticks_to_close.saturating_sub(1);
        self.ticks_to_send = self.ticks_to_send.saturating_sub(1);
        if self.ticks_to_close == 0 {
            return Err(KeepAliveError::RemoteTimeout);
        }
        if self.ticks_to_send == 0 {
            self.ticks_to_send = self.keepalive_ticks / 2;
            return Ok(true);
        }
        Ok(false)
    }

    /// Any frame from the remote side proves it alive: the close counter
    /// starts over at `N`.
    pub fn on_remote_frame(&mut self)
        ensures
            final(self).keepalive_ticks == old(self).keepalive_ticks,
            final(self).ticks_to_send == old(self).ticks_to_send,
            final(self).ticks_to_close == old(self).keepalive_ticks,
    {
        self.ticks_to_close = self.keepalive_ticks;
    }

    /// A user message went out: the next heartbeat is due in `N/2` ticks.
    pub fn on_user_frame(&mut self)
        ensures
            final(self).keepalive_ticks == old(self).keepalive_ticks,
            final(self).ticks_to_close == old(self).ticks_to_close,
            final(self).ticks_to_send == old(self).keepalive_ticks / 2,
    {
        self.ticks_to_send = self.keepalive_ticks / 2;
    }

    /// Decides what the keepalive loop does on one event.
    pub fn handle_event(&mut self, event: KeepAliveEvent) -> (r: Result<
        KeepAliveAction,
        KeepAliveError,
    >)
        ensures
            final(self).keepalive_ticks == old(self).keepalive_ticks,
            match event {
                KeepAliveEvent::TimerClosed => r == Err::<KeepAliveAction, KeepAliveError>(
                    KeepAliveError::TimerClosed,
                ) && *final(self) == *old(self),
                KeepAliveEvent::TunnelChannelClosed | KeepAliveEvent::UserChannelClosed => (r
                    matches Ok(KeepAliveAction::Shutdown)) && *final(self) == *old(self),
                KeepAliveEvent::MessageFromRemote(frame) => if ka_well_formed(frame@) {
                    &&& final(self).ticks_to_close == old(self).keepalive_ticks
                    &&& final(self).ticks_to_send == old(self).ticks_to_send
                    &&& frame@[0] == KA_TAG_KEEPALIVE ==> (r matches Ok(KeepAliveAction::Idle))
                    &&& frame@[0] == KA_TAG_MESSAGE ==> (r matches Ok(KeepAliveAction::SendToUser(b))
                        && b@ == frame@.subrange(1, frame@.len() as int))
                } else {
                    r == Err::<KeepAliveAction, KeepAliveError>(KeepAliveError::DeserializeError)
                        && *final(self) == *old(self)
                },
                KeepAliveEvent::MessageFromUser(b) => {
                    &&& (r matches Ok(KeepAliveAction::SendToRemote(f)) && f@ == ka_encoding(
                        KaMessage::Message(b),
                    ))
                    &&& final(self).ticks_to_close == old(self).ticks_to_close
                    &&& final(self).ticks_to_send == old(self).keepalive_ticks / 2
                },
                KeepAliveEvent::TimerTick => {
                    &&& final(self).ticks_to_close == if old(self).ticks_to_close == 0 {
                        0
                    } else {
                        (old(self).ticks_to_close - 1) as usize
                    }
                    &&& final(self).ticks_to_close == 0 ==> r == Err::<
                        KeepAliveAction,
                        KeepAliveError,
                    >(KeepAliveError::RemoteTimeout)
                    &&& final(self).ticks_to_close != 0 ==> {
                        let dec = if old(self).ticks_to_send == 0 {
                            0
                        } else {
                            old(self).ticks_to_send - 1
                        };
                        &&& dec == 0 ==> (r matches Ok(KeepAliveAction::SendToRemote(f)) && f@
                            == ka_encoding(KaMessage::KeepAlive))
                        &&& dec != 0 ==> (r matches Ok(KeepAliveAction::Idle))
                        &&& final(self).ticks_to_send == if dec == 0 {
                            old(self).keepalive_ticks / 2
                        } else {
                            dec as usize
                        }
                    }
                },
            },
    {
        match event {
            KeepAliveEvent::TimerClosed => Err(KeepAliveError::TimerClosed),
            KeepAliveEvent::TunnelChannelClosed | KeepAliveEvent::UserChannelClosed => Ok(
                KeepAliveAction::Shutdown,
            ),
            KeepAliveEvent::MessageFromRemote(frame) => {
                let m = deserialize_ka_message(frame.as_slice())?;
                self.on_remote_frame();
                match m {
                    KaMessage::KeepAlive => Ok(KeepAliveAction::Idle),
                    KaMessage::Message(b) => {
                        assert(b@ =~= frame@.subrange(1, frame@.len() as int));
                        Ok(KeepAliveAction::SendToUser(b))
                    },
                }
            },
            KeepAliveEvent::MessageFromUser(b) => {
                let f = serialize_ka_message(&KaMessage::Message(b));
                self.on_user_frame();
                Ok(KeepAliveAction::SendToRemote(f))
            },
            KeepAliveEvent::TimerTick => {
                let send = self.on_tick()?;
                if send {
                    Ok(KeepAliveAction::SendToRemote(serialize_ka_message(&KaMessage::KeepAlive)))
                } else {
                    Ok(KeepAliveAction::Idle)
                }
            },
        }
    }
}

} // verus!
