use vstd::prelude::*;

use crate::keys::{bytes_lt, PublicKey};

verus! {

/// Fatal errors of the channeler loop.
#[derive(Debug, Clone, Copy, PartialEq, Eq, Structural)]
pub enum ChannelerError {
    SpawnError,
    SendToFunderFailed,
    AddressSendFailed,
    SendConnectionEstablishedFailed,
    SendAccessControlFailed,
    ListenerConfigError,
    ListenerClosed,
    FunderClosed,
    ConnectorConfigError,
    ConnectorClosed,
}

/// The sending half of a live session with a friend. Once a send fails the
/// sender is dropped, and every later send fails without retrying.
#[derive(Debug, Clone, Copy)]
pub struct Connected {
    pub sender_open: bool,
}

impl Connected {
    /// A fresh session whose sender works.
    pub fn new() -> (r: Connected)
        ensures
            r.sender_open,
    {
        Connected { sender_open: true }
    }

    /// Records the outcome of handing one item to the sender (`delivered`),
    /// and says whether the send counts as done: only while the sender is
    /// still open. A failed send closes the sender for good.
    pub fn send(&mut self, delivered: bool) -> (r: bool)
        ensures
            r == (old(self).sender_open && delivered),
            final(self).sender_open == r,
    {
        if self.sender_open {
            self.sender_open = delivered;
            delivered
        } else {
            false
        }
    }
}

/// A friend that connects to us.
#[derive(Debug, Clone, Copy)]
pub enum InFriend {
    Listening,
    Connected(Connected),
}

/// Connection status of a friend that we connect to.
#[derive(Debug, Clone, Copy)]
pub enum OutFriendStatus {
    Connecting,
    Connected(Connected),
}

/// A friend that connects to us, by key.
#[derive(Debug, Clone, Copy)]
pub struct InFriendEntry {
    pub public_key: PublicKey,
    pub status: InFriend,
}

/// A friend that we connect to, by key.
#[derive(Debug, Clone, Copy)]
pub struct OutFriendEntry {
    pub public_key: PublicKey,
    pub status: OutFriendStatus,
}

/// The friend registry: friends that should connect to us, and friends that
/// wait for our connection.
#[derive(Debug)]
pub struct Friends {
    pub in_friends: Vec<InFriendEntry>,
    pub out_friends: Vec<OutFriendEntry>,
}

/// Entry `i` of the in-friend list has key `k`.
pub open spec fn in_at(s: Seq<InFriendEntry>, k: Seq<u8>, i: int) -> bool {
    0 <= i < s.len() && s[i].public_key@ == k
}

/// Entry `i` of the out-friend list has key `k`.
pub open spec fn out_at(s: Seq<OutFriendEntry>, k: Seq<u8>, i: int) -> bool {
    0 <= i < s.len() && s[i].public_key@ == k
}

/// The in-friend has a live session.
pub open spec fn in_is_connected(f: InFriend) -> bool {
    f matches InFriend::Connected(_)
}

/// The out-friend has a live session.
pub open spec fn out_is_connected(f: OutFriendStatus) -> bool {
    f matches OutFriendStatus::Connected(_)
}

impl Friends {
    /// The friend is registered as one that connects to us.
    pub open spec fn has_in(&self, k: Seq<u8>) -> bool {
        exists|i: int| in_at(self.in_friends@, k, i)
    }

    /// The friend is registered as one that we connect to.
    pub open spec fn has_out(&self, k: Seq<u8>) -> bool {
        exists|i: int| out_at(self.out_friends@, k, i)
    }

    /// Each key stands at most once in the registry, in one of the two lists.
    pub open spec fn keys_unique(&self) -> bool {
        &&& forall|i: int, j: int|
            0 <= i < self.in_friends@.len() && 0 <= j < self.in_friends@.len() && i != j
                ==> self.in_friends@[i].public_key@ != self.in_friends@[j].public_key@
        &&& forall|i: int, j: int|
            0 <= i < self.out_friends@.len() && 0 <= j < self.out_friends@.len() && i != j
                ==> self.out_friends@[i].public_key@ != self.out_friends@[j].public_key@
        &&& forall|i: int, j: int|
            0 <= i < self.in_friends@.len() && 0 <= j < self.out_friends@.len()
                ==> self.in_friends@[i].public_key@ != self.out_friends@[j].public_key@
    }

    /// The friend has a live session.
    pub open spec fn is_connected(&self, k: Seq<u8>) -> bool {
        (exists|i: int| in_at(self.in_friends@, k, i) && in_is_connected(self.in_friends@[i].status))
            || (exists|i: int|
            out_at(self.out_friends@, k, i) && out_is_connected(self.out_friends@[i].status))
    }

    /// An empty registry.
    pub fn new() -> (r: Friends)
        ensures
            r.in_friends@.len() == 0,
            r.out_friends@.len() == 0,
    {
        Friends { in_friends: Vec::new(), out_friends: Vec::new() }
    }

    /// Position of `pk` among the friends that connect to us.
    pub fn find_in(&self, pk: &PublicKey) -> (r: Option<usize>)
        ensures
            r matches Some(i) ==> in_at(self.in_friends@, pk@, i as int),
            r is None ==> !self.has_in(pk@),
    {
        let mut i: usize = 0;
        while i < self.in_friends.len()
            invariant
                0 <= i <= self.in_friends@.len(),
                forall|j: int| 0 <= j < i ==> self.in_friends@[j].public_key@ != pk@,
            decreases self.in_friends@.len() - i,
        {
            if self.in_friends[i].public_key.equals(pk) {
                return Some(i);
            }
            i = i + 1;
        }
        None
    }

    /// Position of `pk` among the friends that we connect to.
    pub fn find_out(&self, pk: &PublicKey) -> (r: Option<usize>)
        ensures
            r matches Some(i) ==> out_at(self.out_friends@, pk@, i as int),
            r is None ==> !self.has_out(pk@),
    {
        let mut i: usize = 0;
        while i < self.out_friends.len()
            invariant
                0 <= i <= self.out_friends@.len(),
                forall|j: int| 0 <= j < i ==> self.out_friends@[j].public_key@ != pk@,
            decreases self.out_friends@.len() - i,
        {
            if self.out_friends[i].public_key.equals(pk) {
                return Some(i);
            }
            i = i + 1;
        }
        None
    }

    /// The friend has a live session whose sender still works.
    pub open spec fn can_send(&self, k: Seq<u8>) -> bool {
        (exists|i: int|
            in_at(self.in_friends@, k, i) && self.in_friends@[i].status == InFriend::Connected(
                Connected { sender_open: true },
            )) || (exists|i: int|
            out_at(self.out_friends@, k, i) && self.out_friends@[i].status
                == OutFriendStatus::Connected(Connected { sender_open: true }))
    }

    /// The live session with `pk`, if there is one.
    pub fn get_friend_connected(&self, pk: &PublicKey) -> (r: Option<Connected>)
        requires
            self.keys_unique(),
        ensures
            r is Some <==> self.is_connected(pk@),
            r matches Some(c) ==> (exists|i: int|
                in_at(self.in_friends@, pk@, i) && self.in_friends@[i].status == InFriend::Connected(
                    c,
                )) || (exists|i: int|
                out_at(self.out_friends@, pk@, i) && self.out_friends@[i].status
                    == OutFriendStatus::Connected(c)),
    {
        match self.find_in(pk) {
            Some(i) => {
                match self.in_friends[i].status {
                    InFriend::Connected(c) => {
                        return Some(c);
                    },
                    InFriend::Listening => {},
                }
            },
            None => {},
        }
        match self.find_out(pk) {
            Some(i) => {
                match self.out_friends[i].status {
                    OutFriendStatus::Connected(c) => {
                        return Some(c);
                    },
                    OutFriendStatus::Connecting => {},
                }
            },
            None => {},
        }
        None
    }
}

/// Configuration sent to the listen pool.
#[derive(Debug)]
pub enum LpConfig<B> {
    SetLocalAddresses(Vec<B>),
    UpdateFriend((PublicKey, Vec<B>)),
    RemoveFriend(PublicKey),
}

/// Creates or updates a friend.
#[derive(Debug)]
pub struct ChannelerUpdateFriend<B> {
    pub friend_public_key: PublicKey,
    /// Relay addresses of the friend, used when we connect to it.
    pub friend_address: Vec<B>,
    /// Our relay addresses on which the friend may reach us.
    pub local_addresses: Vec<Vec<B>>,
}

/// Commands from the credit layer.
#[derive(Debug)]
pub enum FunderToChanneler<B> {
    Message((PublicKey, Vec<u8>)),
    SetAddress(Option<Vec<B>>),
    UpdateFriend(ChannelerUpdateFriend<B>),
    RemoveFriend(PublicKey),
}

/// Reports to the credit layer.
#[derive(Debug)]
pub enum ChannelerToFunder {
    Online(PublicKey),
    Offline(PublicKey),
    Message((PublicKey, Vec<u8>)),
}

/// Events of a friend's receiving task.
#[derive(Debug)]
pub enum FriendEvent {
    IncomingMessage((PublicKey, Vec<u8>)),
    ReceiverClosed(PublicKey),
}

/// Everything the channeler loop reacts to. A new connection is named by the
/// friend's key; the stream itself stays with the caller.
#[derive(Debug)]
pub enum ChannelerEvent<B> {
    FromFunder(FunderToChanneler<B>),
    Connection(PublicKey),
    FriendEvent(FriendEvent),
    ListenerClosed,
    ConnectorClosed,
    FunderClosed,
}

/// Work that the channeler hands to its caller.
#[derive(Debug)]
pub enum ChannelerAction<B> {
    /// Set up a connect pool for a friend that we connect to.
    CreateConnectPool(PublicKey),
    /// Spawn one connection attempt to the friend.
    Connect(PublicKey),
    /// Send a configuration to the listen pool.
    ListenConfig(LpConfig<B>),
    /// Give the friend's connect pool its relay addresses.
    ConnectorConfig((PublicKey, Vec<B>)),
    /// Hand bytes to the friend's overwrite channel.
    SendToFriend((PublicKey, Vec<u8>)),
    /// Report to the credit layer.
    ToFunder(ChannelerToFunder),
    /// Keep the new connection: spawn its send and receive tasks.
    AcceptConnection(PublicKey),
    /// Drop the new connection.
    DropConnection(PublicKey),
    /// Drop everything held for a removed friend: its session and its connect pool.
    ForgetFriend(PublicKey),
}

/// Our relay addresses, flattened from a list of lists, in order.
pub open spec fn flatten_addresses<B>(s: Seq<Vec<B>>) -> Seq<B>
    decreases s.len(),
{
    if s.len() == 0 {
        Seq::empty()
    } else {
        flatten_addresses(s.drop_last()) + s.last()@
    }
}

/// Flattens a list of address lists into one list, keeping the order.
pub fn flatten_local_addresses<B>(local_addresses: Vec<Vec<B>>) -> (r: Vec<B>)
    ensures
        r@ == flatten_addresses(local_addresses@),
{
    let ghost orig = local_addresses@;
    let mut rest = local_addresses;
    let mut total: Vec<B> = Vec::new();
    let ghost mut i: int = 0;
    assert(orig.subrange(0, 0) =~= Seq::<Vec<B>>::empty());
    while rest.len() > 0
        invariant
            0 <= i <= orig.len(),
            rest@ == orig.subrange(i, orig.len() as int),
            total@ == flatten_addresses(orig.subrange(0, i)),
        decreases rest@.len(),
    {
        let mut a = rest.remove(0);
        assert(a == orig[i]);
        total.append(&mut a);
        proof {
            assert(orig.subrange(0, i + 1).drop_last() =~= orig.subrange(0, i));
            assert(orig.subrange(0, i + 1).last() == orig[i]);
            assert(rest@ =~= orig.subrange(i + 1, orig.len() as int));
            i = i + 1;
        }
    }
    assert(orig.subrange(0, i) =~= orig);
    total
}

/// The in-friend list after `k`'s session went live (if `k` was listening).
pub open spec fn in_connect(s: Seq<InFriendEntry>, k: Seq<u8>) -> Seq<InFriendEntry> {
    Seq::new(
        s.len(),
        |j: int|
            if s[j].public_key@ == k && s[j].status is Listening {
                InFriendEntry {
                    public_key: s[j].public_key,
                    status: InFriend::Connected(Connected { sender_open: true }),
                }
            } else {
                s[j]
            },
    )
}

/// The out-friend list after `k`'s session went live (if `k` was connecting).
pub open spec fn out_connect(s: Seq<OutFriendEntry>, k: Seq<u8>) -> Seq<OutFriendEntry> {
    Seq::new(
        s.len(),
        |j: int|
            if s[j].public_key@ == k && s[j].status is Connecting {
                OutFriendEntry {
                    public_key: s[j].public_key,
                    status: OutFriendStatus::Connected(Connected { sender_open: true }),
                }
            } else {
                s[j]
            },
    )
}

/// The in-friend list after `k`'s session ended: `k` listens again.
pub open spec fn in_disconnect(s: Seq<InFriendEntry>, k: Seq<u8>) -> Seq<InFriendEntry> {
    Seq::new(
        s.len(),
        |j: int|
            if s[j].public_key@ == k {
                InFriendEntry { public_key: s[j].public_key, status: InFriend::Listening }
            } else {
                s[j]
            },
    )
}

/// The out-friend list after `k`'s session ended: we connect to `k` again.
pub open spec fn out_disconnect(s: Seq<OutFriendEntry>, k: Seq<u8>) -> Seq<OutFriendEntry> {
    Seq::new(
        s.len(),
        |j: int|
            if s[j].public_key@ == k {
                OutFriendEntry { public_key: s[j].public_key, status: OutFriendStatus::Connecting }
            } else {
                s[j]
            },
    )
}

/// Per-friend connection state and the rules that drive it.
#[derive(Debug)]
pub struct Channeler {
    pub local_public_key: PublicKey,
    pub friends: Friends,
}

impl Channeler {
    /// The registry holds each friend once, and in the role that the key
    /// order gives it: a friend whose key is above ours connects to us, any
    /// other friend waits for our connection.
    pub open spec fn wf(&self) -> bool {
        &&& self.friends.keys_unique()
        &&& forall|i: int|
            0 <= i < self.friends.in_friends@.len() ==> bytes_lt(
                self.local_public_key@,
                #[trigger] self.friends.in_friends@[i].public_key@,
            )
        &&& forall|i: int|
            0 <= i < self.friends.out_friends@.len() ==> !bytes_lt(
                self.local_public_key@,
                #[trigger] self.friends.out_friends@[i].public_key@,
            )
    }

    /// A channeler with no friends.
    pub fn new(local_public_key: PublicKey) -> (r: Channeler)
        ensures
            r.wf(),
            r.local_public_key == local_public_key,
            r.friends.in_friends@.len() == 0,
            r.friends.out_friends@.len() == 0,
    {
        Channeler { local_public_key, friends: Friends::new() }
    }

    /// Should we wait for a connection from this friend? Yes exactly when our
    /// key comes first.
    pub fn is_listen_friend(&self, friend_public_key: &PublicKey) -> (r: bool)
        ensures
            r == bytes_lt(self.local_public_key@, friend_public_key@),
    {
        self.local_public_key.less_than(friend_public_key)
    }
}

impl Channeler {
    /// `next` is this channeler after `k` was registered if it was new.
    pub open spec fn after_create(self, next: Channeler, k: PublicKey) -> bool {
        &&& next.local_public_key == self.local_public_key
        &&& if self.friends.has_in(k@) || self.friends.has_out(k@) {
            &&& next.friends.in_friends@ == self.friends.in_friends@
            &&& next.friends.out_friends@ == self.friends.out_friends@
        } else if bytes_lt(self.local_public_key@, k@) {
            &&& next.friends.in_friends@ == self.friends.in_friends@.push(
                InFriendEntry { public_key: k, status: InFriend::Listening },
            )
            &&& next.friends.out_friends@ == self.friends.out_friends@
        } else {
            &&& next.friends.in_friends@ == self.friends.in_friends@
            &&& next.friends.out_friends@ == self.friends.out_friends@.push(
                OutFriendEntry { public_key: k, status: OutFriendStatus::Connecting },
            )
        }
    }

    /// What registering `k` asks of the caller: for a new friend that we
    /// connect to, a connect pool and a first connection attempt.
    pub open spec fn create_actions<B>(self, k: PublicKey) -> Seq<ChannelerAction<B>> {
        if !(self.friends.has_in(k@) || self.friends.has_out(k@)) && !bytes_lt(
            self.local_public_key@,
            k@,
        ) {
            seq![ChannelerAction::CreateConnectPool(k), ChannelerAction::Connect(k)]
        } else {
            Seq::empty()
        }
    }
}

impl Channeler {
    /// Registers the friend if it is new: as one that connects to us when our
    /// key comes first, else as one that we connect to, in which case its
    /// connect pool is set up and a first attempt spawned.
    pub fn try_create_friend<B>(&mut self, friend_public_key: &PublicKey) -> (r: Vec<
        ChannelerAction<B>,
    >)
        requires
            old(self).wf(),
        ensures
            final(self).wf(),
            final(self).local_public_key == old(self).local_public_key,
            old(self).after_create(*final(self), *friend_public_key),
            r@ == old(self).create_actions::<B>(*friend_public_key),
    {
        let mut actions: Vec<ChannelerAction<B>> = Vec::new();
        if self.friends.find_in(friend_public_key).is_some() || self.friends.find_out(
            friend_public_key,
        ).is_some() {
            return actions;
        }
        let pk = *friend_public_key;
        proof {
            assert forall|j: int| 0 <= j < self.friends.in_friends@.len() implies
                self.friends.in_friends@[j].public_key@ != pk@ by {
                assert(!in_at(self.friends.in_friends@, pk@, j));
            }
            assert forall|j: int| 0 <= j < self.friends.out_friends@.len() implies
                self.friends.out_friends@[j].public_key@ != pk@ by {
                assert(!out_at(self.friends.out_friends@, pk@, j));
            }
        }
        if self.is_listen_friend(friend_public_key) {
            self.friends.in_friends.push(InFriendEntry { public_key: pk, status: InFriend::Listening });
            assert(in_at(self.friends.in_friends@, pk@, self.friends.in_friends@.len() - 1));
        } else {
            self.friends.out_friends.push(
                OutFriendEntry { public_key: pk, status: OutFriendStatus::Connecting },
            );
            assert(out_at(self.friends.out_friends@, pk@, self.friends.out_friends@.len() - 1));
            actions.push(ChannelerAction::CreateConnectPool(pk));
            actions.push(ChannelerAction::Connect(pk));
        }
        assert(actions@ =~= old(self).create_actions::<B>(pk));
        actions
    }
}

/// `new` and the actions `r` are what a command of the credit layer leads
/// to from `old` (see `Channeler::handle_from_funder`).
pub open spec fn from_funder_done<B>(
    old: Channeler,
    new: Channeler,
    cmd: FunderToChanneler<B>,
    r: Seq<ChannelerAction<B>>,
) -> bool {
    match cmd {
        FunderToChanneler::Message((k, data)) => {
            &&& new.friends.in_friends@ == old.friends.in_friends@
            &&& new.friends.out_friends@ == old.friends.out_friends@
            &&& r == if old.friends.can_send(k@) {
                seq![ChannelerAction::<B>::SendToFriend((k, data))]
            } else {
                Seq::empty()
            }
        },
        FunderToChanneler::SetAddress(opt) => {
            &&& new.friends.in_friends@ == old.friends.in_friends@
            &&& new.friends.out_friends@ == old.friends.out_friends@
            &&& r.len() == 1
            &&& (r[0] matches ChannelerAction::ListenConfig(
                LpConfig::SetLocalAddresses(a),
            ) && a@ == match opt {
                Some(v) => v@,
                None => Seq::empty(),
            })
        },
        FunderToChanneler::UpdateFriend(u) => {
            let k = u.friend_public_key;
            let created = old.create_actions::<B>(k);
            &&& old.after_create(new, k)
            &&& if new.friends.has_in(k@) {
                &&& r.len() == created.len() + 1
                &&& r.subrange(0, created.len() as int) == created
                &&& (r.last() matches ChannelerAction::ListenConfig(
                    LpConfig::UpdateFriend((k2, a)),
                ) && k2 == k && a@ == flatten_addresses(u.local_addresses@))
            } else {
                r == created.push(ChannelerAction::ConnectorConfig((k, u.friend_address)))
            }
        },
        FunderToChanneler::RemoveFriend(k) => if old.friends.has_in(k@) {
            &&& exists|i: int|
                in_at(old.friends.in_friends@, k@, i)
                    && new.friends.in_friends@ == old.friends.in_friends@.remove(i)
            &&& new.friends.out_friends@ == old.friends.out_friends@
            &&& r == Seq::<ChannelerAction<B>>::empty().push(
                ChannelerAction::ListenConfig(LpConfig::RemoveFriend(k)),
            ).push(ChannelerAction::ForgetFriend(k))
        } else if old.friends.has_out(k@) {
            &&& exists|i: int|
                out_at(old.friends.out_friends@, k@, i)
                    && new.friends.out_friends@ == old.friends.out_friends@.remove(i)
            &&& new.friends.in_friends@ == old.friends.in_friends@
            &&& r == seq![ChannelerAction::<B>::ForgetFriend(k)]
        } else {
            &&& new.friends.in_friends@ == old.friends.in_friends@
            &&& new.friends.out_friends@ == old.friends.out_friends@
            &&& r.len() == 0
        },
    }
}

impl Channeler {
    /// Handles one command of the credit layer.
    ///
    /// A message goes to the friend's overwrite channel if the friend has a
    /// live session whose sender works, and is dropped otherwise. An address
    /// change reconfigures the listen pool (no address: an empty list). An
    /// update registers a new friend by the key order, then hands the
    /// flattened local relays to the listen pool (a friend that connects to
    /// us) or the friend's relays to its connect pool (a friend we connect
    /// to). A removal forgets the friend, and tells the listen pool if the
    /// friend was one of its own.
    pub fn handle_from_funder<B>(&mut self, cmd: FunderToChanneler<B>) -> (r: Vec<
        ChannelerAction<B>,
    >)
        requires
            old(self).wf(),
        ensures
            final(self).wf(),
            final(self).local_public_key == old(self).local_public_key,
            from_funder_done(*old(self), *final(self), cmd, r@),
    {
        match cmd {
            FunderToChanneler::Message((k, data)) => {
                let mut actions: Vec<ChannelerAction<B>> = Vec::new();
                match self.friends.get_friend_connected(&k) {
                    Some(c) => {
                        if c.sender_open {
                            actions.push(ChannelerAction::SendToFriend((k, data)));
                        }
                    },
                    None => {},
                }
                actions
            },
            FunderToChanneler::SetAddress(opt) => {
                let addresses = match opt {
                    Some(v) => v,
                    None => Vec::new(),
                };
                let mut actions: Vec<ChannelerAction<B>> = Vec::new();
                actions.push(ChannelerAction::ListenConfig(LpConfig::SetLocalAddresses(addresses)));
                actions
            },
            FunderToChanneler::UpdateFriend(u) => {
                let ChannelerUpdateFriend { friend_public_key, friend_address, local_addresses } = u;
                let mut actions = self.try_create_friend(&friend_public_key);
                let ghost created = actions@;
                if self.friends.find_in(&friend_public_key).is_some() {
                    let total = flatten_local_addresses(local_addresses);
                    actions.push(
                        ChannelerAction::ListenConfig(LpConfig::UpdateFriend((friend_public_key, total))),
                    );
                    assert(actions@.subrange(0, created.len() as int) =~= created);
                } else {
                    actions.push(ChannelerAction::ConnectorConfig((friend_public_key, friend_address)));
                }
                actions
            },
            FunderToChanneler::RemoveFriend(k) => {
                let mut actions: Vec<ChannelerAction<B>> = Vec::new();
                match self.friends.find_in(&k) {
                    Some(i) => {
                        let ghost before = self.friends.in_friends@;
                        self.friends.in_friends.remove(i);
                        assert(forall|j: int|
                            0 <= j < self.friends.in_friends@.len() ==> self.friends.in_friends@[j]
                                == before[if j < i { j } else { j + 1 }]);
                        actions.push(ChannelerAction::ListenConfig(LpConfig::RemoveFriend(k)));
                        actions.push(ChannelerAction::ForgetFriend(k));
                        return actions;
                    },
                    None => {},
                }
                match self.friends.find_out(&k) {
                    Some(i) => {
                        let ghost before = self.friends.out_friends@;
                        self.friends.out_friends.remove(i);
                        assert(forall|j: int|
                            0 <= j < self.friends.out_friends@.len() ==> self.friends.out_friends@[j]
                                == before[if j < i { j } else { j + 1 }]);
                        actions.push(ChannelerAction::ForgetFriend(k));
                    },
                    None => {},
                }
                actions
            },
        }
    }
}

impl Friends {
    /// A new connection from `k` may be kept: `k` is registered and has no
    /// live session.
    pub open spec fn can_accept(&self, k: Seq<u8>) -> bool {
        (exists|i: int| in_at(self.in_friends@, k, i) && self.in_friends@[i].status is Listening)
            || (exists|i: int|
            out_at(self.out_friends@, k, i) && self.out_friends@[i].status is Connecting)
    }
}

impl Channeler {
    /// Handles a new connection from `friend_public_key`. It is kept only for
    /// a registered friend without a live session: the session goes live and
    /// the credit layer hears that the friend is online. A connection from a
    /// friend that is already connected, or from a key that is not a friend,
    /// is dropped, so no friend ever has two sessions.
    pub fn handle_connection<B>(&mut self, friend_public_key: PublicKey) -> (r: Vec<
        ChannelerAction<B>,
    >)
        requires
            old(self).wf(),
        ensures
            final(self).wf(),
            final(self).local_public_key == old(self).local_public_key,
            connection_done(*old(self), *final(self), friend_public_key, r@),
    {
        let mut actions: Vec<ChannelerAction<B>> = Vec::new();
        let ghost k = friend_public_key@;
        match self.friends.find_in(&friend_public_key) {
            Some(i) => {
                let entry = self.friends.in_friends[i];
                match entry.status {
                    InFriend::Connected(_) => {
                        assert(self.friends.in_friends@ =~= in_connect(self.friends.in_friends@, k));
                        assert(self.friends.out_friends@ =~= out_connect(
                            self.friends.out_friends@,
                            k,
                        ));
                        actions.push(ChannelerAction::DropConnection(friend_public_key));
                        return actions;
                    },
                    InFriend::Listening => {
                        let ghost before = self.friends.in_friends@;
                        self.friends.in_friends.set(
                            i,
                            InFriendEntry {
                                public_key: entry.public_key,
                                status: InFriend::Connected(Connected::new()),
                            },
                        );
                        assert(self.friends.in_friends@ =~= in_connect(before, k));
                        assert(self.friends.out_friends@ =~= out_connect(
                            self.friends.out_friends@,
                            k,
                        ));
                        actions.push(ChannelerAction::AcceptConnection(friend_public_key));
                        actions.push(
                            ChannelerAction::ToFunder(ChannelerToFunder::Online(friend_public_key)),
                        );
                        return actions;
                    },
                }
            },
            None => {},
        }
        assert forall|j: int| 0 <= j < self.friends.in_friends@.len() implies
            self.friends.in_friends@[j].public_key@ != k by {
            assert(!in_at(self.friends.in_friends@, k, j));
        }
        assert(self.friends.in_friends@ =~= in_connect(self.friends.in_friends@, k));
        match self.friends.find_out(&friend_public_key) {
            Some(i) => {
                let entry = self.friends.out_friends[i];
                match entry.status {
                    OutFriendStatus::Connected(_) => {
                        assert(self.friends.out_friends@ =~= out_connect(
                            self.friends.out_friends@,
                            k,
                        ));
                        actions.push(ChannelerAction::DropConnection(friend_public_key));
                    },
                    OutFriendStatus::Connecting => {
                        let ghost before = self.friends.out_friends@;
                        self.friends.out_friends.set(
                            i,
                            OutFriendEntry {
                                public_key: entry.public_key,
                                status: OutFriendStatus::Connected(Connected::new()),
                            },
                        );
                        assert(self.friends.out_friends@ =~= out_connect(before, k));
                        actions.push(ChannelerAction::AcceptConnection(friend_public_key));
                        actions.push(
                            ChannelerAction::ToFunder(ChannelerToFunder::Online(friend_public_key)),
                        );
                    },
                }
            },
            None => {
                assert forall|j: int| 0 <= j < self.friends.out_friends@.len() implies
                    self.friends.out_friends@[j].public_key@ != k by {
                    assert(!out_at(self.friends.out_friends@, k, j));
                }
                assert(self.friends.out_friends@ =~= out_connect(self.friends.out_friends@, k));
                actions.push(ChannelerAction::DropConnection(friend_public_key));
            },
        }
        actions
    }
}

/// `new` and the actions `r` are what an event of a friend's receiving
/// task leads to from `old` (see `Channeler::handle_friend_event`).
pub open spec fn friend_event_done<B>(
    old: Channeler,
    new: Channeler,
    event: FriendEvent,
    r: Seq<ChannelerAction<B>>,
) -> bool {
    match event {
        FriendEvent::IncomingMessage((k, data)) => {
            &&& new.friends.in_friends@ == old.friends.in_friends@
            &&& new.friends.out_friends@ == old.friends.out_friends@
            &&& r == seq![
                ChannelerAction::<B>::ToFunder(ChannelerToFunder::Message((k, data))),
            ]
        },
        FriendEvent::ReceiverClosed(k) => if old.friends.is_connected(k@) {
            &&& new.friends.in_friends@ == in_disconnect(
                old.friends.in_friends@,
                k@,
            )
            &&& new.friends.out_friends@ == out_disconnect(
                old.friends.out_friends@,
                k@,
            )
            &&& r == if old.friends.has_out(k@) {
                Seq::<ChannelerAction<B>>::empty().push(
                    ChannelerAction::ToFunder(ChannelerToFunder::Offline(k)),
                ).push(ChannelerAction::Connect(k))
            } else {
                seq![ChannelerAction::<B>::ToFunder(ChannelerToFunder::Offline(k))]
            }
        } else {
            &&& new.friends.in_friends@ == old.friends.in_friends@
            &&& new.friends.out_friends@ == old.friends.out_friends@
            &&& r.len() == 0
        },
    }
}

/// `new` and the actions `r` are what a new connection from `k` leads to
/// from `old` (see `Channeler::handle_connection`).
pub open spec fn connection_done<B>(
    old: Channeler,
    new: Channeler,
    k: PublicKey,
    r: Seq<ChannelerAction<B>>,
) -> bool {
    &&& new.friends.in_friends@ == in_connect(old.friends.in_friends@, k@)
    &&& new.friends.out_friends@ == out_connect(old.friends.out_friends@, k@)
    &&& r == if old.friends.can_accept(k@) {
        Seq::<ChannelerAction<B>>::empty().push(ChannelerAction::AcceptConnection(k)).push(
            ChannelerAction::ToFunder(ChannelerToFunder::Online(k)),
        )
    } else {
        seq![ChannelerAction::<B>::DropConnection(k)]
    }
}

impl Channeler {
    /// Handles an event of a friend's receiving task. Incoming bytes go up to
    /// the credit layer as they are. When a live session ends, the credit layer
    /// hears that the friend is offline, and the friend goes back to listening
    /// or, if we connect to it, to connecting, with a new attempt spawned. A
    /// close for a friend without a live session changes nothing.
    pub fn handle_friend_event<B>(&mut self, event: FriendEvent) -> (r: Vec<ChannelerAction<B>>)
        requires
            old(self).wf(),
        ensures
            final(self).wf(),
            final(self).local_public_key == old(self).local_public_key,
            friend_event_done(*old(self), *final(self), event, r@),
    {
        let mut actions: Vec<ChannelerAction<B>> = Vec::new();
        match event {
            FriendEvent::IncomingMessage((k, data)) => {
                actions.push(ChannelerAction::ToFunder(ChannelerToFunder::Message((k, data))));
            },
            FriendEvent::ReceiverClosed(k) => {
                if self.friends.get_friend_connected(&k).is_none() {
                    return actions;
                }
                actions.push(ChannelerAction::ToFunder(ChannelerToFunder::Offline(k)));
                match self.friends.find_in(&k) {
                    Some(i) => {
                        let ghost before = self.friends.in_friends@;
                        let pk = self.friends.in_friends[i].public_key;
                        self.friends.in_friends.set(
                            i,
                            InFriendEntry { public_key: pk, status: InFriend::Listening },
                        );
                        assert(self.friends.in_friends@ =~= in_disconnect(before, k@));
                        assert forall|j: int| 0 <= j < self.friends.out_friends@.len() implies
                            self.friends.out_friends@[j].public_key@ != k@ by {
                            assert(self.friends.in_friends@[i as int].public_key@ == k@);
                        }
                        assert(self.friends.out_friends@ =~= out_disconnect(
                            self.friends.out_friends@,
                            k@,
                        ));
                        assert(!self.friends.has_out(k@));
                        return actions;
                    },
                    None => {},
                }
                assert forall|j: int| 0 <= j < self.friends.in_friends@.len() implies
                    self.friends.in_friends@[j].public_key@ != k@ by {
                    assert(!in_at(self.friends.in_friends@, k@, j));
                }
                assert(self.friends.in_friends@ =~= in_disconnect(self.friends.in_friends@, k@));
                match self.friends.find_out(&k) {
                    Some(i) => {
                        let ghost before = self.friends.out_friends@;
                        let pk = self.friends.out_friends[i].public_key;
                        self.friends.out_friends.set(
                            i,
                            OutFriendEntry { public_key: pk, status: OutFriendStatus::Connecting },
                        );
                        assert(self.friends.out_friends@ =~= out_disconnect(before, k@));
                        actions.push(ChannelerAction::Connect(k));
                    },
                    None => {},
                }
            },
        }
        actions
    }

    /// Records the outcome of handing bytes to `friend_public_key`'s sender;
    /// a failure closes that sender, and that friend's alone. Returns whether
    /// the send counts as done.
    pub fn record_send(&mut self, friend_public_key: &PublicKey, delivered: bool) -> (r: bool)
        requires
            old(self).wf(),
        ensures
            final(self).wf(),
            final(self).local_public_key == old(self).local_public_key,
            r == (old(self).friends.can_send(friend_public_key@) && delivered),
            final(self).friends.in_friends@.len() == old(self).friends.in_friends@.len(),
            final(self).friends.out_friends@.len() == old(self).friends.out_friends@.len(),
            forall|j: int|
                0 <= j < old(self).friends.in_friends@.len()
                    && old(self).friends.in_friends@[j].public_key@ != friend_public_key@
                    ==> final(self).friends.in_friends@[j] == old(self).friends.in_friends@[j],
            forall|j: int|
                0 <= j < old(self).friends.out_friends@.len()
                    && old(self).friends.out_friends@[j].public_key@ != friend_public_key@
                    ==> final(self).friends.out_friends@[j] == old(self).friends.out_friends@[j],
            old(self).friends.is_connected(friend_public_key@) ==> final(self).friends.is_connected(
                friend_public_key@,
            ),
            final(self).friends.can_send(friend_public_key@) == r,
    {
        let ghost k = friend_public_key@;
        match self.friends.find_in(friend_public_key) {
            Some(i) => {
                let entry = self.friends.in_friends[i];
                match entry.status {
                    InFriend::Connected(c) => {
                        let mut c2 = c;
                        let ok = c2.send(delivered);
                        self.friends.in_friends.set(
                            i,
                            InFriendEntry { public_key: entry.public_key, status: InFriend::Connected(c2) },
                        );
                        assert(in_at(self.friends.in_friends@, k, i as int));
                        assert forall|j: int| 0 <= j < self.friends.out_friends@.len() implies
                            self.friends.out_friends@[j].public_key@ != k by {
                            assert(self.friends.in_friends@[i as int].public_key@ == k);
                        }
                        if !ok {
                            assert forall|j: int| !(in_at(self.friends.in_friends@, k, j)
                                && self.friends.in_friends@[j].status == InFriend::Connected(
                                Connected { sender_open: true },
                            )) by {
                                if in_at(self.friends.in_friends@, k, j) && j != i {
                                    assert(self.friends.in_friends@[i as int].public_key@ == k);
                                }
                            }
                            assert forall|j: int| !out_at(self.friends.out_friends@, k, j) by {}
                        }
                        return ok;
                    },
                    InFriend::Listening => {
                        assert forall|j: int| 0 <= j < self.friends.out_friends@.len() implies
                            self.friends.out_friends@[j].public_key@ != k by {
                            assert(self.friends.in_friends@[i as int].public_key@ == k);
                        }
                        assert forall|j: int| !(in_at(self.friends.in_friends@, k, j)
                            && self.friends.in_friends@[j].status == InFriend::Connected(
                            Connected { sender_open: true },
                        )) by {
                            if in_at(self.friends.in_friends@, k, j) && j != i {
                                assert(self.friends.in_friends@[i as int].public_key@ == k);
                            }
                        }
                        assert forall|j: int| !out_at(self.friends.out_friends@, k, j) by {}
                        return false;
                    },
                }
            },
            None => {},
        }
        assert forall|j: int| !in_at(self.friends.in_friends@, k, j) by {}
        match self.friends.find_out(friend_public_key) {
            Some(i) => {
                let entry = self.friends.out_friends[i];
                match entry.status {
                    OutFriendStatus::Connected(c) => {
                        let mut c2 = c;
                        let ok = c2.send(delivered);
                        self.friends.out_friends.set(
                            i,
                            OutFriendEntry {
                                public_key: entry.public_key,
                                status: OutFriendStatus::Connected(c2),
                            },
                        );
                        assert(out_at(self.friends.out_friends@, k, i as int));
                        if !ok {
                            assert forall|j: int| !(out_at(self.friends.out_friends@, k, j)
                                && self.friends.out_friends@[j].status
                                == OutFriendStatus::Connected(Connected { sender_open: true })) by {
                                if out_at(self.friends.out_friends@, k, j) && j != i {
                                    assert(self.friends.out_friends@[i as int].public_key@ == k);
                                }
                            }
                        }
                        ok
                    },
                    OutFriendStatus::Connecting => {
                        assert forall|j: int| !(out_at(self.friends.out_friends@, k, j)
                            && self.friends.out_friends@[j].status == OutFriendStatus::Connected(
                            Connected { sender_open: true },
                        )) by {
                            if out_at(self.friends.out_friends@, k, j) && j != i {
                                assert(self.friends.out_friends@[i as int].public_key@ == k);
                            }
                        }
                        false
                    },
                }
            },
            None => {
                assert forall|j: int| !out_at(self.friends.out_friends@, k, j) by {}
                false
            },
        }
    }

    /// Handles one event of the channeler loop. The close of the listener,
    /// of the connector or of the credit layer's command stream ends the
    /// loop with its own error.
    pub fn handle_event<B>(&mut self, event: ChannelerEvent<B>) -> (r: Result<
        Vec<ChannelerAction<B>>,
        ChannelerError,
    >)
        requires
            old(self).wf(),
        ensures
            final(self).wf(),
            final(self).local_public_key == old(self).local_public_key,
            match event {
                ChannelerEvent::ListenerClosed => r == Err::<Vec<ChannelerAction<B>>, ChannelerError>(
                    ChannelerError::ListenerClosed,
                ),
                ChannelerEvent::ConnectorClosed => r == Err::<
                    Vec<ChannelerAction<B>>,
                    ChannelerError,
                >(ChannelerError::ConnectorClosed),
                ChannelerEvent::FunderClosed => r == Err::<Vec<ChannelerAction<B>>, ChannelerError>(
                    ChannelerError::FunderClosed,
                ),
                ChannelerEvent::Connection(k) => r matches Ok(v) && connection_done(
                    *old(self),
                    *final(self),
                    k,
                    v@,
                ),
                ChannelerEvent::FromFunder(cmd) => r matches Ok(v) && from_funder_done(
                    *old(self),
                    *final(self),
                    cmd,
                    v@,
                ),
                ChannelerEvent::FriendEvent(e) => r matches Ok(v) && friend_event_done(
                    *old(self),
                    *final(self),
                    e,
                    v@,
                ),
            },
            match event {
                ChannelerEvent::ListenerClosed | ChannelerEvent::ConnectorClosed
                | ChannelerEvent::FunderClosed => {
                    &&& final(self).friends.in_friends@ == old(self).friends.in_friends@
                    &&& final(self).friends.out_friends@ == old(self).friends.out_friends@
                },
                _ => true,
            },
    {
        match event {
            ChannelerEvent::FromFunder(cmd) => Ok(self.handle_from_funder(cmd)),
            ChannelerEvent::Connection(k) => Ok(self.handle_connection(k)),
            ChannelerEvent::FriendEvent(e) => Ok(self.handle_friend_event(e)),
            ChannelerEvent::ListenerClosed => Err(ChannelerError::ListenerClosed),
            ChannelerEvent::ConnectorClosed => Err(ChannelerError::ConnectorClosed),
            ChannelerEvent::FunderClosed => Err(ChannelerError::FunderClosed),
        }
    }
}

/// At most one session per friend: in a well-formed channeler a key stands in
/// at most one entry of the registry, so at most one entry holds a live
/// session for it, and a connection from a friend with a live session is
/// dropped without touching the registry.
pub proof fn lemma_one_session_per_friend(ch: Channeler, k: Seq<u8>)
    requires
        ch.wf(),
    ensures
        !(ch.friends.has_in(k) && ch.friends.has_out(k)),
        forall|i: int, j: int|
            in_at(ch.friends.in_friends@, k, i) && in_at(ch.friends.in_friends@, k, j) ==> i == j,
        forall|i: int, j: int|
            out_at(ch.friends.out_friends@, k, i) && out_at(ch.friends.out_friends@, k, j) ==> i
                == j,
        ch.friends.is_connected(k) ==> !ch.friends.can_accept(k),
{
    if ch.friends.is_connected(k) && ch.friends.can_accept(k) {
        if exists|i: int|
            in_at(ch.friends.in_friends@, k, i) && in_is_connected(ch.friends.in_friends@[i].status) {
            let i = choose|i: int|
                in_at(ch.friends.in_friends@, k, i) && in_is_connected(
                    ch.friends.in_friends@[i].status,
                );
            if exists|j: int|
                in_at(ch.friends.in_friends@, k, j) && ch.friends.in_friends@[j].status is Listening {
                let j = choose|j: int|
                    in_at(ch.friends.in_friends@, k, j)
                        && ch.friends.in_friends@[j].status is Listening;
                assert(i != j);
            } else {
                let j = choose|j: int|
                    out_at(ch.friends.out_friends@, k, j)
                        && ch.friends.out_friends@[j].status is Connecting;
                assert(ch.friends.in_friends@[i].public_key@ == ch.friends.out_friends@[j].public_key@);
            }
        } else {
            let i = choose|i: int|
                out_at(ch.friends.out_friends@, k, i) && out_is_connected(
                    ch.friends.out_friends@[i].status,
                );
            if exists|j: int|
                in_at(ch.friends.in_friends@, k, j) && ch.friends.in_friends@[j].status is Listening {
                let j = choose|j: int|
                    in_at(ch.friends.in_friends@, k, j)
                        && ch.friends.in_friends@[j].status is Listening;
                assert(ch.friends.in_friends@[j].public_key@ == ch.friends.out_friends@[i].public_key@);
            } else {
                let j = choose|j: int|
                    out_at(ch.friends.out_friends@, k, j)
                        && ch.friends.out_friends@[j].status is Connecting;
                assert(i != j);
            }
        }
    }
    if ch.friends.has_in(k) && ch.friends.has_out(k) {
        let i = choose|i: int| in_at(ch.friends.in_friends@, k, i);
        let j = choose|j: int| out_at(ch.friends.out_friends@, k, j);
        assert(ch.friends.in_friends@[i].public_key@ == ch.friends.out_friends@[j].public_key@);
    }
}

/// The role follows the key order: in a well-formed channeler a friend whose
/// key is above ours is one that connects to us, and every other friend is
/// one that we connect to.
pub proof fn lemma_role_by_key_order(ch: Channeler, k: Seq<u8>)
    requires
        ch.wf(),
    ensures
        ch.friends.has_in(k) ==> bytes_lt(ch.local_public_key@, k),
        ch.friends.has_out(k) ==> !bytes_lt(ch.local_public_key@, k),
{
    if ch.friends.has_in(k) {
        let i = choose|i: int| in_at(ch.friends.in_friends@, k, i);
        assert(bytes_lt(ch.local_public_key@, ch.friends.in_friends@[i].public_key@));
    }
    if ch.friends.has_out(k) {
        let i = choose|i: int| out_at(ch.friends.out_friends@, k, i);
        assert(!bytes_lt(ch.local_public_key@, ch.friends.out_friends@[i].public_key@));
    }
}

} // verus!
