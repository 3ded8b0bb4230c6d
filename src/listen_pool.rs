use vstd::prelude::*;

use crate::channeler::LpConfig;
use crate::keys::PublicKey;

verus! {

/// A friend allowed to connect to us, with the relays on which it may.
#[derive(Debug)]
pub struct AuthorizedFriend<B> {
    pub public_key: PublicKey,
    pub relay_addresses: Vec<B>,
}

/// The listen pool's configuration: our relay addresses, one listener
/// each, and the friends whose connections it lets through.
#[derive(Debug)]
pub struct ListenPool<B> {
    pub local_addresses: Vec<B>,
    pub friends: Vec<AuthorizedFriend<B>>,
}

/// Some authorized friend has key `k`.
pub open spec fn is_authorized<B>(s: Seq<AuthorizedFriend<B>>, k: Seq<u8>) -> bool {
    exists|i: int| 0 <= i < s.len() && s[i].public_key@ == k
}

impl<B> ListenPool<B> {
    /// No key stands twice among the authorized friends.
    pub open spec fn wf(&self) -> bool {
        forall|i: int, j: int|
            0 <= i < self.friends@.len() && 0 <= j < self.friends@.len() && i != j
                ==> self.friends@[i].public_key@ != self.friends@[j].public_key@
    }

    /// A pool with no listeners and no authorized friend.
    pub fn new() -> (r: ListenPool<B>)
        ensures
            r.wf(),
            r.local_addresses@.len() == 0,
            r.friends@.len() == 0,
    {
        ListenPool { local_addresses: Vec::new(), friends: Vec::new() }
    }

    fn find(&self, k: &PublicKey) -> (r: Option<usize>)
        ensures
            r matches Some(i) ==> i < self.friends@.len() && self.friends@[i as int].public_key@ == k@,
            r is None ==> !is_authorized(self.friends@, k@),
    {
        let mut i: usize = 0;
        while i < self.friends.len()
            invariant
                0 <= i <= self.friends@.len(),
                forall|j: int| 0 <= j < i ==> self.friends@[j].public_key@ != k@,
            decreases self.friends@.len() - i,
        {
            if self.friends[i].public_key.equals(k) {
                return Some(i);
            }
            i = i + 1;
        }
        None
    }

    /// Applies a configuration: new local addresses replace the old ones; an
    /// update authorizes a friend, or replaces its relays; a removal
    /// withdraws its authorization.
    pub fn handle_config(&mut self, config: LpConfig<B>)
        requires
            old(self).wf(),
        ensures
            final(self).wf(),
            match config {
                LpConfig::SetLocalAddresses(a) => final(self).local_addresses == a
                    && final(self).friends@ == old(self).friends@,
                LpConfig::UpdateFriend((k, relays)) => {
                    &&& final(self).local_addresses == old(self).local_addresses
                    &&& is_authorized(final(self).friends@, k@)
                    &&& forall|k2: Seq<u8>|
                        k2 != k@ ==> (is_authorized(final(self).friends@, k2) == is_authorized(
                            old(self).friends@,
                            k2,
                        ))
                    &&& exists|i: int|
                        0 <= i < final(self).friends@.len() && final(self).friends@[i].public_key@
                            == k@ && final(self).friends@[i].relay_addresses == relays
                },
                LpConfig::RemoveFriend(k) => {
                    &&& final(self).local_addresses == old(self).local_addresses
                    &&& !is_authorized(final(self).friends@, k@)
                    &&& forall|k2: Seq<u8>|
                        k2 != k@ ==> (is_authorized(final(self).friends@, k2) == is_authorized(
                            old(self).friends@,
                            k2,
                        ))
                },
            },
    {
        match config {
            LpConfig::SetLocalAddresses(a) => {
                self.local_addresses = a;
            },
            LpConfig::UpdateFriend((k, relays)) => {
                let ghost before = self.friends@;
                match self.find(&k) {
                    Some(i) => {
                        let mut entry = self.friends.remove(i);
                        entry.relay_addresses = relays;
                        self.friends.insert(i, entry);
                        assert(self.friends@ =~= before.update(i as int, self.friends@[i as int]));
                        assert(self.friends@[i as int].public_key == before[i as int].public_key);
                        assert forall|k2: Seq<u8>| k2 != k@ implies (is_authorized(self.friends@, k2)
                            == is_authorized(before, k2)) by {
                            if is_authorized(before, k2) {
                                let j = choose|j: int| 0 <= j < before.len() && before[j].public_key@ == k2;
                                assert(self.friends@[j].public_key@ == k2);
                            }
                            if is_authorized(self.friends@, k2) {
                                let j = choose|j: int|
                                    0 <= j < self.friends@.len() && self.friends@[j].public_key@ == k2;
                                assert(before[j].public_key@ == k2);
                            }
                        }
                    },
                    None => {
                        proof {
                            assert forall|j: int| 0 <= j < before.len() implies before[j].public_key@
                                != k@ by {
                                if before[j].public_key@ == k@ {
                                    assert(is_authorized(before, k@));
                                }
                            }
                        }
                        self.friends.push(AuthorizedFriend { public_key: k, relay_addresses: relays });
                        let n = self.friends.len() - 1;
                        assert(self.friends@[n as int].public_key@ == k@);
                        assert forall|k2: Seq<u8>| k2 != k@ implies (is_authorized(self.friends@, k2)
                            == is_authorized(before, k2)) by {
                            if is_authorized(before, k2) {
                                let j = choose|j: int| 0 <= j < before.len() && before[j].public_key@ == k2;
                                assert(self.friends@[j] == before[j]);
                            }
                            if is_authorized(self.friends@, k2) {
                                let j = choose|j: int|
                                    0 <= j < self.friends@.len() && self.friends@[j].public_key@ == k2;
                                assert(j < before.len());
                                assert(self.friends@[j] == before[j]);
                            }
                        }
                    },
                }
            },
            LpConfig::RemoveFriend(k) => {
                let ghost before = self.friends@;
                match self.find(&k) {
                    Some(i) => {
                        self.friends.remove(i);
                        assert(forall|j: int|
                            0 <= j < self.friends@.len() ==> self.friends@[j] == before[if j < i {
                                j
                            } else {
                                j + 1
                            }]);
                        assert forall|j: int| 0 <= j < self.friends@.len() implies self.friends@[j].public_key@
                            != k@ by {
                            let j2 = if j < i { j } else { j + 1 };
                            assert(j2 != i);
                            assert(before[j2].public_key@ != before[i as int].public_key@);
                        }
                        assert forall|k2: Seq<u8>| k2 != k@ implies (is_authorized(self.friends@, k2)
                            == is_authorized(before, k2)) by {
                            if is_authorized(before, k2) {
                                let j = choose|j: int| 0 <= j < before.len() && before[j].public_key@ == k2;
                                assert(j != i);
                                let j3 = if j < i { j } else { j - 1 };
                                assert(self.friends@[j3] == before[j]);
                            }
                            if is_authorized(self.friends@, k2) {
                                let j = choose|j: int|
                                    0 <= j < self.friends@.len() && self.friends@[j].public_key@ == k2;
                                let j2 = if j < i { j } else { j + 1 };
                                assert(before[j2].public_key@ == k2);
                            }
                        }
                    },
                    None => {},
                }
            },
        }
    }

    /// Whether a connection whose handshake announced `k` may go through:
    /// exactly when `k` is an authorized friend.
    pub fn accepts(&self, k: &PublicKey) -> (r: bool)
        ensures
            r == is_authorized(self.friends@, k@),
    {
        self.find(k).is_some()
    }
}

} // verus!
