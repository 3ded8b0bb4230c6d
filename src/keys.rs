use vstd::prelude::*;

verus! {

/// Length in bytes of a public key.
pub const PUBLIC_KEY_LEN: usize = 32;

/// A 32-byte identity. Keys are totally ordered, byte by byte.
#[derive(Clone, Copy, Debug)]
pub struct PublicKey {
    pub bytes: [u8; 32],
}

/// Lexicographic "strictly less" on two byte sequences of the same length.
pub open spec fn bytes_lt(a: Seq<u8>, b: Seq<u8>) -> bool {
    exists|i: int|
        0 <= i < a.len() && i < b.len() && a[i] < b[i] && forall|j: int|
            0 <= j < i ==> a[j] == b[j]
}

impl PublicKey {
    pub open spec fn view(&self) -> Seq<u8> {
        self.bytes@
    }

    /// Builds a key from its bytes.
    pub fn new(bytes: [u8; 32]) -> (r: PublicKey)
        ensures
            r@ == bytes@,
    {
        PublicKey { bytes }
    }

    /// Whether the two keys hold the same bytes.
    pub fn equals(&self, other: &PublicKey) -> (r: bool)
        ensures
            r == (self@ == other@),
    {
        let mut i: usize = 0;
        while i < 32
            invariant
                0 <= i <= 32,
                self@.len() == 32,
                other@.len() == 32,
                forall|j: int| 0 <= j < i ==> self@[j] == other@[j],
            decreases 32 - i,
        {
            if self.bytes[i] != other.bytes[i] {
                return false;
            }
            i = i + 1;
        }
        assert(self@ =~= other@);
        true
    }

    /// Whether `self` comes strictly before `other` in the total order of keys.
    pub fn less_than(&self, other: &PublicKey) -> (r: bool)
        ensures
            r == bytes_lt(self@, other@),
    {
        let mut i: usize = 0;
        while i < 32
            invariant
                0 <= i <= 32,
                self@.len() == 32,
                other@.len() == 32,
                forall|j: int| 0 <= j < i ==> self@[j] == other@[j],
            decreases 32 - i,
        {
            if self.bytes[i] < other.bytes[i] {
                assert(0 <= i < self@.len() && i < other@.len() && self@[i as int] < other@[i as int]
                    && forall|j: int| 0 <= j < i ==> self@[j] == other@[j]);
                return true;
            }
            if self.bytes[i] > other.bytes[i] {
                assert forall|k: int|
                    !(0 <= k < self@.len() && k < other@.len() && self@[k] < other@[k] && forall|
                        j: int,
                    | 0 <= j < k ==> self@[j] == other@[j]) by {
                    if 0 <= k < self@.len() && k < other@.len() && self@[k] < other@[k] && forall|
                        j: int,
                    | 0 <= j < k ==> self@[j] == other@[j] {
                        if k > i {
                            assert(self@[i as int] == other@[i as int]);
                        }
                    }
                }
                return false;
            }
            i = i + 1;
        }
        assert forall|k: int|
            !(0 <= k < self@.len() && k < other@.len() && self@[k] < other@[k] && forall|j: int|
                0 <= j < k ==> self@[j] == other@[j]) by {
            if 0 <= k < self@.len() && k < other@.len() {
                assert(self@[k] == other@[k]);
            }
        }
        false
    }
}

/// The order of keys is irreflexive and asymmetric, so exactly one of two
/// distinct keys comes first.
pub proof fn lemma_bytes_lt_asymmetric(a: Seq<u8>, b: Seq<u8>)
    requires
        a.len() == b.len(),
    ensures
        !(bytes_lt(a, b) && bytes_lt(b, a)),
        !bytes_lt(a, a),
{
    if bytes_lt(a, b) && bytes_lt(b, a) {
        let i = choose|i: int|
            0 <= i < a.len() && i < b.len() && a[i] < b[i] && forall|j: int|
                0 <= j < i ==> a[j] == b[j];
        let k = choose|k: int|
            0 <= k < b.len() && k < a.len() && b[k] < a[k] && forall|j: int|
                0 <= j < k ==> b[j] == a[j];
        if i < k {
            assert(b[i] == a[i]);
        } else if k < i {
            assert(a[k] == b[k]);
        }
    }
}

/// Two byte sequences of one length that differ somewhere differ at a
/// first place, before which they agree.
pub proof fn lemma_first_difference(a: Seq<u8>, b: Seq<u8>, n: int)
    requires
        a.len() == b.len(),
        0 <= n <= a.len(),
        exists|i: int| 0 <= i < n && a[i] != b[i],
    ensures
        exists|i: int| 0 <= i < n && a[i] != b[i] && forall|j: int| 0 <= j < i ==> a[j] == b[j],
    decreases n,
{
    if exists|i: int| 0 <= i < n - 1 && a[i] != b[i] {
        lemma_first_difference(a, b, n - 1);
        let i = choose|i: int|
            0 <= i < n - 1 && a[i] != b[i] && forall|j: int| 0 <= j < i ==> a[j] == b[j];
        assert(0 <= i < n && a[i] != b[i] && forall|j: int| 0 <= j < i ==> a[j] == b[j]);
    } else {
        assert(a[n - 1] != b[n - 1]);
        assert(forall|j: int| 0 <= j < n - 1 ==> a[j] == b[j]);
    }
}

/// The key order breaks every tie the same way on both sides: of two
/// distinct keys exactly one comes first, so exactly one of the two peers
/// waits for the other's connection, and a key never comes before itself.
pub proof fn lemma_tie_break_symmetric(a: Seq<u8>, b: Seq<u8>)
    requires
        a.len() == b.len(),
    ensures
        a != b ==> (bytes_lt(a, b) <==> !bytes_lt(b, a)),
        !bytes_lt(a, a),
{
    lemma_bytes_lt_asymmetric(a, b);
    lemma_bytes_lt_asymmetric(a, a);
    if a != b {
        if forall|i: int| 0 <= i < a.len() ==> a[i] == b[i] {
            assert(a =~= b);
        }
        lemma_first_difference(a, b, a.len() as int);
        let i = choose|i: int|
            0 <= i < a.len() && a[i] != b[i] && forall|j: int| 0 <= j < i ==> a[j] == b[j];
        if a[i] < b[i] {
            assert(bytes_lt(a, b));
        } else {
            assert(forall|j: int| 0 <= j < i ==> b[j] == a[j]);
            assert(bytes_lt(b, a));
        }
    }
}

} // verus!
