use vstd::prelude::*;

verus! {

/// Identifier of a payment request.
#[derive(Clone, Copy, Debug)]
pub struct Uid {
    pub bytes: [u8; 16],
}

/// Identifier of an invoice.
#[derive(Clone, Copy, Debug)]
pub struct InvoiceId {
    pub bytes: [u8; 32],
}

/// A random nonce.
#[derive(Clone, Copy, Debug)]
pub struct RandValue {
    pub bytes: [u8; 16],
}

/// An Ed25519 signature.
#[derive(Clone, Copy, Debug)]
pub struct Signature {
    pub bytes: [u8; 64],
}

/// A SHA-512/256 digest.
#[derive(Clone, Copy, Debug)]
pub struct HashResult {
    pub bytes: [u8; 32],
}

/// A short opaque identifier of a currency.
#[derive(Clone, Copy, Debug, PartialEq, Eq, Structural)]
pub struct Currency {
    pub code: u64,
}

impl Uid {
    pub open spec fn view(&self) -> Seq<u8> {
        self.bytes@
    }
}

impl InvoiceId {
    pub open spec fn view(&self) -> Seq<u8> {
        self.bytes@
    }
}

impl RandValue {
    pub open spec fn view(&self) -> Seq<u8> {
        self.bytes@
    }
}

impl Signature {
    pub open spec fn view(&self) -> Seq<u8> {
        self.bytes@
    }
}

impl HashResult {
    pub open spec fn view(&self) -> Seq<u8> {
        self.bytes@
    }
}

/// Whether two byte arrays of one length hold the same bytes.
pub fn same_bytes<const N: usize>(a: &[u8; N], b: &[u8; N]) -> (r: bool)
    ensures
        r == (a@ == b@),
{
    let mut i: usize = 0;
    while i < N
        invariant
            0 <= i <= N,
            a@.len() == N,
            b@.len() == N,
            forall|j: int| 0 <= j < i ==> a@[j] == b@[j],
        decreases N - i,
    {
        if a[i] != b[i] {
            return false;
        }
        i = i + 1;
    }
    assert(a@ =~= b@);
    true
}

/// Appends `data` to `buf`.
pub fn append_bytes(buf: &mut Vec<u8>, data: &[u8])
    ensures
        final(buf)@ == old(buf)@ + data@,
{
    let mut i: usize = 0;
    while i < data.len()
        invariant
            0 <= i <= data@.len(),
            buf@ == old(buf)@ + data@.subrange(0, i as int),
        decreases data@.len() - i,
    {
        buf.push(data[i]);
        assert(data@.subrange(0, i + 1) =~= data@.subrange(0, i as int).push(data@[i as int]));
        i = i + 1;
    }
    assert(data@.subrange(0, data@.len() as int) =~= data@);
}

} // verus!
