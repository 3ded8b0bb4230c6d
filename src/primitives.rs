use vstd::prelude::*;

use byteorder::{ByteOrder, WriteBytesExt};
use sha2::Digest;

use crate::ids::{HashResult, Signature};
use crate::keys::PublicKey;

verus! {

/// The SHA-512/256 digest of `data`.
pub uninterp spec fn sha512_256_of(data: Seq<u8>) -> Seq<u8>;

/// Whether `sig` is a valid Ed25519 signature by `pk` over `msg`.
pub uninterp spec fn signature_valid(msg: Seq<u8>, pk: Seq<u8>, sig: Seq<u8>) -> bool;

/// The `len` low bytes of `n`, most significant first.
pub open spec fn be_bytes(n: nat, len: nat) -> Seq<u8>
    decreases len,
{
    if len == 0 {
        Seq::empty()
    } else {
        be_bytes(n / 256, (len - 1) as nat).push((n % 256) as u8)
    }
}

/// Relies on sha2's `Sha512_256::digest`: the 32-byte SHA-512/256 digest,
/// a function of the input bytes alone.
#[verifier::external_body]
pub(crate) fn sha_512_256(data: &[u8]) -> (r: HashResult)
    ensures
        r@ == sha512_256_of(data@),
{
    let digest = sha2::Sha512_256::digest(data);
    let mut bytes = [0u8; 32];
    bytes.copy_from_slice(digest.as_slice());
    HashResult { bytes }
}

/// Relies on ed25519-dalek's `VerifyingKey::from_bytes` and
/// `VerifyingKey::verify_strict`: whether `signature` is a valid signature
/// by `public_key` over `message`; a key that is no curve point verifies
/// nothing.
#[verifier::external_body]
pub(crate) fn verify_signature(message: &[u8], public_key: &PublicKey, signature: &Signature) -> (r:
    bool)
    ensures
        r == signature_valid(message@, public_key@, signature@),
{
    match ed25519_dalek::VerifyingKey::from_bytes(&public_key.bytes) {
        Ok(key) => key.verify_strict(message, &ed25519_dalek::Signature::from_bytes(
            &signature.bytes,
        )).is_ok(),
        Err(_) => false,
    }
}

/// Relies on byteorder's `WriteBytesExt::write_u128::<BigEndian>`: appends
/// the 16 bytes of `n`, most significant first; writing into a `Vec` does
/// not fail.
#[verifier::external_body]
pub(crate) fn write_u128_be(buf: &mut Vec<u8>, n: u128)
    ensures
        final(buf)@ == old(buf)@ + be_bytes(n as nat, 16),
{
    let _ = buf.write_u128::<byteorder::BigEndian>(n);
}

/// Relies on byteorder's `BigEndian::read_u128`: the integer whose 16
/// bytes, most significant first, open `buf`; it panics on a shorter buffer,
/// which the precondition rules out.
#[verifier::external_body]
pub(crate) fn read_u128_be(buf: &[u8]) -> (r: u128)
    requires
        buf@.len() >= 16,
    ensures
        be_bytes(r as nat, 16) == buf@.subrange(0, 16),
{
    byteorder::BigEndian::read_u128(buf)
}

/// 256 to the power `k`.
pub open spec fn pow256(k: nat) -> nat
    decreases k,
{
    if k == 0 {
        1
    } else {
        256 * pow256((k - 1) as nat)
    }
}

/// `k` big-endian bytes determine a number below `256^k`.
pub proof fn lemma_be_bytes_injective(n: nat, m: nat, k: nat)
    requires
        n < pow256(k),
        m < pow256(k),
        be_bytes(n, k) == be_bytes(m, k),
    ensures
        n == m,
    decreases k,
{
    if k > 0 {
        let p = pow256((k - 1) as nat);
        assert(be_bytes(n, k).last() == (n % 256) as u8);
        assert(be_bytes(m, k).last() == (m % 256) as u8);
        assert(be_bytes(n, k).drop_last() == be_bytes(n / 256, (k - 1) as nat));
        assert(be_bytes(m, k).drop_last() == be_bytes(m / 256, (k - 1) as nat));
        assert(n / 256 < p) by (nonlinear_arith)
            requires
                n < 256 * p,
        ;
        assert(m / 256 < p) by (nonlinear_arith)
            requires
                m < 256 * p,
        ;
        lemma_be_bytes_injective(n / 256, m / 256, (k - 1) as nat);
        assert(n == 256 * (n / 256) + n % 256) by (nonlinear_arith);
        assert(m == 256 * (m / 256) + m % 256) by (nonlinear_arith);
    }
}

/// Every `u128` is below `256^16`, and `k` encoded bytes are `k` bytes.
pub proof fn lemma_be_bytes_len(n: nat, k: nat)
    ensures
        be_bytes(n, k).len() == k,
    decreases k,
{
    if k > 0 {
        lemma_be_bytes_len(n / 256, (k - 1) as nat);
    }
}

/// Every `u128` fits in 16 bytes.
pub proof fn lemma_u128_below_pow256(n: u128)
    ensures
        (n as nat) < pow256(16),
{
    reveal_with_fuel(pow256, 17);
    assert(pow256(16) == u128::MAX as nat + 1);
}

} // verus!
