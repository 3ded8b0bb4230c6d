use vstd::prelude::*;

use crate::ids::{append_bytes, HashResult, RandValue, Signature};
use crate::keys::{bytes_lt, lemma_tie_break_symmetric, PublicKey};
use crate::operations::{encode_operations, ops_bytes, TcOp};
use crate::primitives::{be_bytes, sha512_256_of, sha_512_256, write_u128_be};

verus! {

/// The signed message that moves the turn to the other side.
#[derive(Debug)]
pub struct MoveToken {
    /// The token of the message this one answers.
    pub old_token: HashResult,
    pub operations: Vec<TcOp>,
    pub rand_nonce: RandValue,
    pub move_token_counter: u128,
    /// The sender's signature over all of the above.
    pub signature: Signature,
}

/// What is kept of a received move token.
#[derive(Debug, Clone, Copy)]
pub struct MoveTokenHashed {
    pub old_token: HashResult,
    pub operations_hash: HashResult,
    pub rand_nonce: RandValue,
    pub move_token_counter: u128,
    /// The token that the next move must chain from.
    pub new_token: HashResult,
}

/// The bytes a move token's signature covers: the previous token, the hash
/// of the operations (which name every currency they touch), the nonce, and
/// the counter as 16 big-endian bytes.
pub open spec fn move_token_bytes(
    old_token: Seq<u8>,
    ops: Seq<TcOp>,
    rand_nonce: Seq<u8>,
    counter: u128,
) -> Seq<u8> {
    old_token + sha512_256_of(ops_bytes(ops)) + rand_nonce + be_bytes(counter as nat, 16)
}

/// The token of a move: the hash of the signed bytes and the signature.
pub open spec fn token_of(mt: MoveToken) -> Seq<u8> {
    sha512_256_of(
        move_token_bytes(mt.old_token@, mt.operations@, mt.rand_nonce@, mt.move_token_counter)
            + mt.signature@,
    )
}

/// `h` is what is kept of `mt`.
pub open spec fn is_hashed_of(h: MoveTokenHashed, mt: MoveToken) -> bool {
    &&& h.old_token == mt.old_token
    &&& h.operations_hash@ == sha512_256_of(ops_bytes(mt.operations@))
    &&& h.rand_nonce == mt.rand_nonce
    &&& h.move_token_counter == mt.move_token_counter
    &&& h.new_token@ == token_of(mt)
}

/// The buffer that the sender of a move token signs.
pub fn create_move_token_buffer(
    old_token: &HashResult,
    operations: &Vec<TcOp>,
    rand_nonce: &RandValue,
    move_token_counter: u128,
) -> (r: Vec<u8>)
    ensures
        r@ == move_token_bytes(old_token@, operations@, rand_nonce@, move_token_counter),
{
    let mut buf: Vec<u8> = Vec::new();
    append_bytes(&mut buf, &old_token.bytes);
    let encoded = encode_operations(operations);
    let ops_hash = sha_512_256(encoded.as_slice());
    append_bytes(&mut buf, &ops_hash.bytes);
    append_bytes(&mut buf, &rand_nonce.bytes);
    write_u128_be(&mut buf, move_token_counter);
    assert(buf@ =~= move_token_bytes(old_token@, operations@, rand_nonce@, move_token_counter));
    buf
}

/// Keeps what matters of a move token, its own token included.
pub fn hash_move_token(mt: &MoveToken) -> (r: MoveTokenHashed)
    ensures
        is_hashed_of(r, *mt),
{
    let mut buf = create_move_token_buffer(
        &mt.old_token,
        &mt.operations,
        &mt.rand_nonce,
        mt.move_token_counter,
    );
    append_bytes(&mut buf, &mt.signature.bytes);
    let new_token = sha_512_256(buf.as_slice());
    let encoded = encode_operations(&mt.operations);
    let operations_hash = sha_512_256(encoded.as_slice());
    MoveTokenHashed {
        old_token: mt.old_token,
        operations_hash,
        rand_nonce: mt.rand_nonce,
        move_token_counter: mt.move_token_counter,
        new_token,
    }
}

/// The two keys, lower first.
pub open spec fn key_pair_bytes(a: Seq<u8>, b: Seq<u8>) -> Seq<u8> {
    if bytes_lt(a, b) {
        a + b
    } else {
        b + a
    }
}

/// The first move of a channel between two keys: it answers the hash of
/// the two keys, lower first, carries nothing, and has counter zero, an
/// all-zero nonce and an all-zero signature. Both sides compute it alike.
pub open spec fn is_initial_move_token(mt: MoveToken, a: Seq<u8>, b: Seq<u8>) -> bool {
    &&& mt.old_token@ == sha512_256_of(key_pair_bytes(a, b))
    &&& mt.operations@.len() == 0
    &&& mt.rand_nonce@ == Seq::new(16, |i: int| 0u8)
    &&& mt.move_token_counter == 0
    &&& mt.signature@ == Seq::new(64, |i: int| 0u8)
}

/// The token of the first move of the channel between `a` and `b`.
pub open spec fn initial_token(a: Seq<u8>, b: Seq<u8>) -> Seq<u8> {
    sha512_256_of(
        move_token_bytes(
            sha512_256_of(key_pair_bytes(a, b)),
            Seq::<TcOp>::empty(),
            Seq::new(16, |i: int| 0u8),
            0,
        ) + Seq::new(64, |i: int| 0u8),
    )
}

/// The token of a first move depends on the two keys alone.
pub proof fn lemma_initial_token(mt: MoveToken, a: Seq<u8>, b: Seq<u8>)
    requires
        is_initial_move_token(mt, a, b),
    ensures
        token_of(mt) == initial_token(a, b),
{
    assert(mt.operations@ =~= Seq::<TcOp>::empty());
}

/// The first move of the channel between `a` and `b`.
pub fn initial_move_token(a: &PublicKey, b: &PublicKey) -> (r: MoveToken)
    ensures
        is_initial_move_token(r, a@, b@),
{
    let mut buf: Vec<u8> = Vec::new();
    if a.less_than(b) {
        append_bytes(&mut buf, &a.bytes);
        append_bytes(&mut buf, &b.bytes);
    } else {
        append_bytes(&mut buf, &b.bytes);
        append_bytes(&mut buf, &a.bytes);
    }
    let old_token = sha_512_256(buf.as_slice());
    let r = MoveToken {
        old_token,
        operations: Vec::new(),
        rand_nonce: RandValue { bytes: [0u8; 16] },
        move_token_counter: 0,
        signature: Signature { bytes: [0u8; 64] },
    };
    assert(r.rand_nonce@ =~= Seq::new(16, |i: int| 0u8));
    assert(r.signature@ =~= Seq::new(64, |i: int| 0u8));
    r
}

/// Whether two tokens are equal.
pub fn same_token(a: &HashResult, b: &HashResult) -> (r: bool)
    ensures
        r == (a@ == b@),
{
    crate::ids::same_bytes(&a.bytes, &b.bytes)
}

/// Both ends of a channel compute the same first move: for two distinct
/// keys the pair is ordered the same way from either side.
pub proof fn lemma_initial_tokens_agree(a: Seq<u8>, b: Seq<u8>)
    requires
        a.len() == b.len(),
        a != b,
    ensures
        key_pair_bytes(a, b) == key_pair_bytes(b, a),
        initial_token(a, b) == initial_token(b, a),
{
    lemma_tie_break_symmetric(a, b);
}

/// What is kept of a received move holds its token, and the buffer of the
/// next move opens with it: the token of one move is the old token of the
/// move that answers it.
pub proof fn lemma_next_move_chains(
    h: MoveTokenHashed,
    mt: MoveToken,
    ops: Seq<TcOp>,
    rand_nonce: Seq<u8>,
    counter: u128,
)
    requires
        is_hashed_of(h, mt),
    ensures
        h.new_token@ == token_of(mt),
        move_token_bytes(h.new_token@, ops, rand_nonce, counter).subrange(0, 32) == token_of(mt),
{
    assert(h.new_token@.len() == 32);
    assert(move_token_bytes(h.new_token@, ops, rand_nonce, counter).subrange(0, 32) =~= h.new_token@);
}

} // verus!
