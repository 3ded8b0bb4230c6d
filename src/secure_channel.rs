use vstd::prelude::*;

use crate::ids::{append_bytes, RandValue, Signature};
use crate::keys::PublicKey;
use crate::ids::same_bytes;
use crate::primitives::{
    be_bytes, lemma_be_bytes_injective, lemma_be_bytes_len, lemma_u128_below_pow256, read_u128_be,
    signature_valid, verify_signature, write_u128_be,
};

verus! {

/// A Diffie-Hellman public key.
#[derive(Debug, Clone, Copy)]
pub struct DhPublicKey {
    pub bytes: [u8; 32],
}

/// A key-derivation salt.
#[derive(Debug, Clone, Copy)]
pub struct Salt {
    pub bytes: [u8; 32],
}

impl DhPublicKey {
    pub open spec fn view(&self) -> Seq<u8> {
        self.bytes@
    }
}

impl Salt {
    pub open spec fn view(&self) -> Seq<u8> {
        self.bytes@
    }
}

/// First handshake message: a nonce and the sender's identity.
#[derive(Debug, Clone, Copy)]
pub struct ExchangeRandNonce {
    pub rand_nonce: RandValue,
    pub public_key: PublicKey,
}

/// Second handshake message: a DH key, the peer's nonce echoed, a salt, and
/// the identity's signature over the three.
#[derive(Debug, Clone, Copy)]
pub struct ExchangeDh {
    pub dh_public_key: DhPublicKey,
    pub rand_nonce: RandValue,
    pub key_salt: Salt,
    pub signature: Signature,
}

/// A proposal of a new key.
#[derive(Debug, Clone, Copy)]
pub struct Rekey {
    pub dh_public_key: DhPublicKey,
    pub key_salt: Salt,
}

/// User bytes carried by a data frame.
#[derive(Debug)]
pub struct PlainData(pub Vec<u8>);

/// What a data frame carries.
#[derive(Debug)]
pub enum ChannelContent {
    Rekey(Rekey),
    User(PlainData),
}

/// A data frame of an established channel.
#[derive(Debug)]
pub struct ChannelMessage {
    pub rand_padding: Vec<u8>,
    pub content: ChannelContent,
}

/// Why bytes do not decode to a message.
#[derive(Debug, Clone, Copy, PartialEq, Eq, Structural)]
pub enum DhSerializeError {
    /// The bytes are too short or too long for the message.
    InvalidLength,
    /// The content tag names no content.
    NotInSchema,
}

/// Wire tag of a key proposal.
pub const CONTENT_REKEY: u8 = 0;
/// Wire tag of user bytes.
pub const CONTENT_USER: u8 = 1;

/// The nonce, then the key.
pub open spec fn exchange_rand_nonce_bytes(m: ExchangeRandNonce) -> Seq<u8> {
    m.rand_nonce@ + m.public_key@
}

/// The DH key, the nonce, the salt, then the signature.
pub open spec fn exchange_dh_bytes(m: ExchangeDh) -> Seq<u8> {
    m.dh_public_key@ + m.rand_nonce@ + m.key_salt@ + m.signature@
}

/// The padding's length as 16 big-endian bytes, the padding, then a tag and
/// the content: a DH key and a salt, or the user bytes.
pub open spec fn channel_message_bytes(m: ChannelMessage) -> Seq<u8> {
    be_bytes(m.rand_padding@.len(), 16) + m.rand_padding@ + match m.content {
        ChannelContent::Rekey(r) => seq![CONTENT_REKEY] + r.dh_public_key@ + r.key_salt@,
        ChannelContent::User(PlainData(d)) => seq![CONTENT_USER] + d@,
    }
}

/// The bytes `data[start..start + N]` as an array.
pub fn take_array<const N: usize>(data: &[u8], start: usize) -> (r: [u8; N])
    requires
        start + N <= data@.len(),
    ensures
        r@ == data@.subrange(start as int, start + N),
{
    let mut r = [0u8; N];
    let len = data.len();
    let mut i: usize = 0;
    while i < N
        invariant
            0 <= i <= N,
            len == data@.len(),
            start + N <= data@.len(),
            r@.len() == N,
            forall|j: int| 0 <= j < i ==> r@[j] == data@[start + j],
        decreases N - i,
    {
        r[i] = data[start + i];
        i = i + 1;
    }
    assert(r@ =~= data@.subrange(start as int, start + N));
    r
}

/// Encodes the first handshake message.
pub fn serialize_exchange_rand_nonce(exchange_rand_nonce: &ExchangeRandNonce) -> (r: Vec<u8>)
    ensures
        r@ == exchange_rand_nonce_bytes(*exchange_rand_nonce),
{
    let mut r: Vec<u8> = Vec::new();
    append_bytes(&mut r, &exchange_rand_nonce.rand_nonce.bytes);
    append_bytes(&mut r, &exchange_rand_nonce.public_key.bytes);
    r
}

/// Decodes the first handshake message: exactly 48 bytes.
pub fn deserialize_exchange_rand_nonce(data: &[u8]) -> (r: Result<ExchangeRandNonce, DhSerializeError>)
    ensures
        r is Ok <==> data@.len() == 48,
        r matches Ok(m) ==> exchange_rand_nonce_bytes(m) == data@,
        r matches Err(e) ==> e == DhSerializeError::InvalidLength,
{
    if data.len() != 48 {
        return Err(DhSerializeError::InvalidLength);
    }
    let rand_nonce = RandValue { bytes: take_array::<16>(data, 0) };
    let public_key = PublicKey { bytes: take_array::<32>(data, 16) };
    let m = ExchangeRandNonce { rand_nonce, public_key };
    assert(exchange_rand_nonce_bytes(m) =~= data@);
    Ok(m)
}

/// Encodes the second handshake message.
pub fn serialize_exchange_dh(exchange_dh: &ExchangeDh) -> (r: Vec<u8>)
    ensures
        r@ == exchange_dh_bytes(*exchange_dh),
{
    let mut r: Vec<u8> = Vec::new();
    append_bytes(&mut r, &exchange_dh.dh_public_key.bytes);
    append_bytes(&mut r, &exchange_dh.rand_nonce.bytes);
    append_bytes(&mut r, &exchange_dh.key_salt.bytes);
    append_bytes(&mut r, &exchange_dh.signature.bytes);
    r
}

/// Decodes the second handshake message: exactly 144 bytes.
pub fn deserialize_exchange_dh(data: &[u8]) -> (r: Result<ExchangeDh, DhSerializeError>)
    ensures
        r is Ok <==> data@.len() == 144,
        r matches Ok(m) ==> exchange_dh_bytes(m) == data@,
        r matches Err(e) ==> e == DhSerializeError::InvalidLength,
{
    if data.len() != 144 {
        return Err(DhSerializeError::InvalidLength);
    }
    let dh_public_key = DhPublicKey { bytes: take_array::<32>(data, 0) };
    let rand_nonce = RandValue { bytes: take_array::<16>(data, 32) };
    let key_salt = Salt { bytes: take_array::<32>(data, 48) };
    let signature = Signature { bytes: take_array::<64>(data, 80) };
    let m = ExchangeDh { dh_public_key, rand_nonce, key_salt, signature };
    assert(exchange_dh_bytes(m) =~= data@);
    Ok(m)
}

/// Encodes a data frame.
pub fn serialize_channel_message(channel_message: &ChannelMessage) -> (r: Vec<u8>)
    ensures
        r@ == channel_message_bytes(*channel_message),
{
    let mut r: Vec<u8> = Vec::new();
    write_u128_be(&mut r, channel_message.rand_padding.len() as u128);
    append_bytes(&mut r, channel_message.rand_padding.as_slice());
    match &channel_message.content {
        ChannelContent::Rekey(rekey) => {
            r.push(CONTENT_REKEY);
            append_bytes(&mut r, &rekey.dh_public_key.bytes);
            append_bytes(&mut r, &rekey.key_salt.bytes);
        },
        ChannelContent::User(PlainData(data)) => {
            r.push(CONTENT_USER);
            append_bytes(&mut r, data.as_slice());
        },
    }
    assert(r@ =~= channel_message_bytes(*channel_message));
    r
}

/// Whether `data` is a data frame: a 16-byte length prefix `n`, `n` bytes
/// of padding, then a known tag, and for a key proposal exactly a key and a
/// salt after it.
pub open spec fn channel_message_well_formed(data: Seq<u8>) -> bool {
    exists|n: u128|
        #![trigger be_bytes(n as nat, 16)]
        {
            &&& data.len() >= 17
            &&& be_bytes(n as nat, 16) == data.subrange(0, 16)
            &&& 17 + n <= data.len()
            &&& (data[16 + n] == CONTENT_REKEY && data.len() == 17 + n + 64 || data[16 + n]
                == CONTENT_USER)
        }
}

/// Appends `data[start..end]`.
pub fn append_range(buf: &mut Vec<u8>, data: &[u8], start: usize, end: usize)
    requires
        start <= end <= data@.len(),
    ensures
        final(buf)@ == old(buf)@ + data@.subrange(start as int, end as int),
{
    let mut i: usize = start;
    while i < end
        invariant
            start <= i <= end,
            end <= data@.len(),
            buf@ == old(buf)@ + data@.subrange(start as int, i as int),
        decreases end - i,
    {
        buf.push(data[i]);
        assert(data@.subrange(start as int, i + 1) =~= data@.subrange(start as int, i as int).push(
            data@[i as int],
        ));
        i = i + 1;
    }
}

/// Decodes a data frame.
pub fn deserialize_channel_message(data: &[u8]) -> (r: Result<ChannelMessage, DhSerializeError>)
    ensures
        r is Ok <==> channel_message_well_formed(data@),
        r matches Ok(m) ==> channel_message_bytes(m) == data@,
{
    if data.len() < 17 {
        return Err(DhSerializeError::InvalidLength);
    }
    let n = read_u128_be(data);
    proof {
        lemma_u128_below_pow256(n);
        if channel_message_well_formed(data@) {
            let n2 = choose|n2: u128|
                #![trigger be_bytes(n2 as nat, 16)]
                {
                    &&& data@.len() >= 17
                    &&& be_bytes(n2 as nat, 16) == data@.subrange(0, 16)
                    &&& 17 + n2 <= data@.len()
                    &&& (data@[16 + n2] == CONTENT_REKEY && data@.len() == 17 + n2 + 64 || data@[16
                        + n2] == CONTENT_USER)
                };
            lemma_u128_below_pow256(n2);
            lemma_be_bytes_injective(n as nat, n2 as nat, 16);
        }
    }
    if n > (data.len() - 17) as u128 {
        return Err(DhSerializeError::InvalidLength);
    }
    let n = n as usize;
    let mut rand_padding: Vec<u8> = Vec::new();
    append_range(&mut rand_padding, data, 16, 16 + n);
    let tag = data[16 + n];
    let rest = 17 + n;
    let content = if tag == CONTENT_REKEY {
        if data.len() - rest != 64 {
            return Err(DhSerializeError::InvalidLength);
        }
        let dh_public_key = DhPublicKey { bytes: take_array::<32>(data, rest) };
        let key_salt = Salt { bytes: take_array::<32>(data, rest + 32) };
        ChannelContent::Rekey(Rekey { dh_public_key, key_salt })
    } else if tag == CONTENT_USER {
        let mut d: Vec<u8> = Vec::new();
        append_range(&mut d, data, rest, data.len());
        ChannelContent::User(PlainData(d))
    } else {
        return Err(DhSerializeError::NotInSchema);
    };
    let m = ChannelMessage { rand_padding, content };
    proof {
        lemma_be_bytes_len(n as nat, 16);
    }
    assert(channel_message_bytes(m) =~= data@);
    Ok(m)
}

/// Two data frames carry the same padding and content.
pub open spec fn channel_message_same(a: ChannelMessage, b: ChannelMessage) -> bool {
    &&& a.rand_padding@ == b.rand_padding@
    &&& match (a.content, b.content) {
        (ChannelContent::Rekey(x), ChannelContent::Rekey(y)) => x.dh_public_key@ == y.dh_public_key@
            && x.key_salt@ == y.key_salt@,
        (ChannelContent::User(PlainData(x)), ChannelContent::User(PlainData(y))) => x@ == y@,
        _ => false,
    }
}

/// Decoding an encoded data frame gives it back: its bytes are well formed,
/// and a frame with the same bytes carries the same padding and content.
pub proof fn lemma_channel_message_round_trip(a: ChannelMessage, b: ChannelMessage)
    requires
        a.rand_padding@.len() <= u128::MAX,
        b.rand_padding@.len() <= u128::MAX,
    ensures
        channel_message_well_formed(channel_message_bytes(a)),
        channel_message_bytes(a) == channel_message_bytes(b) ==> channel_message_same(a, b),
{
    let e = channel_message_bytes(a);
    let na = a.rand_padding@.len();
    let nb = b.rand_padding@.len();
    lemma_be_bytes_len(na, 16);
    lemma_be_bytes_len(nb, 16);
    let n = na as u128;
    assert(e.subrange(0, 16) =~= be_bytes(n as nat, 16));
    assert(e[16 + n] == match a.content {
        ChannelContent::Rekey(_) => CONTENT_REKEY,
        ChannelContent::User(_) => CONTENT_USER,
    });
    if channel_message_bytes(a) == channel_message_bytes(b) {
        let f = channel_message_bytes(b);
        assert(f.subrange(0, 16) =~= be_bytes(nb, 16));
        lemma_u128_below_pow256(n);
        lemma_u128_below_pow256(nb as u128);
        lemma_be_bytes_injective(na, nb, 16);
        assert(a.rand_padding@ =~= e.subrange(16, 16 + na as int));
        assert(b.rand_padding@ =~= f.subrange(16, 16 + nb as int));
        assert(f[16 + n] == match b.content {
            ChannelContent::Rekey(_) => CONTENT_REKEY,
            ChannelContent::User(_) => CONTENT_USER,
        });
        match (a.content, b.content) {
            (ChannelContent::Rekey(x), ChannelContent::Rekey(y)) => {
                assert(x.dh_public_key@ =~= e.subrange(17 + na as int, 49 + na as int));
                assert(y.dh_public_key@ =~= f.subrange(17 + na as int, 49 + na as int));
                assert(x.key_salt@ =~= e.subrange(49 + na as int, 81 + na as int));
                assert(y.key_salt@ =~= f.subrange(49 + na as int, 81 + na as int));
            },
            (ChannelContent::User(PlainData(x)), ChannelContent::User(PlainData(y))) => {
                assert(x@ =~= e.subrange(17 + na as int, e.len() as int));
                assert(y@ =~= f.subrange(17 + na as int, f.len() as int));
            },
            _ => {},
        }
    }
}

/// Decoding an encoded handshake message gives it back.
pub proof fn lemma_handshake_round_trip(
    a: ExchangeRandNonce,
    b: ExchangeRandNonce,
    c: ExchangeDh,
    d: ExchangeDh,
)
    ensures
        exchange_rand_nonce_bytes(a).len() == 48,
        exchange_rand_nonce_bytes(a) == exchange_rand_nonce_bytes(b) ==> a.rand_nonce@
            == b.rand_nonce@ && a.public_key@ == b.public_key@,
        exchange_dh_bytes(c).len() == 144,
        exchange_dh_bytes(c) == exchange_dh_bytes(d) ==> c.dh_public_key@ == d.dh_public_key@
            && c.rand_nonce@ == d.rand_nonce@ && c.key_salt@ == d.key_salt@ && c.signature@
            == d.signature@,
{
    let e = exchange_rand_nonce_bytes(a);
    let f = exchange_rand_nonce_bytes(b);
    if e == f {
        assert(a.rand_nonce@ =~= e.subrange(0, 16));
        assert(b.rand_nonce@ =~= f.subrange(0, 16));
        assert(a.public_key@ =~= e.subrange(16, 48));
        assert(b.public_key@ =~= f.subrange(16, 48));
    }
    let g = exchange_dh_bytes(c);
    let h = exchange_dh_bytes(d);
    if g == h {
        assert(c.dh_public_key@ =~= g.subrange(0, 32));
        assert(d.dh_public_key@ =~= h.subrange(0, 32));
        assert(c.rand_nonce@ =~= g.subrange(32, 48));
        assert(d.rand_nonce@ =~= h.subrange(32, 48));
        assert(c.key_salt@ =~= g.subrange(48, 80));
        assert(d.key_salt@ =~= h.subrange(48, 80));
        assert(c.signature@ =~= g.subrange(80, 144));
        assert(d.signature@ =~= h.subrange(80, 144));
    }
}

/// The bytes an identity signs in the second handshake message: the DH
/// key, the echoed nonce, then the salt.
pub open spec fn dh_signature_bytes(m: ExchangeDh) -> Seq<u8> {
    m.dh_public_key@ + m.rand_nonce@ + m.key_salt@
}

/// The buffer that the second handshake message's signature covers.
pub fn create_dh_signature_buffer(exchange_dh: &ExchangeDh) -> (r: Vec<u8>)
    ensures
        r@ == dh_signature_bytes(*exchange_dh),
{
    let mut r: Vec<u8> = Vec::new();
    append_bytes(&mut r, &exchange_dh.dh_public_key.bytes);
    append_bytes(&mut r, &exchange_dh.rand_nonce.bytes);
    append_bytes(&mut r, &exchange_dh.key_salt.bytes);
    r
}

/// Why a handshake was refused.
#[derive(Debug, Clone, Copy, PartialEq, Eq, Structural)]
pub enum HandshakeError {
    /// The peer did not echo the nonce we sent.
    RandNonceMismatch,
    /// The peer's signature does not verify against the key it announced.
    InvalidSignature,
}

/// Checks the peer's second handshake message: it must echo the nonce we
/// sent, and carry a signature that verifies against the key the peer
/// announced in its first message.
pub fn verify_exchange_dh(
    sent_rand_nonce: &RandValue,
    remote_exchange_rand_nonce: &ExchangeRandNonce,
    exchange_dh: &ExchangeDh,
) -> (r: Result<(), HandshakeError>)
    ensures
        exchange_dh.rand_nonce@ != sent_rand_nonce@ ==> r == Err::<(), HandshakeError>(
            HandshakeError::RandNonceMismatch,
        ),
        exchange_dh.rand_nonce@ == sent_rand_nonce@ ==> (r is Ok <==> signature_valid(
            dh_signature_bytes(*exchange_dh),
            remote_exchange_rand_nonce.public_key@,
            exchange_dh.signature@,
        )),
        r is Err ==> exchange_dh.rand_nonce@ != sent_rand_nonce@ || r == Err::<(), HandshakeError>(
            HandshakeError::InvalidSignature,
        ),
{
    if !same_bytes(&exchange_dh.rand_nonce.bytes, &sent_rand_nonce.bytes) {
        return Err(HandshakeError::RandNonceMismatch);
    }
    let buf = create_dh_signature_buffer(exchange_dh);
    if !verify_signature(
        buf.as_slice(),
        &remote_exchange_rand_nonce.public_key,
        &exchange_dh.signature,
    ) {
        return Err(HandshakeError::InvalidSignature);
    }
    Ok(())
}

} // verus!
