use credit_node::ids::{RandValue, Signature};
use credit_node::secure_channel::{
    deserialize_channel_message, deserialize_exchange_dh, deserialize_exchange_rand_nonce,
    serialize_channel_message, serialize_exchange_dh, serialize_exchange_rand_nonce,
    ChannelContent, ChannelMessage, DhPublicKey, DhSerializeError, ExchangeDh, ExchangeRandNonce,
    PlainData, Rekey, Salt,
};
use credit_node::secure_channel::{create_dh_signature_buffer, verify_exchange_dh, HandshakeError};
use credit_node::{PublicKey, PUBLIC_KEY_LEN};
use ed25519_dalek::{Signer, SigningKey};

#[test]
fn test_serialize_exchange_rand_nonce() {
    let msg = ExchangeRandNonce {
        rand_nonce: RandValue { bytes: [0x01u8; 16] },
        public_key: PublicKey::new([0x02u8; PUBLIC_KEY_LEN]),
    };
    let serialized = serialize_exchange_rand_nonce(&msg);
    let msg2 = deserialize_exchange_rand_nonce(&serialized[..]).unwrap();
    assert_eq!(msg.rand_nonce.bytes, msg2.rand_nonce.bytes);
    assert_eq!(msg.public_key.bytes, msg2.public_key.bytes);
}

#[test]
fn test_serialize_exchange_dh() {
    let msg = ExchangeDh {
        dh_public_key: DhPublicKey { bytes: [0x01u8; 32] },
        rand_nonce: RandValue { bytes: [0x02u8; 16] },
        key_salt: Salt { bytes: [0x03u8; 32] },
        signature: Signature { bytes: [0x03u8; 64] },
    };
    let serialized = serialize_exchange_dh(&msg);
    let msg2 = deserialize_exchange_dh(&serialized[..]).unwrap();
    assert_eq!(msg.dh_public_key.bytes, msg2.dh_public_key.bytes);
    assert_eq!(msg.rand_nonce.bytes, msg2.rand_nonce.bytes);
    assert_eq!(msg.key_salt.bytes, msg2.key_salt.bytes);
    assert_eq!(msg.signature.bytes, msg2.signature.bytes);
}

#[test]
fn test_serialize_channel_message_rekey() {
    let rekey = Rekey {
        dh_public_key: DhPublicKey { bytes: [0x01u8; 32] },
        key_salt: Salt { bytes: [0x03u8; 32] },
    };
    let content = ChannelContent::Rekey(rekey);
    let msg = ChannelMessage { rand_padding: vec![1, 2, 3, 4, 5, 6], content };
    let serialized = serialize_channel_message(&msg);
    let msg2 = deserialize_channel_message(&serialized[..]).unwrap();
    assert_eq!(msg.rand_padding, msg2.rand_padding);
    match (msg.content, msg2.content) {
        (ChannelContent::Rekey(a), ChannelContent::Rekey(b)) => {
            assert_eq!(a.dh_public_key.bytes, b.dh_public_key.bytes);
            assert_eq!(a.key_salt.bytes, b.key_salt.bytes);
        }
        _ => panic!("content changed"),
    }
}

#[test]
fn channel_message_user_round_trip_and_layout() {
    let msg = ChannelMessage {
        rand_padding: vec![9, 9],
        content: ChannelContent::User(PlainData(vec![7, 8])),
    };
    let bytes = serialize_channel_message(&msg);
    let mut expected = 2u128.to_be_bytes().to_vec();
    expected.extend_from_slice(&[9, 9, 1, 7, 8]);
    assert_eq!(bytes, expected);
    match deserialize_channel_message(&bytes).unwrap().content {
        ChannelContent::User(PlainData(d)) => assert_eq!(d, vec![7, 8]),
        _ => panic!("content changed"),
    }
    let empty = ChannelMessage { rand_padding: vec![], content: ChannelContent::User(PlainData(vec![])) };
    let m = deserialize_channel_message(&serialize_channel_message(&empty)).unwrap();
    assert!(m.rand_padding.is_empty());
}

#[test]
fn deserialize_errors() {
    assert_eq!(deserialize_exchange_rand_nonce(&[0u8; 47]).unwrap_err(), DhSerializeError::InvalidLength);
    assert_eq!(deserialize_exchange_dh(&[0u8; 145]).unwrap_err(), DhSerializeError::InvalidLength);
    assert_eq!(deserialize_channel_message(&[0u8; 16]).unwrap_err(), DhSerializeError::InvalidLength);
    // padding longer than the frame
    let mut bad = 5u128.to_be_bytes().to_vec();
    bad.extend_from_slice(&[1, 2, 3]);
    assert_eq!(deserialize_channel_message(&bad).unwrap_err(), DhSerializeError::InvalidLength);
    // unknown tag
    let mut bad = 0u128.to_be_bytes().to_vec();
    bad.push(7);
    assert_eq!(deserialize_channel_message(&bad).unwrap_err(), DhSerializeError::NotInSchema);
    // a key proposal must hold exactly a key and a salt
    let mut bad = 0u128.to_be_bytes().to_vec();
    bad.push(0);
    bad.extend_from_slice(&[0u8; 63]);
    assert_eq!(deserialize_channel_message(&bad).unwrap_err(), DhSerializeError::InvalidLength);
}

#[test]
fn handshake_checks_nonce_and_signature() {
    let sk = SigningKey::from_bytes(&[0x11; 32]);
    let remote = ExchangeRandNonce {
        rand_nonce: RandValue { bytes: [5; 16] },
        public_key: PublicKey::new(sk.verifying_key().to_bytes()),
    };
    let ours = RandValue { bytes: [6; 16] };
    let mut dh = ExchangeDh {
        dh_public_key: DhPublicKey { bytes: [1; 32] },
        rand_nonce: ours,
        key_salt: Salt { bytes: [2; 32] },
        signature: Signature { bytes: [0; 64] },
    };
    let buf = create_dh_signature_buffer(&dh);
    let mut expected = vec![1u8; 32];
    expected.extend_from_slice(&[6u8; 16]);
    expected.extend_from_slice(&[2u8; 32]);
    assert_eq!(buf, expected);
    assert_eq!(verify_exchange_dh(&ours, &remote, &dh).unwrap_err(), HandshakeError::InvalidSignature);
    dh.signature = Signature { bytes: sk.sign(&buf).to_bytes() };
    assert!(verify_exchange_dh(&ours, &remote, &dh).is_ok());
    let other = RandValue { bytes: [7; 16] };
    assert_eq!(verify_exchange_dh(&other, &remote, &dh).unwrap_err(), HandshakeError::RandNonceMismatch);
}
