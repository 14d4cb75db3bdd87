use mshwisper::crypto::{CryptoError, LocalKeypair, SessionCipher};
use mshwisper::wire::{establish_session, key_from_ack, key_from_kex, HandshakeError};
use mshwisper::types::WirePacket;

#[test]
fn encrypt_then_decrypt_round_trips() {
    let c = SessionCipher::from_secret_bytes(b"shared secret bytes of the pair!");
    for pt in [&b""[..], &b"hello"[..], &[7u8; 1000][..]] {
        let (nonce, ct) = c.encrypt(pt).unwrap();
        assert_eq!(nonce.len(), 12);
        assert_eq!(ct.len(), pt.len() + 16);
        assert_eq!(c.decrypt(&nonce, &ct).unwrap(), pt.to_vec());
    }
}

#[test]
fn decrypt_errors() {
    let c = SessionCipher::from_secret_bytes(b"k");
    let (nonce, mut ct) = c.encrypt(b"payload").unwrap();
    assert_eq!(c.decrypt(&nonce[..11], &ct), Err(CryptoError::BadNonce));
    assert_eq!(c.decrypt(&nonce, &ct[..15]), Err(CryptoError::TooShort));
    ct[0] ^= 1;
    assert_eq!(c.decrypt(&nonce, &ct), Err(CryptoError::Decrypt));
    let other = SessionCipher::from_secret_bytes(b"other");
    ct[0] ^= 1;
    assert_eq!(other.decrypt(&nonce, &ct), Err(CryptoError::Decrypt));
}

#[test]
fn two_keypairs_agree_on_a_session() {
    let a = LocalKeypair::generate();
    let b = LocalKeypair::generate();
    let pa = a.public_bytes();
    let pb = b.public_bytes();
    let sa = establish_session(a, pb).unwrap();
    let sb = establish_session(b, pa).unwrap();
    let (n, ct) = sa.encrypt(b"over the mesh").unwrap();
    assert_eq!(sb.decrypt(&n, &ct).unwrap(), b"over the mesh".to_vec());
}

#[test]
fn handshake_packets_are_checked() {
    let ack = WirePacket::KeyExchangeAck { node_id: "n".to_string(), public_key: vec![3u8; 32] };
    assert_eq!(key_from_ack(ack).unwrap(), [3u8; 32]);
    let short = WirePacket::KeyExchangeAck { node_id: "n".to_string(), public_key: vec![3u8; 31] };
    assert_eq!(key_from_ack(short), Err(HandshakeError::BadKey));
    let wrong = WirePacket::Ping { node_id: "n".to_string() };
    assert_eq!(key_from_ack(wrong), Err(HandshakeError::ExpectedAck));
    let kex = WirePacket::KeyExchange { node_id: "peer".to_string(), public_key: vec![9u8; 32] };
    let (id, key) = key_from_kex(kex).unwrap();
    assert_eq!(id, "peer");
    assert_eq!(key, [9u8; 32]);
    let wrong = WirePacket::Goodbye { node_id: "n".to_string() };
    assert!(matches!(key_from_kex(wrong), Err(HandshakeError::ExpectedKeyExchange)));
}

#[test]
fn keystream_band_constants() {
    assert_eq!(mshwisper::crypto::KEYSTREAM_LIMIT, (1u64 << 36) - 16);
    assert_eq!(mshwisper::crypto::MAX_SEALED_LEN, 1u64 << 36);
}
