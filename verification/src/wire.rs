//! Session framing (a 4-byte big-endian length before each packet) and the
//! key exchange that opens a session.

use vstd::prelude::*;
use crate::crypto::{sha256_digest, x25519_fn, CryptoError, LocalKeypair, SessionCipher};
use crate::types::{NodeId, WirePacket};

verus! {

/// Largest packet accepted on an open session: 64 MiB.
pub const SESSION_FRAME_MAX: u32 = 67108864;

/// Packets of the key exchange must be shorter than this.
pub const HANDSHAKE_FRAME_LIMIT: u32 = 8192;

/// The 4-byte big-endian form of `n` (below 2^32).
pub open spec fn be32(n: nat) -> Seq<u8> {
    seq![
        ((n / 16777216) % 256) as u8,
        ((n / 65536) % 256) as u8,
        ((n / 256) % 256) as u8,
        (n % 256) as u8,
    ]
}

/// The number whose 4-byte big-endian form is `b`.
pub open spec fn from_be32(b: Seq<u8>) -> nat {
    (b[0] as nat) * 16777216 + (b[1] as nat) * 65536 + (b[2] as nat) * 256 + (b[3] as nat)
}

/// The length prefix written before a packet of `len` bytes: its length
/// cut to 32 bits, big-endian.
pub fn length_prefix(len: usize) -> (r: [u8; 4])
    ensures
        r@ == be32((len as nat) % 4294967296),
{
    let n: u64 = (len as u64) % 4294967296;
    let r = [
        ((n / 16777216) % 256) as u8,
        ((n / 65536) % 256) as u8,
        ((n / 256) % 256) as u8,
        (n % 256) as u8,
    ];
    assert(r@ =~= be32((len as nat) % 4294967296));
    r
}

/// The packet length announced by a 4-byte prefix.
pub fn frame_length(b: [u8; 4]) -> (r: u32)
    ensures
        r == from_be32(b@),
{
    (b[0] as u32) * 16777216 + (b[1] as u32) * 65536 + (b[2] as u32) * 256 + (b[3] as u32)
}

/// Whether a session packet of `n` bytes is accepted (at most 64 MiB); a
/// longer one ends the session.
pub fn session_frame_fits(n: u32) -> (r: bool)
    ensures
        r == (n <= SESSION_FRAME_MAX),
{
    n <= SESSION_FRAME_MAX
}

/// Whether a key-exchange packet of `n` bytes is accepted (under 8192).
pub fn handshake_frame_fits(n: u32) -> (r: bool)
    ensures
        r == (n < HANDSHAKE_FRAME_LIMIT),
{
    n < HANDSHAKE_FRAME_LIMIT
}

/// Reading back the prefix of a length gives the length, for every length
/// that fits in 32 bits.
pub proof fn law_length_prefix_round_trip(n: nat)
    requires
        n < 4294967296,
    ensures
        from_be32(be32(n)) == n,
{
    let b = be32(n);
    assert(b[0] as nat == (n / 16777216) % 256);
    assert(b[1] as nat == (n / 65536) % 256);
    assert(b[2] as nat == (n / 256) % 256);
    assert(b[3] as nat == n % 256);
    assert(((n / 16777216) % 256) * 16777216 + ((n / 65536) % 256) * 65536 + ((n / 256) % 256) * 256
        + n % 256 == n) by (nonlinear_arith)
        requires
            n < 4294967296,
    ;
}

/// Why a key exchange failed.
#[derive(Clone, Copy, Debug, PartialEq, Eq, Structural)]
pub enum HandshakeError {
    /// The initiator got something other than a key-exchange acknowledgement.
    ExpectedAck,
    /// The responder got something other than a key exchange.
    ExpectedKeyExchange,
    /// The public key is not 32 bytes long.
    BadKey,
    /// A key-exchange packet was 8192 bytes or longer.
    FrameTooLarge,
    /// The keypair's secret was already used.
    Crypto(CryptoError),
}

/// The 32 bytes of `v`, as an array.
fn key_array(v: &Vec<u8>) -> (r: [u8; 32])
    requires
        v@.len() == 32,
    ensures
        r@ == v@,
{
    let mut arr = [0u8; 32];
    let mut i: usize = 0;
    while i < 32
        invariant
            v@.len() == 32,
            i <= 32,
            arr@.len() == 32,
            forall|k: int| 0 <= k < i ==> arr@[k] == v@[k],
        decreases 32 - i,
    {
        arr[i] = v[i];
        i = i + 1;
    }
    assert(arr@ =~= v@);
    arr
}

/// The peer's public key from the acknowledgement an initiator receives:
/// it must be a key-exchange acknowledgement carrying 32 bytes.
pub fn key_from_ack(pkt: WirePacket) -> (r: Result<[u8; 32], HandshakeError>)
    ensures
        match pkt {
            WirePacket::KeyExchangeAck { public_key, .. } => if public_key@.len() == 32 {
                r matches Ok(k) && k@ == public_key@
            } else {
                r == Err::<[u8; 32], HandshakeError>(HandshakeError::BadKey)
            },
            _ => r == Err::<[u8; 32], HandshakeError>(HandshakeError::ExpectedAck),
        },
{
    match pkt {
        WirePacket::KeyExchangeAck { public_key, .. } => {
            if public_key.len() == 32 {
                Ok(key_array(&public_key))
            } else {
                Err(HandshakeError::BadKey)
            }
        },
        _ => Err(HandshakeError::ExpectedAck),
    }
}

/// The initiator's id and public key from the packet a responder receives:
/// it must be a key exchange carrying 32 bytes.
pub fn key_from_kex(pkt: WirePacket) -> (r: Result<(NodeId, [u8; 32]), HandshakeError>)
    ensures
        match pkt {
            WirePacket::KeyExchange { node_id, public_key } => if public_key@.len() == 32 {
                r matches Ok((id, k)) && id == node_id && k@ == public_key@
            } else {
                r == Err::<(NodeId, [u8; 32]), HandshakeError>(HandshakeError::BadKey)
            },
            _ => r == Err::<(NodeId, [u8; 32]), HandshakeError>(HandshakeError::ExpectedKeyExchange),
        },
{
    match pkt {
        WirePacket::KeyExchange { node_id, public_key } => {
            if public_key.len() == 32 {
                let k = key_array(&public_key);
                Ok((node_id, k))
            } else {
                Err(HandshakeError::BadKey)
            }
        },
        _ => Err(HandshakeError::ExpectedKeyExchange),
    }
}

/// The session agreed with the holder of `their_public`: the keypair's
/// secret is used once, and the session key is the SHA-256 of the shared
/// secret.  Fails exactly when the secret was already used.
pub fn establish_session(kp: LocalKeypair, their_public: [u8; 32]) -> (r: Result<SessionCipher, HandshakeError>)
    requires
        kp.wf(),
    ensures
        r is Ok <==> kp.has_secret(),
        !kp.has_secret() ==> r == Err::<SessionCipher, HandshakeError>(HandshakeError::Crypto(CryptoError::AlreadyConsumed)),
        r matches Ok(c) ==> c.key().len() == 32 && c.key() == sha256_digest(x25519_fn(kp.secret_value(), their_public@)),
{
    match kp.diffie_hellman(&their_public) {
        Ok(shared) => Ok(SessionCipher::from_shared_secret(&shared)),
        Err(e) => Err(HandshakeError::Crypto(e)),
    }
}

/// The two ends of a handshake get one session key: the key that `a`
/// derives from `b`'s public key is the key that `b` derives from `a`'s.
pub proof fn law_sessions_match(a: LocalKeypair, b: LocalKeypair)
    requires
        a.wf(),
        b.wf(),
        a.has_secret(),
        b.has_secret(),
    ensures
        sha256_digest(x25519_fn(a.secret_value(), b.public_key()@)) == sha256_digest(x25519_fn(b.secret_value(), a.public_key()@)),
{
    crate::crypto::law_both_ends_agree(a, b);
}

} // verus!
