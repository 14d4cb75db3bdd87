//! Session key agreement (X25519) and message sealing (AES-256-GCM).

use vstd::prelude::*;
use aes_gcm::aead::{AeadInPlace, NewAead};
use rand_core::RngCore;
use sha2::Digest;
use vstd::slice::{slice_subrange, slice_to_vec};

verus! {

#[verifier::external_type_specification]
#[verifier::external_body]
pub struct ExAeadError(aes_gcm::aead::Error);

/// Length in bytes of an AES-256-GCM nonce.
pub const NONCE_LEN: usize = 12;

/// Length in bytes of an AES-256-GCM authentication tag.
pub const TAG_LEN: usize = 16;

/// Largest plaintext (and ciphertext body) that AES-GCM accepts: 2^36 bytes.
pub const MAX_SEALED_LEN: u64 = 68719476736;

/// 2^36 - 16 bytes: from this length on, a body needs more keystream blocks
/// than the 32-bit block counter of AES-GCM's counter mode can number.
pub const KEYSTREAM_LIMIT: u64 = 68719476720;

/// A body of `len` bytes is one that AES-GCM neither accepts nor refuses:
/// the counter mode runs out of blocks and panics.  Opening accepts 16
/// bytes more than sealing before it refuses.
pub open spec fn keystream_overrun(len: nat, extra: nat) -> bool {
    KEYSTREAM_LIMIT <= len <= MAX_SEALED_LEN + extra
}

/// The AES-256-GCM sealing of `plaintext` (ciphertext followed by the tag)
/// under `key` and `nonce`, with no associated data.
pub uninterp spec fn aes_gcm_seal(key: Seq<u8>, nonce: Seq<u8>, plaintext: Seq<u8>) -> Seq<u8>;

/// The AES-256-GCM opening of a ciphertext body and tag under `key` and
/// `nonce`, with no associated data: `None` when the tag does not verify.
pub uninterp spec fn aes_gcm_open(key: Seq<u8>, nonce: Seq<u8>, body: Seq<u8>, tag: Seq<u8>) -> Option<Seq<u8>>;

/// The SHA-256 digest of `data`.
pub uninterp spec fn sha256_digest(data: Seq<u8>) -> Seq<u8>;

/// Calls `aes_gcm::Aes256Gcm::encrypt_in_place_detached` (through
/// `NewAead::new` on the key) with no associated data.  The crate's source
/// refuses a buffer longer than 2^36 bytes and leaves it untouched; a buffer
/// of 2^36 - 16 to 2^36 bytes passes that check but makes the 32-bit counter
/// of `ctr::Ctr32BE` overflow, and `apply_keystream` panics, so `requires`
/// leaves those lengths out.  Otherwise the buffer becomes the ciphertext
/// (same length) and the tag is returned.  Claimed: the result is the named
/// sealing of the old buffer, and opening it again under the same key and
/// nonce gives the old buffer back, as AES-GCM guarantees.
#[verifier::external_body]
fn aes_gcm_seal_in_place(key: &[u8], nonce: &[u8], buffer: &mut Vec<u8>) -> (r: Result<Vec<u8>, aes_gcm::aead::Error>)
    requires
        key@.len() == 32,
        nonce@.len() == NONCE_LEN,
        !keystream_overrun(old(buffer)@.len(), 0),
    ensures
        r is Err <==> old(buffer)@.len() > MAX_SEALED_LEN,
        r is Err ==> final(buffer)@ == old(buffer)@,
        r matches Ok(tag) ==> {
            &&& tag@.len() == TAG_LEN
            &&& final(buffer)@.len() == old(buffer)@.len()
            &&& final(buffer)@ + tag@ == aes_gcm_seal(key@, nonce@, old(buffer)@)
            &&& aes_gcm_open(key@, nonce@, final(buffer)@, tag@) == Some(old(buffer)@)
        },
{
    let cipher = aes_gcm::Aes256Gcm::new(aes_gcm::Key::from_slice(key));
    let tag = cipher.encrypt_in_place_detached(aes_gcm::Nonce::from_slice(nonce), b"", buffer.as_mut_slice())?;
    Ok(tag.as_slice().to_vec())
}

/// Calls `aes_gcm::Aes256Gcm::decrypt_in_place_detached` (through
/// `NewAead::new` on the key) with no associated data.  The crate's source
/// refuses a buffer longer than 2^36 + 16 bytes; otherwise it succeeds exactly
/// when the tag verifies, and then the buffer holds the plaintext.  For a
/// buffer of 2^36 - 16 to 2^36 + 16 bytes whose tag verifies, the keystream
/// counter of `ctr::Ctr32BE` overflows and `apply_keystream` panics; whether
/// the tag verifies is not known before the call, so `requires` leaves that
/// whole band out.  Claimed: success and the plaintext are the named opening.
#[verifier::external_body]
fn aes_gcm_open_in_place(key: &[u8], nonce: &[u8], buffer: &mut Vec<u8>, tag: &[u8]) -> (r: Result<(), aes_gcm::aead::Error>)
    requires
        key@.len() == 32,
        nonce@.len() == NONCE_LEN,
        tag@.len() == TAG_LEN,
        !keystream_overrun(old(buffer)@.len(), TAG_LEN as nat),
    ensures
        r is Ok <==> (old(buffer)@.len() <= MAX_SEALED_LEN + TAG_LEN
            && aes_gcm_open(key@, nonce@, old(buffer)@, tag@) is Some),
        r is Ok ==> Some(final(buffer)@) == aes_gcm_open(key@, nonce@, old(buffer)@, tag@),
{
    let cipher = aes_gcm::Aes256Gcm::new(aes_gcm::Key::from_slice(key));
    cipher.decrypt_in_place_detached(aes_gcm::Nonce::from_slice(nonce), b"", buffer.as_mut_slice(), aes_gcm::Tag::from_slice(tag))
}

/// Calls `sha2::Sha256::digest`.  Claimed: the 32-byte result is the named
/// digest of the input.
#[verifier::external_body]
fn sha256(data: &[u8]) -> (r: Vec<u8>)
    ensures
        r@ == sha256_digest(data@),
        r@.len() == 32,
{
    sha2::Sha256::digest(data).as_slice().to_vec()
}

/// Calls `rand_core::OsRng::fill_bytes` on `n` zero bytes.  Nothing is
/// claimed of the bytes but their number: they come from the operating
/// system's generator.
#[verifier::external_body]
fn random_bytes(n: usize) -> (r: Vec<u8>)
    ensures
        r@.len() == n,
{
    let mut v = vec![0u8; n];
    rand_core::OsRng.fill_bytes(&mut v);
    v
}

/// The X25519 function of RFC 7748: the u-coordinate of the point with
/// u-coordinate `point` multiplied by the clamped scalar `scalar`, both 32
/// bytes long.
pub uninterp spec fn x25519_fn(scalar: Seq<u8>, point: Seq<u8>) -> Seq<u8>;

/// The u-coordinate of the X25519 base point, `X25519_BASEPOINT_BYTES` in
/// x25519-dalek.
pub const BASEPOINT: [u8; 32] = [
    9, 0, 0, 0, 0, 0, 0, 0, 0, 0, 0, 0, 0, 0, 0, 0, 0, 0, 0, 0, 0, 0, 0, 0, 0, 0, 0, 0, 0, 0, 0, 0,
];

/// Calls `x25519_dalek::x25519`, the crate's byte-level X25519 function
/// (the clamped scalar times the point, as `EphemeralSecret::diffie_hellman`
/// and `PublicKey::from` compute it).  Claimed: the result is the named
/// function of the two inputs; and a public key (the base point times a
/// scalar `s`) agrees with any other scalar `b` as Diffie-Hellman promises,
/// `b` times it being `s` times the public key of `b` (the crate documents
/// that the two ends' shared secrets are the same).
#[verifier::external_body]
fn x25519(scalar: &[u8], point: [u8; 32]) -> (r: [u8; 32])
    requires
        scalar@.len() == 32,
    ensures
        r@ == x25519_fn(scalar@, point@),
        point@ == BASEPOINT@ ==> forall|b: Seq<u8>|
            b.len() == 32 ==> #[trigger] x25519_fn(b, r@) == x25519_fn(scalar@, x25519_fn(b, BASEPOINT@)),
{
    let k: [u8; 32] = scalar.try_into().unwrap();
    x25519_dalek::x25519(k, point)
}

/// Failures of the session cryptography.
#[derive(Clone, Copy, Debug, PartialEq, Eq, Structural)]
pub enum CryptoError {
    /// The ephemeral secret of a keypair was already used.
    AlreadyConsumed,
    /// The nonce is not 12 bytes long.
    BadNonce,
    /// The ciphertext is shorter than an authentication tag.
    TooShort,
    /// AES-GCM refused to seal the plaintext (longer than 2^36 bytes).
    Encrypt,
    /// The tag did not verify (or the ciphertext is longer than AES-GCM accepts).
    Decrypt,
}

/// An ephemeral X25519 keypair: the secret can be used for one key agreement.
pub struct LocalKeypair {
    secret: Option<Vec<u8>>,
    /// The bytes of the public key that belongs to the secret.
    pub public: [u8; 32],
}

impl LocalKeypair {
    /// True while the secret has not been consumed by a key agreement.
    pub closed spec fn has_secret(&self) -> bool {
        self.secret is Some
    }

    /// The secret scalar while it is held (empty once consumed).
    pub closed spec fn secret_value(&self) -> Seq<u8> {
        match self.secret {
            Some(s) => s@,
            None => Seq::empty(),
        }
    }

    /// The bytes of the public key held.
    pub closed spec fn public_key(&self) -> [u8; 32] {
        self.public
    }

    /// The keypair's invariant while the secret is held: the secret is 32
    /// bytes, the public key is the base point times it, and the public key
    /// agrees with every other secret as Diffie-Hellman promises.
    pub closed spec fn wf(&self) -> bool {
        self.secret is Some ==> {
            &&& self.secret_value().len() == 32
            &&& self.public@ == x25519_fn(self.secret_value(), BASEPOINT@)
            &&& forall|b: Seq<u8>|
                b.len() == 32 ==> #[trigger] x25519_fn(b, self.public@) == x25519_fn(self.secret_value(), x25519_fn(b, BASEPOINT@))
        }
    }

    /// A fresh keypair from the operating system's random generator: 32
    /// random secret bytes and their public key.
    pub fn generate() -> (r: LocalKeypair)
        ensures
            r.has_secret(),
            r.wf(),
            r.secret_value().len() == 32,
            r.public_key()@ == x25519_fn(r.secret_value(), BASEPOINT@),
    {
        let secret = random_bytes(32);
        let public = x25519(secret.as_slice(), BASEPOINT);
        LocalKeypair { secret: Some(secret), public }
    }

    /// Consumes the secret in a Diffie-Hellman agreement with the public key
    /// `peer_public`: the shared secret is the peer's point times the held
    /// secret.  Fails exactly when the secret was already consumed.
    pub fn diffie_hellman(self, peer_public: &[u8; 32]) -> (r: Result<[u8; 32], CryptoError>)
        requires
            self.wf(),
        ensures
            r is Ok <==> self.has_secret(),
            r is Err ==> r == Err::<[u8; 32], CryptoError>(CryptoError::AlreadyConsumed),
            r matches Ok(s) ==> s@ == x25519_fn(self.secret_value(), peer_public@),
    {
        let mut this = self;
        match this.secret.take() {
            Some(s) => Ok(x25519(s.as_slice(), *peer_public)),
            None => Err(CryptoError::AlreadyConsumed),
        }
    }

    /// The 32 bytes of the public key, as sent to the peer.
    pub fn public_bytes(&self) -> (r: [u8; 32])
        ensures
            r == self.public_key(),
    {
        self.public
    }
}

/// Both ends of a handshake compute one shared secret: each end's secret
/// times the other end's public key gives the same bytes.
pub proof fn law_both_ends_agree(a: LocalKeypair, b: LocalKeypair)
    requires
        a.wf(),
        b.wf(),
        a.has_secret(),
        b.has_secret(),
    ensures
        x25519_fn(a.secret_value(), b.public_key()@) == x25519_fn(b.secret_value(), a.public_key()@),
{
    assert(x25519_fn(b.secret_value(), a.public@) == x25519_fn(a.secret_value(), x25519_fn(b.secret_value(), BASEPOINT@)));
}

/// The result that decrypting `ciphertext` (body followed by a 16-byte tag)
/// under `key` and `nonce` must give.
pub open spec fn decrypt_result(key: Seq<u8>, nonce: Seq<u8>, ciphertext: Seq<u8>) -> Result<Seq<u8>, CryptoError> {
    if nonce.len() != NONCE_LEN {
        Err(CryptoError::BadNonce)
    } else if ciphertext.len() < TAG_LEN {
        Err(CryptoError::TooShort)
    } else {
        let body = ciphertext.take(ciphertext.len() - TAG_LEN);
        let tag = ciphertext.skip(ciphertext.len() - TAG_LEN);
        if body.len() > MAX_SEALED_LEN + TAG_LEN {
            Err(CryptoError::Decrypt)
        } else {
            match aes_gcm_open(key, nonce, body, tag) {
                Some(p) => Ok(p),
                None => Err(CryptoError::Decrypt),
            }
        }
    }
}

/// An AES-256-GCM session keyed by the SHA-256 of an X25519 shared secret.
pub struct SessionCipher {
    key: Vec<u8>,
}

impl SessionCipher {
    /// The 32-byte session key.
    pub closed spec fn key(&self) -> Seq<u8> {
        self.key@
    }

    /// The session whose key is the SHA-256 digest of `secret`.
    pub fn from_secret_bytes(secret: &[u8]) -> (r: SessionCipher)
        ensures
            r.key() == sha256_digest(secret@),
            r.key().len() == 32,
    {
        SessionCipher { key: sha256(secret) }
    }

    /// The session whose key is the SHA-256 digest of the shared secret.
    pub fn from_shared_secret(shared: &[u8; 32]) -> (r: SessionCipher)
        ensures
            r.key().len() == 32,
            r.key() == sha256_digest(shared@),
    {
        SessionCipher::from_secret_bytes(shared.as_slice())
    }

    /// Seals `plaintext` under a fresh random nonce.  Returns the nonce and
    /// the ciphertext followed by its tag; fails exactly when the plaintext is
    /// longer than AES-GCM accepts.  Whatever nonce came back, decrypting the
    /// result under it gives the plaintext again.  A plaintext of 2^36 - 16
    /// to 2^36 bytes is left out: AES-GCM panics on it.
    pub fn encrypt(&self, plaintext: &[u8]) -> (r: Result<(Vec<u8>, Vec<u8>), CryptoError>)
        requires
            self.key().len() == 32,
            !keystream_overrun(plaintext@.len(), 0),
        ensures
            r is Err <==> plaintext@.len() > MAX_SEALED_LEN,
            r is Err ==> r == Err::<(Vec<u8>, Vec<u8>), CryptoError>(CryptoError::Encrypt),
            r matches Ok((nonce, ct)) ==> {
                &&& nonce@.len() == NONCE_LEN
                &&& ct@ == aes_gcm_seal(self.key(), nonce@, plaintext@)
                &&& ct@.len() == plaintext@.len() + TAG_LEN
                &&& decrypt_result(self.key(), nonce@, ct@) == Ok::<Seq<u8>, CryptoError>(plaintext@)
            },
    {
        let nonce = random_bytes(NONCE_LEN);
        let mut buf: Vec<u8> = slice_to_vec(plaintext);
        match aes_gcm_seal_in_place(self.key.as_slice(), nonce.as_slice(), &mut buf) {
            Ok(tag) => {
                let ghost body = buf@;
                let mut t = tag;
                buf.append(&mut t);
                assert(buf@.take(buf@.len() - TAG_LEN) == body);
                assert(buf@.skip(buf@.len() - TAG_LEN) == tag@);
                Ok((nonce, buf))
            },
            Err(_) => Err(CryptoError::Encrypt),
        }
    }

    /// Opens `ciphertext` (body followed by a 16-byte tag) under `nonce`.
    /// With a 12-byte nonce, a body of 2^36 - 16 to 2^36 + 16 bytes is left
    /// out: AES-GCM panics on it when the tag verifies.
    pub fn decrypt(&self, nonce: &[u8], ciphertext: &[u8]) -> (r: Result<Vec<u8>, CryptoError>)
        requires
            self.key().len() == 32,
            nonce@.len() == NONCE_LEN && ciphertext@.len() >= TAG_LEN ==> !keystream_overrun((ciphertext@.len() - TAG_LEN) as nat, TAG_LEN as nat),
        ensures
            match r {
                Ok(p) => decrypt_result(self.key(), nonce@, ciphertext@) == Ok::<Seq<u8>, CryptoError>(p@),
                Err(e) => decrypt_result(self.key(), nonce@, ciphertext@) == Err::<Seq<u8>, CryptoError>(e),
            },
    {
        if nonce.len() != NONCE_LEN {
            return Err(CryptoError::BadNonce);
        }
        if ciphertext.len() < TAG_LEN {
            return Err(CryptoError::TooShort);
        }
        let split = ciphertext.len() - TAG_LEN;
        let mut buf: Vec<u8> = slice_to_vec(slice_subrange(ciphertext, 0, split));
        let tag = slice_subrange(ciphertext, split, ciphertext.len());
        assert(buf@ == ciphertext@.take(ciphertext@.len() - TAG_LEN));
        assert(tag@ == ciphertext@.skip(ciphertext@.len() - TAG_LEN));
        match aes_gcm_open_in_place(self.key.as_slice(), nonce, &mut buf, tag) {
            Ok(()) => Ok(buf),
            Err(_) => Err(CryptoError::Decrypt),
        }
    }
}

} // verus!
