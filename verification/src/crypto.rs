//! The cryptographic primitives the kernel is built on.
//!
//! Every function here hands one call to an outside crate. The spec functions
//! without a body name what such a call returns; the contracts of the rest of
//! the library are stated over these names.

use vstd::prelude::*;
use crate::virtual_volume::PAYLOAD_SIZE;

verus! {

/// Largest number of bytes that is handed to a hash in one piece. SHA-256
/// counts its input in bits with 64 bits.
pub const HASH_INPUT_MAX: u64 = 0x1000_0000_0000_0000;

/// Largest plaintext, and largest associated data, that AES-GCM accepts.
pub const AES_GCM_MAX: u64 = 0x10_0000_0000;

/// Bytes that an authentication tag adds to a plaintext.
pub const TAG_SIZE: usize = 16;

/// Length of an ML-KEM-1024 public key.
pub const KEM_PUBLIC_KEY_LEN: usize = 1568;

/// Length of an ML-KEM-1024 secret key.
pub const KEM_SECRET_KEY_LEN: usize = 3168;

/// Length of an ML-KEM-1024 ciphertext.
pub const KEM_CIPHERTEXT_LEN: usize = 1568;

/// The error that `hkdf` gives for an output length it cannot serve.
#[verifier::external_type_specification]
#[verifier::external_body]
pub struct ExInvalidLength(hkdf::InvalidLength);

/// The error of the AEAD ciphers, which carries no detail.
#[verifier::external_type_specification]
#[verifier::external_body]
pub struct ExAeadError(aes_gcm::Error);

/// The error of the key encapsulation.
#[verifier::external_type_specification]
#[verifier::external_body]
pub struct ExKyberError(pqc_kyber::KyberError);

// ---------------------------------------------------------------------------
// Names of results
// ---------------------------------------------------------------------------

/// The SHA-256 digest of `data`.
pub uninterp spec fn sha256(data: Seq<u8>) -> [u8; 32];

/// The HMAC-SHA256 tag of `message` under `key`.
pub uninterp spec fn hmac_sha256(key: Seq<u8>, message: Seq<u8>) -> [u8; 32];

/// The first 32 bytes that HKDF-SHA256 expands from `salt`, `ikm` and `info`.
pub uninterp spec fn hkdf_sha256(salt: Seq<u8>, ikm: Seq<u8>, info: Seq<u8>) -> [u8; 32];

/// Ciphertext and tag of AES-256-GCM.
pub uninterp spec fn aes256gcm_seal(key: Seq<u8>, nonce: Seq<u8>, aad: Seq<u8>, plaintext: Seq<u8>) -> Seq<u8>;

/// What AES-256-GCM recovers from ciphertext and tag; `None` where it refuses.
pub uninterp spec fn aes256gcm_open(key: Seq<u8>, nonce: Seq<u8>, aad: Seq<u8>, sealed: Seq<u8>) -> Option<Seq<u8>>;

/// Ciphertext and tag of ChaCha20-Poly1305 without associated data.
pub uninterp spec fn chacha20poly1305_seal(key: Seq<u8>, nonce: Seq<u8>, plaintext: Seq<u8>) -> Seq<u8>;

/// What ChaCha20-Poly1305 recovers from ciphertext and tag; `None` where it
/// refuses.
pub uninterp spec fn chacha20poly1305_open(key: Seq<u8>, nonce: Seq<u8>, sealed: Seq<u8>) -> Option<Seq<u8>>;

/// The ML-KEM-1024 public and secret key that come of 64 drawn bytes.
pub uninterp spec fn kem_keys(drawn: [u8; 64]) -> (Seq<u8>, Seq<u8>);

/// The ciphertext and the shared secret that ML-KEM-1024 makes for a public
/// key out of 32 drawn bytes.
pub uninterp spec fn kem_encapsulation(public_key: Seq<u8>, drawn: [u8; 32]) -> (Seq<u8>, Seq<u8>);

/// The shared secret that ML-KEM-1024 takes out of a ciphertext; `None` where
/// it refuses.
pub uninterp spec fn kem_shared_secret(ciphertext: Seq<u8>, secret_key: Seq<u8>) -> Option<[u8; 32]>;

/// `public_key` and `secret_key` were generated together.
pub open spec fn is_kem_keypair(public_key: Seq<u8>, secret_key: Seq<u8>) -> bool {
    exists|drawn: [u8; 64]| #[trigger] kem_keys(drawn) == (public_key, secret_key)
}

/// `ciphertext` and `secret` are an encapsulation to `public_key`.
pub open spec fn is_kem_encapsulation(public_key: Seq<u8>, ciphertext: Seq<u8>, secret: Seq<u8>) -> bool {
    exists|drawn: [u8; 32]|
        #[trigger] kem_encapsulation(public_key, drawn) == (ciphertext, secret)
}

/// The bytes came out of one call of the random generator. What bytes come is
/// chance, so this sets no condition on their values. It is closed, so that
/// other modules know it of no bytes but those that `fill_random` gave them.
pub closed spec fn drawn(bytes: Seq<u8>) -> bool {
    true
}

/// The number came out of one call of the random generator, as `random_u32`
/// gives it.
pub closed spec fn drawn_number(number: u32) -> bool {
    true
}

/// `n` zero bytes.
pub open spec fn zeros(n: nat) -> Seq<u8> {
    Seq::new(n, |i: int| 0u8)
}

// ---------------------------------------------------------------------------
// Hashes
// ---------------------------------------------------------------------------

/// `sha2::Sha256::digest`: the digest of the whole of `data`. Feeding a hasher
/// piece by piece gives the digest of the pieces put together, so a caller
/// puts them together first.
#[verifier::external_body]
pub(crate) fn sha256_digest(data: &[u8]) -> (digest: [u8; 32])
    requires
        data@.len() <= HASH_INPUT_MAX,
    ensures
        digest == sha256(data@),
{
    <sha2::Sha256 as sha2::Digest>::digest(data).into()
}

/// `hmac::Hmac<Sha256>`, from `new_from_slice` over `update` to `finalize`:
/// the tag of `message` under `key`. A key of any length is taken.
#[verifier::external_body]
pub(crate) fn hmac_sha256_tag(key: &[u8], message: &[u8]) -> (tag: [u8; 32])
    requires
        key@.len() <= HASH_INPUT_MAX,
        message@.len() <= HASH_INPUT_MAX,
    ensures
        tag == hmac_sha256(key@, message@),
{
    let mut mac = <hmac::Hmac<sha2::Sha256> as hmac::Mac>::new_from_slice(key)
        .expect("HMAC-SHA256 accepts any key length");
    hmac::Mac::update(&mut mac, message);
    hmac::Mac::finalize(mac).into_bytes().into()
}

/// `hkdf::Hkdf<Sha256>`, `new` and then `expand` into 32 bytes. `expand`
/// refuses more than 255 digests of output and nothing else, so 32 bytes are
/// always served.
#[verifier::external_body]
pub(crate) fn hkdf_sha256_32(salt: &[u8], ikm: &[u8], info: &[u8]) -> (okm: Result<[u8; 32], hkdf::InvalidLength>)
    requires
        salt@.len() <= HASH_INPUT_MAX,
        ikm@.len() <= HASH_INPUT_MAX,
        info@.len() <= HASH_INPUT_MAX,
    ensures
        okm is Ok,
        okm->Ok_0 == hkdf_sha256(salt@, ikm@, info@),
{
    let hk = hkdf::Hkdf::<sha2::Sha256>::new(Some(salt), ikm);
    let mut okm = [0u8; 32];
    hk.expand(info, &mut okm)?;
    Ok(okm)
}

// ---------------------------------------------------------------------------
// Authenticated encryption
// ---------------------------------------------------------------------------

/// `aes_gcm::Aes256Gcm::encrypt` with associated data. It refuses only input
/// above its limits, appends a 16-byte tag, and decrypting under the same key,
/// nonce and associated data gives the plaintext back.
#[verifier::external_body]
pub(crate) fn aes256gcm_encrypt(
    key: &[u8; 32],
    nonce: &[u8; 12],
    aad: &[u8],
    plaintext: &[u8],
) -> (sealed: Result<Vec<u8>, aes_gcm::Error>)
    requires
        aad@.len() <= AES_GCM_MAX,
        plaintext@.len() <= AES_GCM_MAX,
    ensures
        sealed is Ok,
        sealed->Ok_0@ == aes256gcm_seal(key@, nonce@, aad@, plaintext@),
        sealed->Ok_0@.len() == plaintext@.len() + TAG_SIZE,
        aes256gcm_open(key@, nonce@, aad@, sealed->Ok_0@) == Some(plaintext@),
{
    let cipher = <aes_gcm::Aes256Gcm as aes_gcm::KeyInit>::new(key.into());
    let payload = aes_gcm::aead::Payload { msg: plaintext, aad };
    aes_gcm::aead::Aead::encrypt(&cipher, nonce.into(), payload)
}

/// `aes_gcm::Aes256Gcm::decrypt` with associated data. What it accepts is
/// ciphertext and tag that encrypting the returned plaintext gives again,
/// as far as encrypting takes a plaintext of that length.
#[verifier::external_body]
pub(crate) fn aes256gcm_decrypt(
    key: &[u8; 32],
    nonce: &[u8; 12],
    aad: &[u8],
    sealed: &[u8],
) -> (plaintext: Result<Vec<u8>, aes_gcm::Error>)
    requires
        aad@.len() <= AES_GCM_MAX,
    ensures
        match plaintext {
            Ok(pt) => {
                &&& aes256gcm_open(key@, nonce@, aad@, sealed@) == Some(pt@)
                &&& sealed@.len() == pt@.len() + TAG_SIZE
                &&& pt@.len() <= AES_GCM_MAX ==> sealed@ == aes256gcm_seal(key@, nonce@, aad@, pt@)
            },
            Err(_) => aes256gcm_open(key@, nonce@, aad@, sealed@) is None,
        },
{
    let cipher = <aes_gcm::Aes256Gcm as aes_gcm::KeyInit>::new(key.into());
    let payload = aes_gcm::aead::Payload { msg: sealed, aad };
    aes_gcm::aead::Aead::decrypt(&cipher, nonce.into(), payload)
}

/// `chacha20poly1305::ChaCha20Poly1305::encrypt` of one vault payload. A
/// plaintext of this size is never refused; a 16-byte tag is appended, and
/// decrypting under the same key and nonce gives the plaintext back.
#[verifier::external_body]
pub(crate) fn chacha20poly1305_encrypt(
    key: &[u8; 32],
    nonce: &[u8; 12],
    plaintext: &[u8; PAYLOAD_SIZE],
) -> (sealed: Result<Vec<u8>, aes_gcm::Error>)
    ensures
        sealed is Ok,
        sealed->Ok_0@ == chacha20poly1305_seal(key@, nonce@, plaintext@),
        sealed->Ok_0@.len() == PAYLOAD_SIZE + TAG_SIZE,
        chacha20poly1305_open(key@, nonce@, sealed->Ok_0@) == Some(plaintext@),
{
    let cipher = <chacha20poly1305::ChaCha20Poly1305 as chacha20poly1305::KeyInit>::new(key.into());
    chacha20poly1305::aead::Aead::encrypt(&cipher, nonce.into(), plaintext.as_slice())
}

/// `chacha20poly1305::ChaCha20Poly1305::decrypt` of one vault frame. What it
/// accepts is ciphertext and tag that encrypting the returned plaintext gives
/// again.
#[verifier::external_body]
pub(crate) fn chacha20poly1305_decrypt(
    key: &[u8; 32],
    nonce: &[u8; 12],
    sealed: &[u8],
) -> (plaintext: Result<Vec<u8>, aes_gcm::Error>)
    requires
        sealed@.len() == PAYLOAD_SIZE + TAG_SIZE,
    ensures
        match plaintext {
            Ok(pt) => {
                &&& chacha20poly1305_open(key@, nonce@, sealed@) == Some(pt@)
                &&& pt@.len() == PAYLOAD_SIZE
                &&& sealed@ == chacha20poly1305_seal(key@, nonce@, pt@)
            },
            Err(_) => chacha20poly1305_open(key@, nonce@, sealed@) is None,
        },
{
    let cipher = <chacha20poly1305::ChaCha20Poly1305 as chacha20poly1305::KeyInit>::new(key.into());
    chacha20poly1305::aead::Aead::decrypt(&cipher, nonce.into(), sealed)
}

// ---------------------------------------------------------------------------
// Key encapsulation
// ---------------------------------------------------------------------------

/// `pqc_kyber::keypair` fed by `rand::rngs::OsRng`: a public and a secret key
/// made of 64 bytes that the call draws. That decapsulating inverts
/// encapsulating holds only up to a negligible probability, so it is left
/// unsaid.
#[verifier::external_body]
pub(crate) fn kem_keypair() -> (keys: ([u8; KEM_PUBLIC_KEY_LEN], [u8; KEM_SECRET_KEY_LEN]))
    ensures
        exists|drawn: [u8; 64]| #[trigger] kem_keys(drawn) == (keys.0@, keys.1@),
{
    let keys = pqc_kyber::keypair(&mut rand::rngs::OsRng);
    (keys.public, keys.secret)
}

/// `pqc_kyber::encapsulate` fed by `rand::rngs::OsRng`: a ciphertext and a
/// shared secret made of the public key and of 32 bytes that the call draws.
/// It refuses a public key of the wrong length and nothing else.
#[verifier::external_body]
pub(crate) fn kem_encapsulate(public_key: &[u8]) -> (made: Result<([u8; KEM_CIPHERTEXT_LEN], [u8; 32]), pqc_kyber::KyberError>)
    ensures
        made is Ok <==> public_key@.len() == KEM_PUBLIC_KEY_LEN,
        made matches Ok(pair) ==> exists|drawn: [u8; 32]|
            #[trigger] kem_encapsulation(public_key@, drawn) == (pair.0@, pair.1@),
{
    pqc_kyber::encapsulate(public_key, &mut rand::rngs::OsRng)
}

/// `pqc_kyber::decapsulate`: the shared secret inside a ciphertext. It refuses
/// a ciphertext or a secret key of the wrong length, and a ciphertext that
/// does not encrypt again to itself.
#[verifier::external_body]
pub(crate) fn kem_decapsulate(ciphertext: &[u8], secret_key: &[u8]) -> (secret: Result<[u8; 32], pqc_kyber::KyberError>)
    ensures
        match secret {
            Ok(ss) => {
                &&& kem_shared_secret(ciphertext@, secret_key@) == Some(ss)
                &&& ciphertext@.len() == KEM_CIPHERTEXT_LEN
                &&& secret_key@.len() == KEM_SECRET_KEY_LEN
            },
            Err(_) => kem_shared_secret(ciphertext@, secret_key@) is None,
        },
{
    pqc_kyber::decapsulate(ciphertext, secret_key)
}

// ---------------------------------------------------------------------------
// Randomness
// ---------------------------------------------------------------------------

/// `rand::rngs::OsRng::fill_bytes`: overwrites every byte of `dest` with bytes
/// of the operating system's generator. Which bytes come is left open, but for
/// where they come from; the call panics where the generator itself fails.
#[verifier::external_body]
pub(crate) fn fill_random(dest: &mut [u8])
    ensures
        final(dest)@.len() == old(dest)@.len(),
        drawn(final(dest)@),
{
    rand::RngCore::fill_bytes(&mut rand::rngs::OsRng, dest)
}

/// `rand::rngs::OsRng::next_u32`: any number. The call panics where the
/// generator itself fails.
#[verifier::external_body]
pub(crate) fn random_u32() -> (number: u32)
    ensures
        drawn_number(number),
{
    rand::RngCore::next_u32(&mut rand::rngs::OsRng)
}

// ---------------------------------------------------------------------------
// Erasure
// ---------------------------------------------------------------------------

/// `zeroize::Zeroize::zeroize` on a vector: overwrites the whole allocation
/// with zeros and leaves the vector empty.
#[verifier::external_body]
pub(crate) fn zeroize_vec(data: &mut Vec<u8>)
    ensures
        final(data)@ == Seq::<u8>::empty(),
    opens_invariants none
    no_unwind
{
    zeroize::Zeroize::zeroize(data)
}

/// `zeroize::Zeroize::zeroize` on a slice: every byte becomes zero.
#[verifier::external_body]
pub(crate) fn zeroize_slice(data: &mut [u8])
    ensures
        final(data)@ == zeros(old(data)@.len()),
    opens_invariants none
    no_unwind
{
    zeroize::Zeroize::zeroize(data)
}

// ---------------------------------------------------------------------------
// Laws
// ---------------------------------------------------------------------------

/// `zeros` is as many bytes as were asked for, each of them 0.
pub proof fn law_zeros(n: nat, i: int)
    ensures
        zeros(n).len() == n,
        0 <= i < n ==> zeros(n)[i] == 0,
{
}

/// A key pair is one that comes of 64 drawn bytes.
pub proof fn law_keypair_is_generated(public_key: Seq<u8>, secret_key: Seq<u8>)
    ensures
        is_kem_keypair(public_key, secret_key) <==> exists|bytes: [u8; 64]| #[trigger]
            kem_keys(bytes) == (public_key, secret_key),
{
}

/// An encapsulation is one that comes of the public key and 32 drawn bytes.
pub proof fn law_encapsulation_is_to_public_key(public_key: Seq<u8>, ciphertext: Seq<u8>, secret: Seq<u8>)
    ensures
        is_kem_encapsulation(public_key, ciphertext, secret) <==> exists|bytes: [u8; 32]| #[trigger]
            kem_encapsulation(public_key, bytes) == (ciphertext, secret),
{
}

} // verus!
