//! The cryptographic primitives that the client relies on. Each function
//! here hands its arguments to an outside crate; what it returns is not
//! computed by verified code, only named.

use vstd::prelude::*;
use aes::cipher::{KeyIvInit, StreamCipher};
use ed25519_dalek::{Signer, Verifier};

verus! {

/// The result of the X25519 function for a scalar and a point.
pub uninterp spec fn x25519_output(scalar: Seq<u8>, point: Seq<u8>) -> Seq<u8>;

/// The Ed25519 public key that belongs to a secret key.
pub uninterp spec fn ed25519_public_of(secret: Seq<u8>) -> Seq<u8>;

/// The Ed25519 signature of a message under a secret key.
pub uninterp spec fn ed25519_signature(secret: Seq<u8>, message: Seq<u8>) -> Seq<u8>;

/// Whether 32 bytes are the encoding of an Ed25519 public key.
pub uninterp spec fn ed25519_key_valid(public: Seq<u8>) -> bool;

/// Whether an Ed25519 public key accepts a signature of a message.
pub uninterp spec fn ed25519_accepts(public: Seq<u8>, message: Seq<u8>, signature: Seq<u8>) -> bool;

/// The 48 bytes that HKDF-SHA256 derives from input key material, without salt or info.
pub uninterp spec fn hkdf_sha256_output(ikm: Seq<u8>) -> Seq<u8>;

/// The data combined with the AES-128-CTR keystream of a key, the counter starting at zero.
pub uninterp spec fn aes128_ctr_output(key: Seq<u8>, data: Seq<u8>) -> Seq<u8>;

/// The bytes that a Base58 string stands for, if it is one.
pub uninterp spec fn base58_decoded(text: Seq<char>) -> Option<Seq<u8>>;

/// The first `count` bytes of a byte string.
pub open spec fn first_bytes(bytes: Seq<u8>, count: nat) -> Seq<u8> {
    Seq::new(count, |i: int| bytes[i])
}

/// The u-coordinate of the X25519 base point.
pub open spec fn x25519_basepoint() -> Seq<u8> {
    seq![9u8].add(Seq::new(31, |i: int| 0u8))
}

/// The X25519 base point as bytes.
pub fn basepoint_bytes() -> (point: [u8; 32])
    ensures
        point@ == x25519_basepoint(),
{
    let mut point = [0u8; 32];
    point[0] = 9;
    assert(point@ =~= x25519_basepoint());
    point
}

/// Multiplies `point` by `scalar` on Curve25519.
///
/// Trusted: calls `x25519_dalek::x25519`. The result is named, and the
/// contract adds the agreement that Diffie-Hellman rests on: where `point`
/// is the public share of some other scalar, the result is what the owner
/// of that scalar computes from the public share of `scalar`.
#[verifier::external_body]
pub(crate) fn x25519(scalar: &[u8; 32], point: &[u8; 32]) -> (out: [u8; 32])
    ensures
        out@ == x25519_output(scalar@, point@),
        forall|other: Seq<u8>|
            other.len() == 32 && point@ == #[trigger] x25519_output(other, x25519_basepoint())
                ==> out@ == x25519_output(other, x25519_output(scalar@, x25519_basepoint())),
{
    x25519_dalek::x25519(*scalar, *point)
}

/// The public key of an Ed25519 secret key.
///
/// Trusted: calls `SigningKey::from_bytes` and `SigningKey::verifying_key`
/// of ed25519-dalek; the result is named.
#[verifier::external_body]
pub(crate) fn ed25519_public(secret: &[u8; 32]) -> (public: [u8; 32])
    ensures
        public@ == ed25519_public_of(secret@),
{
    ed25519_dalek::SigningKey::from_bytes(secret).verifying_key().to_bytes()
}

/// Signs `message` with an Ed25519 secret key.
///
/// Trusted: calls `SigningKey::sign` of ed25519-dalek, which is
/// deterministic; the result is named.
#[verifier::external_body]
pub(crate) fn ed25519_sign(secret: &[u8; 32], message: &[u8]) -> (signature: [u8; 64])
    ensures
        signature@ == ed25519_signature(secret@, message@),
{
    ed25519_dalek::SigningKey::from_bytes(secret).sign(message).to_bytes()
}

/// Says whether 32 bytes are an Ed25519 public key.
///
/// Trusted: calls `VerifyingKey::from_bytes` of ed25519-dalek, which fails
/// on bytes that are no point of the curve; whether it succeeds is named.
#[verifier::external_body]
pub(crate) fn ed25519_key_is_valid(public: &[u8; 32]) -> (valid: bool)
    ensures
        valid == ed25519_key_valid(public@),
{
    ed25519_dalek::VerifyingKey::from_bytes(public).is_ok()
}

/// Checks a signature of `message` against a public key.
///
/// Trusted: calls `VerifyingKey::from_bytes` and `VerifyingKey::verify` of
/// ed25519-dalek. Bytes that are no key accept nothing; for a key the
/// verdict is named.
#[verifier::external_body]
pub(crate) fn ed25519_verify(public: &[u8; 32], message: &[u8], signature: &[u8; 64]) -> (accepted:
    bool)
    ensures
        accepted == (ed25519_key_valid(public@) && ed25519_accepts(
            public@,
            message@,
            signature@,
        )),
{
    match ed25519_dalek::VerifyingKey::from_bytes(public) {
        Ok(key) => key.verify(message, &ed25519_dalek::Signature::from_bytes(signature)).is_ok(),
        Err(_) => false,
    }
}

/// The HMAC-SHA256 tag of data under a key.
pub uninterp spec fn hmac_sha256_output(key: Seq<u8>, data: Seq<u8>) -> Seq<u8>;

/// Computes the HMAC-SHA256 tag of `data` under `key`.
///
/// Trusted: calls `Hmac::<Sha256>::new_from_slice`, which takes a key of
/// any length, then `update` and `finalize`; the tag of 32 bytes is named.
#[verifier::external_body]
pub(crate) fn hmac_sha256(key: &[u8], data: &[u8]) -> (tag: [u8; 32])
    ensures
        tag@ == hmac_sha256_output(key@, data@),
{
    match <hmac::Hmac<sha2::Sha256> as hmac::Mac>::new_from_slice(key) {
        Ok(mac) => hmac::Mac::finalize(hmac::Mac::chain_update(mac, data)).into_bytes().into(),
        Err(_) => [0u8; 32],
    }
}

/// Derives 48 bytes of key material from a shared secret.
///
/// Trusted: calls `Hkdf::<Sha256>::new` without salt and `expand` without
/// info, for 48 bytes, a length that `expand` accepts; the result is named.
#[verifier::external_body]
pub(crate) fn hkdf_sha256(ikm: &[u8; 32]) -> (okm: [u8; 48])
    ensures
        okm@ == hkdf_sha256_output(ikm@),
{
    let mut okm = [0u8; 48];
    let _ = hkdf::Hkdf::<sha2::Sha256>::new(None, ikm).expand(&[], &mut okm);
    okm
}

/// Encrypts or decrypts `data` with AES-128 in counter mode, the counter starting at zero.
///
/// Trusted: calls `apply_keystream` of the `ctr` and `aes` crates, which
/// combines the data with the keystream by exclusive or, in place. So it
/// keeps the length, and applied to its own result with the same key it
/// gives the data back. The result is named.
#[verifier::external_body]
pub(crate) fn aes128_ctr(key: &[u8; 16], data: &[u8]) -> (out: Vec<u8>)
    ensures
        out@ == aes128_ctr_output(key@, data@),
        out@.len() == data@.len(),
        aes128_ctr_output(key@, out@) == data@,
{
    let mut out = data.to_vec();
    let mut cipher = ctr::Ctr64BE::<aes::Aes128>::new(key.into(), &[0u8; 16].into());
    cipher.apply_keystream(&mut out);
    out
}

/// Decodes a Base58 string.
///
/// Trusted: calls `bs58::decode(..).into_vec()`; the result is named.
#[verifier::external_body]
pub(crate) fn base58_decode(text: &str) -> (bytes: Option<Vec<u8>>)
    ensures
        bytes is Some <==> base58_decoded(text@) is Some,
        bytes is Some ==> bytes.unwrap()@ == base58_decoded(text@).unwrap(),
{
    bs58::decode(text).into_vec().ok()
}

} // verus!
