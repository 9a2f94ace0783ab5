//! Hashes, keys and random bytes.
//!
//! They come from the crates `sha3`, `hmac` with `sha2`, `ed25519-dalek`,
//! `rsa` and `rand`. What this file says of them is taken on trust.

use ed25519_dalek::{ExpandedSecretKey, PublicKey, SecretKey};
use hmac::{Hmac, Mac};
use rand::RngCore;
use rsa::{PrivateKeyEncoding, PublicKeyEncoding, RSAPrivateKey};
use sha2::Sha256;
use sha3::{Digest, Sha3_256};
use vstd::prelude::*;

verus! {

/// The SHA3-256 digest of `data`.
pub uninterp spec fn sha3_256(data: Seq<u8>) -> Seq<u8>;

/// The HMAC-SHA256 code of `message` under `key`.
pub uninterp spec fn hmac_sha256(key: Seq<u8>, message: Seq<u8>) -> Seq<u8>;

/// Whether 32 bytes are the compressed form of a point of the curve of
/// Ed25519.
pub uninterp spec fn ed25519_is_point(bytes: Seq<u8>) -> bool;

/// The public key of Ed25519 that belongs to an expanded secret key.
pub uninterp spec fn ed25519_public(secret: Seq<u8>) -> Seq<u8>;

/// `Sha3_256::digest` of the crate `sha3`.
#[verifier::external_body]
pub(crate) fn sha3_256_digest(data: &[u8]) -> (res: [u8; 32])
    ensures
        res@ == sha3_256(data@),
{
    let digest = Sha3_256::digest(data);
    let mut out = [0u8; 32];
    out.copy_from_slice(digest.as_slice());
    out
}

/// `Hmac<Sha256>` of the crates `hmac` and `sha2`: the code of `message`
/// under `key`. A key of any length is taken.
#[verifier::external_body]
pub(crate) fn hmac_sha256_code(key: &[u8], message: &[u8]) -> (res: Option<[u8; 32]>)
    ensures
        match res {
            Some(code) => code@ == hmac_sha256(key@, message@),
            None => false,
        },
{
    let mut mac = Hmac::<Sha256>::new_varkey(key).ok()?;
    mac.input(message);
    let code = mac.result().code();
    let mut out = [0u8; 32];
    out.copy_from_slice(code.as_slice());
    Some(out)
}

/// `PublicKey::from_bytes` of the crate `ed25519-dalek`: whether `bytes`
/// are a point of the curve.
#[verifier::external_body]
pub(crate) fn ed25519_check_point(bytes: &[u8; 32]) -> (res: bool)
    ensures
        res == ed25519_is_point(bytes@),
{
    PublicKey::from_bytes(bytes).is_ok()
}

/// `PublicKey::from` an `ExpandedSecretKey` of the crate `ed25519-dalek`.
/// Any 64 bytes are taken as an expanded secret key, and the public key is
/// a point of the curve.
#[verifier::external_body]
pub(crate) fn ed25519_public_key(secret: &[u8; 64]) -> (res: Option<[u8; 32]>)
    ensures
        match res {
            Some(public) => public@ == ed25519_public(secret@) && ed25519_is_point(public@),
            None => false,
        },
{
    let expanded = ExpandedSecretKey::from_bytes(secret).ok()?;
    Some(PublicKey::from(&expanded).to_bytes())
}

/// `SecretKey::generate` of the crate `ed25519-dalek` with the generator of
/// `rand::thread_rng`, expanded: a fresh expanded secret key. Whatever the
/// seed, the expansion clears the three lowest bits of the scalar and the
/// highest one, and sets the second highest.
#[verifier::external_body]
pub(crate) fn ed25519_generate() -> (res: [u8; 64])
    ensures
        res@[0] & 7 == 0,
        res@[31] & 0xc0 == 0x40,
{
    let secret = SecretKey::generate(&mut rand::thread_rng());
    ExpandedSecretKey::from(&secret).to_bytes()
}

/// `RSAPrivateKey::new` of the crate `rsa` with the generator of the
/// operating system, for a key of 1024 bits: the PKCS#1 encoding of a fresh
/// key and the PKCS#1 encoding of its public key, both from `to_pkcs1`.
/// Nothing is given when the crate reports an error.
#[verifier::external_body]
pub(crate) fn rsa_generate_1024() -> (res: Option<(Vec<u8>, Vec<u8>)>) {
    let key = RSAPrivateKey::new(&mut rand_core::OsRng, 1024).ok()?;
    let public = PublicKeyEncoding::to_pkcs1(&key.to_public_key()).ok()?;
    let secret = PrivateKeyEncoding::to_pkcs1(&key).ok()?;
    Some((secret, public))
}

/// `RngCore::fill_bytes` on `rand::thread_rng`: 32 random bytes.
#[verifier::external_body]
pub(crate) fn random_32() -> (res: [u8; 32]) {
    let mut out = [0u8; 32];
    rand::thread_rng().fill_bytes(&mut out);
    out
}

} // verus!
