use vstd::prelude::*;
use crypto::digest::Digest;
use vstd::utf8::{decode_utf8, valid_utf8};

verus! {

/// What `sodiumoxide::crypto::hash::sha256::hash` returns for a message.
pub uninterp spec fn sha256_digest(data: Seq<u8>) -> Seq<u8>;

/// The public and secret key that `sodiumoxide::crypto::sign::keypair_from_seed`
/// computes from a seed.
pub uninterp spec fn seed_keypair(seed: Seq<u8>) -> (Seq<u8>, Seq<u8>);

/// What `sodiumoxide::crypto::sign::sign_detached` returns for a secret key and
/// a message (Ed25519 signing is deterministic).
pub uninterp spec fn detached_signature(sk: Seq<u8>, msg: Seq<u8>) -> Seq<u8>;

/// What `sodiumoxide::crypto::sign::verify_detached` answers for a signature,
/// a message and a public key.
pub uninterp spec fn signature_valid(pk: Seq<u8>, msg: Seq<u8>, sig: Seq<u8>) -> bool;

/// Relies on `sodiumoxide::crypto::hash::sha256::hash`: the digest of a message
/// depends on the message alone.
#[verifier::external_body]
pub fn sha256(data: &[u8]) -> (r: [u8; 32])
    ensures
        r@ == sha256_digest(data@),
{
    sodiumoxide::crypto::hash::sha256::hash(data).0
}

/// Relies on `sodiumoxide::randombytes::randombytes`: that many random bytes.
#[verifier::external_body]
pub fn random_seed() -> (r: Vec<u8>)
    ensures
        r@.len() == 32,
{
    sodiumoxide::randombytes::randombytes(32)
}

/// Relies on `sodiumoxide::crypto::sign::keypair_from_seed`: the key pair is a
/// function of the 32-byte seed.
#[verifier::external_body]
pub fn keypair_from_seed(seed: &[u8]) -> (r: ([u8; 32], [u8; 64]))
    requires
        seed@.len() == 32,
    ensures
        (r.0@, r.1@) == seed_keypair(seed@),
{
    let s = sodiumoxide::crypto::sign::Seed::from_slice(seed).unwrap();
    let (pk, sk) = sodiumoxide::crypto::sign::keypair_from_seed(&s);
    (pk.0, sk.0)
}

/// Relies on `sodiumoxide::crypto::sign::sign_detached`: the Ed25519 signature
/// of a message under a secret key.
#[verifier::external_body]
pub fn sign_detached(msg: &[u8], sk: &[u8; 64]) -> (r: [u8; 64])
    ensures
        r@ == detached_signature(sk@, msg@),
{
    let key = sodiumoxide::crypto::sign::SecretKey(*sk);
    sodiumoxide::crypto::sign::sign_detached(msg, &key).to_bytes()
}

/// Relies on `sodiumoxide::crypto::sign::verify_detached`: whether a signature
/// over a message verifies under a public key.
#[verifier::external_body]
pub fn verify_detached(sig: &[u8; 64], msg: &[u8], pk: &[u8; 32]) -> (r: bool)
    ensures
        r == signature_valid(pk@, msg@, sig@),
{
    match sodiumoxide::crypto::sign::Signature::from_bytes(sig) {
        Ok(s) => sodiumoxide::crypto::sign::verify_detached(&s, msg, &sodiumoxide::crypto::sign::PublicKey(*pk)),
        Err(_) => false,
    }
}

/// What rust-crypto's `crypto::sha2::Sha256` gives for a message.
pub uninterp spec fn sha2_256_digest(data: Seq<u8>) -> Seq<u8>;

/// Relies on `crypto::sha2::Sha256` (rust-crypto): the digest of a message
/// depends on the message alone.
#[verifier::external_body]
pub fn sha2_256(data: &[u8]) -> (r: [u8; 32])
    ensures
        r@ == sha2_256_digest(data@),
{
    let mut hasher = crypto::sha2::Sha256::new();
    hasher.input(data);
    let mut out = [0u8; 32];
    hasher.result(&mut out);
    out
}

/// Relies on `uuid::Uuid::new_v4`: sixteen random bytes.
#[verifier::external_body]
pub fn new_v4_uuid() -> (r: [u8; 16]) {
    *uuid::Uuid::new_v4().as_bytes()
}

/// Relies on `String::from_utf8`: it succeeds exactly on valid UTF-8.
#[verifier::external_body]
pub fn string_from_utf8(bytes: Vec<u8>) -> (r: Option<String>)
    ensures
        r is Some <==> valid_utf8(bytes@),
        r matches Some(s) ==> s@ == decode_utf8(bytes@),
{
    String::from_utf8(bytes).ok()
}

} // verus!
