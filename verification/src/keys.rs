//! Deterministic ECDSA over secp256k1, through the `k256` crate: key
//! generation, signing of a 32-byte digest, and verification. The three
//! operations are named as uninterpreted functions of the raw bytes.

use vstd::prelude::*;
use k256::ecdsa::signature::hazmat::{PrehashSigner, PrehashVerifier};
use k256::elliptic_curve::Generate;

verus! {

/// The 33-byte compressed SEC1 encoding of the public key derived from a
/// private scalar: a function of the scalar bytes alone.
pub uninterp spec fn pubkey_of(sk: Seq<u8>) -> Seq<u8>;

/// The 64-byte raw signature that deterministic ECDSA (RFC 6979) produces
/// over secp256k1 for a private scalar and a message digest.
pub uninterp spec fn ecdsa_sig_of(sk: Seq<u8>, msg: Seq<u8>) -> Seq<u8>;

/// Whether the key parses as a SEC1 point, the signature parses as 64 raw
/// bytes with in-range scalars, and the signature verifies over the
/// digest: a function of the three byte strings alone.
pub uninterp spec fn ecdsa_verify_ok(pk: Seq<u8>, msg: Seq<u8>, sig: Seq<u8>) -> bool;

/// Whether a byte string reads as a usable private scalar — the success
/// condition of `SigningKey::from_slice`: an admissible length and a
/// nonzero in-range value. A function of the bytes alone.
pub uninterp spec fn valid_scalar(sk: Seq<u8>) -> bool;

/// Relies on `SigningKey::from_slice` and `SigningKey::sign_prehash`
/// (k256, RFC 6979): the call succeeds exactly when the key bytes parse
/// as a valid scalar (signing itself never fails); signing a digest is
/// deterministic, the raw signature is 64 bytes with a normalized `s`,
/// and it verifies under the signer's 33-byte compressed public key.
#[verifier::external_body]
pub fn ecdsa_sign_hash(sk: &Vec<u8>, msg: &Vec<u8>) -> (r: Option<Vec<u8>>)
    requires
        msg@.len() == 32,
    ensures
        r is Some <==> valid_scalar(sk@),
        r matches Some(sig) ==> {
            &&& sig@ == ecdsa_sig_of(sk@, msg@)
            &&& sig@.len() == 64
            &&& pubkey_of(sk@).len() == 33
            &&& ecdsa_verify_ok(pubkey_of(sk@), msg@, sig@)
        },
{
    let key = match k256::ecdsa::SigningKey::from_slice(sk) {
        Ok(k) => k,
        Err(_) => return None,
    };
    let sig: k256::ecdsa::Signature = match key.sign_prehash(msg) {
        Ok(s) => s,
        Err(_) => return None,
    };
    Some(sig.to_bytes().to_vec())
}

/// Relies on `VerifyingKey::from_sec1_bytes`, `Signature::try_from` and
/// `verify_prehash` (k256): true exactly when the key and the signature
/// parse and the signature verifies over the digest.
#[verifier::external_body]
pub fn ecdsa_verify_hash(pk: &Vec<u8>, msg: &Vec<u8>, sig: &Vec<u8>) -> (r: bool)
    ensures
        r == ecdsa_verify_ok(pk@, msg@, sig@),
{
    let key = match k256::ecdsa::VerifyingKey::from_sec1_bytes(pk) {
        Ok(k) => k,
        Err(_) => return false,
    };
    let signature = match k256::ecdsa::Signature::try_from(sig.as_slice()) {
        Ok(s) => s,
        Err(_) => return false,
    };
    key.verify_prehash(msg, &signature).is_ok()
}

/// Relies on `SigningKey::generate` and `VerifyingKey::to_sec1_point`
/// (k256): a fresh random key pair; the private half is the canonical 32
/// bytes of a valid nonzero scalar, which `SigningKey::from_slice` reads
/// back; the public half is the 33-byte compressed SEC1 point derived
/// from it. Panics only if the operating system's entropy source fails.
#[verifier::external_body]
pub fn generate_keypair() -> (r: (Vec<u8>, Vec<u8>))
    ensures
        r.0@.len() == 32,
        valid_scalar(r.0@),
        r.1@ == pubkey_of(r.0@),
        r.1@.len() == 33,
{
    let sk = k256::ecdsa::SigningKey::generate();
    let point = sk.verifying_key().to_sec1_point(true);
    (sk.to_bytes().to_vec(), point.as_ref().to_vec())
}

} // verus!
