//! ECDSA over secp256k1, through the `secp256k1` crate.
//!
//! Keys, signatures and digests cross this module as plain bytes. What the
//! curve arithmetic returns is named, not restated: the names below stand for
//! the results of the crate's functions, and the wrappers tie each call to its
//! name.

use crate::primitives::types::be_value;
use rand::rngs::OsRng;
use secp256k1::ecdsa::Signature;
use secp256k1::{Message, PublicKey, Secp256k1, SecretKey};
use vstd::prelude::*;

verus! {

/// The order of the group of the curve.
pub open spec fn curve_order() -> nat {
    0xFFFFFFFF_FFFFFFFF_FFFFFFFF_FFFFFFFE_BAAEDCE6_AF48A03B_BFD25E8C_D0364141nat
}

/// Whether the bytes are a secret key: 32 bytes that stand, the first byte
/// the most significant, for a number above zero and below the order of the
/// curve.
pub open spec fn secret_key_valid(secret: Seq<u8>) -> bool {
    secret.len() == 32 && 0 < be_value(secret) < curve_order()
}

/// The compressed public key that `SecretKey::public_key` derives from a
/// secret key.
pub uninterp spec fn public_key_of(secret: Seq<u8>) -> Seq<u8>;

/// Whether `PublicKey::from_slice` accepts the bytes as a public key.
pub uninterp spec fn public_key_parses(public_key: Seq<u8>) -> bool;

/// Whether `Signature::from_der` accepts the bytes as a DER signature.
pub uninterp spec fn signature_parses(der: Seq<u8>) -> bool;

/// The DER signature that `Secp256k1::sign_ecdsa` makes of a digest with a
/// secret key. The nonce is derived from the two, so the signature depends on
/// them alone.
pub uninterp spec fn ecdsa_signature(secret: Seq<u8>, digest: Seq<u8>) -> Seq<u8>;

/// Whether `Secp256k1::verify_ecdsa` accepts a signature of a digest under a
/// public key.
pub uninterp spec fn ecdsa_accepts(der: Seq<u8>, public_key: Seq<u8>, digest: Seq<u8>) -> bool;

/// Calls `SecretKey::from_slice`. Trusted: it accepts 32 bytes that stand
/// for a number above zero and below the order of the curve, and nothing
/// else.
#[verifier::external_body]
pub(crate) fn secret_key_is_valid(secret: &[u8]) -> (ok: bool)
    ensures
        ok == secret_key_valid(secret@),
{
    SecretKey::from_slice(secret).is_ok()
}

/// Calls `SecretKey::new` with the operating system's random source. Trusted:
/// the 32 bytes are a secret key. Which key comes back is not stated.
#[verifier::external_body]
pub(crate) fn random_secret_key() -> (secret: [u8; 32])
    ensures
        secret_key_valid(secret@),
{
    SecretKey::new(&mut OsRng).secret_bytes()
}

/// Calls `SecretKey::public_key` and `PublicKey::serialize`. Trusted: the 33
/// bytes are the key that `public_key_of` names, and `PublicKey::from_slice`
/// reads them back.
#[verifier::external_body]
pub(crate) fn derive_public_key(secret: &[u8; 32]) -> (public_key: [u8; 33])
    requires
        secret_key_valid(secret@),
    ensures
        public_key@ == public_key_of(secret@),
        public_key_parses(public_key@),
{
    let key = SecretKey::from_slice(secret).unwrap();
    key.public_key(&Secp256k1::new()).serialize()
}

/// Calls `PublicKey::from_slice`. Trusted: the answer is what
/// `public_key_parses` names.
#[verifier::external_body]
pub(crate) fn public_key_is_valid(public_key: &[u8]) -> (ok: bool)
    ensures
        ok == public_key_parses(public_key@),
{
    PublicKey::from_slice(public_key).is_ok()
}

/// Calls `Signature::from_der`. Trusted: the answer is what
/// `signature_parses` names.
#[verifier::external_body]
pub(crate) fn signature_is_valid(der: &[u8]) -> (ok: bool)
    ensures
        ok == signature_parses(der@),
{
    Signature::from_der(der).is_ok()
}

/// Calls `Secp256k1::sign_ecdsa` and `Signature::serialize_der`. Trusted: the
/// bytes are the signature that `ecdsa_signature` names and at most 72 long;
/// `Signature::from_der` reads them back; and `Secp256k1::verify_ecdsa`
/// accepts them for the same digest under the public key of the same secret.
#[verifier::external_body]
pub(crate) fn ecdsa_sign(secret: &[u8; 32], digest: &[u8; 32]) -> (der: Vec<u8>)
    requires
        secret_key_valid(secret@),
    ensures
        der@ == ecdsa_signature(secret@, digest@),
        der@.len() <= 72,
        signature_parses(der@),
        ecdsa_accepts(der@, public_key_of(secret@), digest@),
{
    let key = SecretKey::from_slice(secret).unwrap();
    let message = Message::from_digest(*digest);
    Secp256k1::new().sign_ecdsa(&message, &key).serialize_der().to_vec()
}

/// Calls `Secp256k1::verify_ecdsa` on a parsed signature and public key.
/// Trusted: the answer is what `ecdsa_accepts` names.
#[verifier::external_body]
pub(crate) fn ecdsa_verify(der: &[u8], public_key: &[u8], digest: &[u8; 32]) -> (ok: bool)
    requires
        signature_parses(der@),
        public_key_parses(public_key@),
    ensures
        ok == ecdsa_accepts(der@, public_key@, digest@),
{
    let signature = Signature::from_der(der).unwrap();
    let key = PublicKey::from_slice(public_key).unwrap();
    let message = Message::from_digest(*digest);
    Secp256k1::verification_only().verify_ecdsa(&message, &signature, &key).is_ok()
}

} // verus!
