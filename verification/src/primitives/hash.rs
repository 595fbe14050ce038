//! SHA-256 and RIPEMD-160, and the two compositions the chain uses.

use crate::primitives::types::Hash256;
use ripemd::Ripemd160;
use sha2::Digest;
use sha2::Sha256;
use vstd::prelude::*;

verus! {

/// The SHA-256 digest of a byte string, as the `sha2` crate computes it.
pub uninterp spec fn sha256(data: Seq<u8>) -> Seq<u8>;

/// The RIPEMD-160 digest of a byte string, as the `ripemd` crate computes it.
pub uninterp spec fn ripemd160(data: Seq<u8>) -> Seq<u8>;

/// The double hash of block headers, transactions and Merkle nodes.
pub open spec fn spec_hash256(data: Seq<u8>) -> Seq<u8> {
    sha256(sha256(data))
}

/// The address hash of a public key.
pub open spec fn spec_hash160(data: Seq<u8>) -> Seq<u8> {
    ripemd160(sha256(data))
}

/// Calls `Sha256::digest` of the `sha2` crate. Trusted: the 32 bytes returned
/// are the digest that `sha256` names; the digest depends on the input alone.
#[verifier::external_body]
fn sha256_digest(data: &[u8]) -> (out: [u8; 32])
    ensures
        out@ == sha256(data@),
{
    let mut out = [0u8; 32];
    out.copy_from_slice(&Sha256::digest(data));
    out
}

/// Calls `Ripemd160::digest` of the `ripemd` crate. Trusted: the 20 bytes
/// returned are the digest that `ripemd160` names; it depends on the input alone.
#[verifier::external_body]
fn ripemd160_digest(data: &[u8]) -> (out: [u8; 20])
    ensures
        out@ == ripemd160(data@),
{
    let mut out = [0u8; 20];
    out.copy_from_slice(&Ripemd160::digest(data));
    out
}

/// A single SHA-256.
pub fn sha256_hash(data: &[u8]) -> (out: [u8; 32])
    ensures
        out@ == sha256(data@),
{
    sha256_digest(data)
}

/// SHA-256 applied twice. The result is in internal byte order.
pub fn hash256(data: &[u8]) -> (h: Hash256)
    ensures
        h@ == spec_hash256(data@),
        h@.len() == 32,
{
    let first = sha256_digest(data);
    Hash256(sha256_digest(first.as_slice()))
}

/// RIPEMD-160 of SHA-256.
pub fn hash160(data: &[u8]) -> (out: [u8; 20])
    ensures
        out@ == spec_hash160(data@),
        out@.len() == 20,
{
    let first = sha256_digest(data);
    ripemd160_digest(first.as_slice())
}

} // verus!
