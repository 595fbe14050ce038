//! The pay-to-public-key-hash script: the two fixed templates and their
//! verification.

use crate::error::ErrorKind;
use crate::primitives::bytes::{append, array20, bytes_equal, to_vec};
use crate::primitives::ecdsa::{
    ecdsa_accepts, ecdsa_verify, public_key_is_valid, public_key_parses, signature_is_valid,
    signature_parses,
};
use crate::primitives::hash::{hash160, spec_hash160};
use vstd::prelude::*;
use vstd::slice::slice_subrange;

verus! {

/// The opcodes of the P2PKH template.
#[derive(Debug, Clone, Copy, PartialEq, Eq, Structural)]
pub enum OpCode {
    /// Duplicate the top stack item (`0x76`).
    OpDup,
    /// Replace the top stack item by its address hash (`0xa9`).
    OpHash160,
    /// Push the next 20 bytes (`0x14`).
    OpPushBytes20,
    /// Fail unless the top two items are equal (`0x88`).
    OpEqualVerify,
    /// Check the signature against the public key (`0xac`).
    OpCheckSig,
}

impl OpCode {
    /// The byte of an opcode.
    pub open spec fn spec_to_byte(self) -> u8 {
        match self {
            OpCode::OpDup => 0x76,
            OpCode::OpHash160 => 0xa9,
            OpCode::OpPushBytes20 => 0x14,
            OpCode::OpEqualVerify => 0x88,
            OpCode::OpCheckSig => 0xac,
        }
    }

    /// The byte of the opcode.
    pub fn to_byte(self) -> (byte: u8)
        ensures
            byte == self.spec_to_byte(),
    {
        match self {
            OpCode::OpDup => 0x76,
            OpCode::OpHash160 => 0xa9,
            OpCode::OpPushBytes20 => 0x14,
            OpCode::OpEqualVerify => 0x88,
            OpCode::OpCheckSig => 0xac,
        }
    }

    /// The opcode of a byte, if the byte is one of the five.
    pub fn from_byte(byte: u8) -> (r: Option<Self>)
        ensures
            match r {
                Some(op) => op.spec_to_byte() == byte,
                None => forall|op: OpCode| op.spec_to_byte() != byte,
            },
    {
        if byte == 0x76 {
            Some(OpCode::OpDup)
        } else if byte == 0xa9 {
            Some(OpCode::OpHash160)
        } else if byte == 0x14 {
            Some(OpCode::OpPushBytes20)
        } else if byte == 0x88 {
            Some(OpCode::OpEqualVerify)
        } else if byte == 0xac {
            Some(OpCode::OpCheckSig)
        } else {
            None
        }
    }
}

/// The locking script of a public-key hash:
/// `OP_DUP OP_HASH160 PUSH20 <hash> OP_EQUALVERIFY OP_CHECKSIG`.
pub open spec fn spec_script_pubkey(pubkey_hash: Seq<u8>) -> Seq<u8> {
    seq![0x76u8, 0xa9u8, 0x14u8] + pubkey_hash + seq![0x88u8, 0xacu8]
}

/// The unlocking script: the signature and the public key, each behind one
/// byte that holds its length modulo 256.
pub open spec fn spec_script_sig(signature: Seq<u8>, pubkey: Seq<u8>) -> Seq<u8> {
    seq![(signature.len() % 256) as u8] + signature + seq![(pubkey.len() % 256) as u8] + pubkey
}

/// The signature and the public key of an unlocking script. Bytes after the
/// public key are ignored.
pub open spec fn spec_parse_script_sig(script_sig: Seq<u8>) -> Option<(Seq<u8>, Seq<u8>)> {
    if script_sig.len() == 0 {
        None
    } else {
        let sig_end = 1 + script_sig[0] as int;
        if sig_end >= script_sig.len() {
            None
        } else {
            let key_start = sig_end + 1;
            let key_end = key_start + script_sig[sig_end] as int;
            if key_end > script_sig.len() {
                None
            } else {
                Some((script_sig.subrange(1, sig_end), script_sig.subrange(key_start, key_end)))
            }
        }
    }
}

/// The public-key hash of a locking script that follows the template exactly.
pub open spec fn spec_parse_script_pubkey(script_pubkey: Seq<u8>) -> Option<Seq<u8>> {
    if script_pubkey.len() == 25 && script_pubkey[0] == 0x76 && script_pubkey[1] == 0xa9
        && script_pubkey[2] == 0x14 && script_pubkey[23] == 0x88 && script_pubkey[24] == 0xac {
        Some(script_pubkey.subrange(3, 23))
    } else {
        None
    }
}

/// The outcome of checking a signature: an error where the public key or the
/// signature is not well encoded, else whether the signature is accepted.
pub open spec fn spec_verify_signature(
    signature: Seq<u8>,
    pubkey: Seq<u8>,
    digest: Seq<u8>,
) -> Result<bool, ErrorKind> {
    if !public_key_parses(pubkey) || !signature_parses(signature) {
        Err(ErrorKind::MalformedScript)
    } else {
        Ok(ecdsa_accepts(signature, pubkey, digest))
    }
}

/// The outcome of verifying an unlocking script against a locking script.
pub open spec fn spec_verify_p2pkh(
    script_sig: Seq<u8>,
    script_pubkey: Seq<u8>,
    digest: Seq<u8>,
) -> Result<bool, ErrorKind> {
    match spec_parse_script_sig(script_sig) {
        None => Err(ErrorKind::MalformedScript),
        Some((signature, pubkey)) => match spec_parse_script_pubkey(script_pubkey) {
            None => Err(ErrorKind::MalformedScript),
            Some(pubkey_hash) => if spec_hash160(pubkey) != pubkey_hash {
                Ok(false)
            } else {
                spec_verify_signature(signature, pubkey, digest)
            },
        },
    }
}

/// A locking script made from a hash gives back that hash.
pub proof fn lemma_script_pubkey_round_trip(pubkey_hash: Seq<u8>)
    requires
        pubkey_hash.len() == 20,
    ensures
        spec_script_pubkey(pubkey_hash).len() == 25,
        spec_parse_script_pubkey(spec_script_pubkey(pubkey_hash)) == Some(pubkey_hash),
{
    assert(spec_script_pubkey(pubkey_hash).subrange(3, 23) =~= pubkey_hash);
}

/// An unlocking script gives back its signature and public key, where each is
/// at most 255 bytes long.
pub proof fn lemma_script_sig_round_trip(signature: Seq<u8>, pubkey: Seq<u8>)
    requires
        signature.len() <= 255,
        pubkey.len() <= 255,
    ensures
        spec_parse_script_sig(spec_script_sig(signature, pubkey)) == Some((signature, pubkey)),
{
    let script = spec_script_sig(signature, pubkey);
    let sig_end = 1 + signature.len() as int;
    assert(script[0] as int == signature.len());
    assert(script[sig_end] as int == pubkey.len());
    assert(script.subrange(1, sig_end) =~= signature);
    assert(script.subrange(sig_end + 1, sig_end + 1 + pubkey.len()) =~= pubkey);
}

/// A script signed with one key does not unlock the output of another: where
/// the hash of the public key in the unlocking script differs from the hash
/// in the locking script, verification answers `false` and reports no error,
/// before it looks at the signature.
pub proof fn lemma_wrong_key_rejected(
    signature: Seq<u8>,
    pubkey: Seq<u8>,
    pubkey_hash: Seq<u8>,
    digest: Seq<u8>,
)
    requires
        signature.len() <= 255,
        pubkey.len() <= 255,
        pubkey_hash.len() == 20,
        spec_hash160(pubkey) != pubkey_hash,
    ensures
        spec_verify_p2pkh(
            spec_script_sig(signature, pubkey),
            spec_script_pubkey(pubkey_hash),
            digest,
        ) == Ok::<bool, ErrorKind>(false),
{
    lemma_script_sig_round_trip(signature, pubkey);
    lemma_script_pubkey_round_trip(pubkey_hash);
}

/// The P2PKH script builder and verifier.
pub struct Script;

impl Script {
    /// The 25-byte locking script of a public-key hash.
    pub fn p2pkh_script_pubkey(pubkey_hash: &[u8; 20]) -> (script: Vec<u8>)
        ensures
            script@ == spec_script_pubkey(pubkey_hash@),
            script@.len() == 25,
    {
        let mut script: Vec<u8> = Vec::new();
        script.push(OpCode::OpDup.to_byte());
        script.push(OpCode::OpHash160.to_byte());
        script.push(OpCode::OpPushBytes20.to_byte());
        append(&mut script, pubkey_hash.as_slice());
        script.push(OpCode::OpEqualVerify.to_byte());
        script.push(OpCode::OpCheckSig.to_byte());
        assert(script@ =~= spec_script_pubkey(pubkey_hash@));
        script
    }

    /// The unlocking script of a signature and a public key. Each is written
    /// behind one length byte; a length above 255 is written modulo 256.
    pub fn p2pkh_script_sig(signature: &[u8], pubkey: &[u8]) -> (script: Vec<u8>)
        ensures
            script@ == spec_script_sig(signature@, pubkey@),
    {
        let mut script: Vec<u8> = Vec::new();
        script.push((signature.len() % 256) as u8);
        append(&mut script, signature);
        script.push((pubkey.len() % 256) as u8);
        append(&mut script, pubkey);
        assert(script@ =~= spec_script_sig(signature@, pubkey@));
        script
    }

    /// Verifies an unlocking script against a locking script for a 32-byte
    /// digest. A script that does not parse, or a key or signature that is
    /// not well encoded, is an error; a key that does not hash to the locked
    /// hash, or a signature that does not verify, gives `false`.
    pub fn verify_p2pkh(script_sig: &[u8], script_pubkey: &[u8], tx_hash: &[u8; 32]) -> (r: Result<
        bool,
        ErrorKind,
    >)
        ensures
            r == spec_verify_p2pkh(script_sig@, script_pubkey@, tx_hash@),
    {
        let (signature, pubkey) = Self::parse_script_sig(script_sig)?;
        let pubkey_hash = Self::parse_script_pubkey(script_pubkey)?;
        let computed_hash = hash160(pubkey.as_slice());
        if !bytes_equal(computed_hash.as_slice(), pubkey_hash.as_slice()) {
            return Ok(false);
        }
        Self::verify_signature(signature.as_slice(), pubkey.as_slice(), tx_hash)
    }

    /// Splits an unlocking script into its signature and its public key.
    pub fn parse_script_sig(script_sig: &[u8]) -> (r: Result<(Vec<u8>, Vec<u8>), ErrorKind>)
        ensures
            match spec_parse_script_sig(script_sig@) {
                Some((signature, pubkey)) => r is Ok && r->Ok_0.0@ == signature && r->Ok_0.1@
                    == pubkey,
                None => r is Err && r->Err_0 == ErrorKind::MalformedScript,
            },
    {
        let len: usize = script_sig.len();
        if len == 0 {
            return Err(ErrorKind::MalformedScript);
        }
        let sig_len: usize = script_sig[0] as usize;
        if len - 1 <= sig_len {
            return Err(ErrorKind::MalformedScript);
        }
        let sig_end: usize = 1 + sig_len;
        let signature = to_vec(slice_subrange(script_sig, 1, sig_end));
        let key_len: usize = script_sig[sig_end] as usize;
        let key_start: usize = sig_end + 1;
        if len - key_start < key_len {
            return Err(ErrorKind::MalformedScript);
        }
        let pubkey = to_vec(slice_subrange(script_sig, key_start, key_start + key_len));
        Ok((signature, pubkey))
    }

    /// Takes the public-key hash out of a locking script, which must follow
    /// the template byte for byte.
    pub fn parse_script_pubkey(script_pubkey: &[u8]) -> (r: Result<[u8; 20], ErrorKind>)
        ensures
            match spec_parse_script_pubkey(script_pubkey@) {
                Some(pubkey_hash) => r is Ok && r->Ok_0@ == pubkey_hash,
                None => r is Err && r->Err_0 == ErrorKind::MalformedScript,
            },
    {
        if script_pubkey.len() != 25 {
            return Err(ErrorKind::MalformedScript);
        }
        if script_pubkey[0] != OpCode::OpDup.to_byte() {
            return Err(ErrorKind::MalformedScript);
        }
        if script_pubkey[1] != OpCode::OpHash160.to_byte() {
            return Err(ErrorKind::MalformedScript);
        }
        if script_pubkey[2] != OpCode::OpPushBytes20.to_byte() {
            return Err(ErrorKind::MalformedScript);
        }
        if script_pubkey[23] != OpCode::OpEqualVerify.to_byte() {
            return Err(ErrorKind::MalformedScript);
        }
        if script_pubkey[24] != OpCode::OpCheckSig.to_byte() {
            return Err(ErrorKind::MalformedScript);
        }
        Ok(array20(script_pubkey, 3))
    }

    /// Checks a DER signature of a digest under a public key.
    pub fn verify_signature(signature: &[u8], pubkey: &[u8], message: &[u8; 32]) -> (r: Result<
        bool,
        ErrorKind,
    >)
        ensures
            r == spec_verify_signature(signature@, pubkey@, message@),
    {
        if !public_key_is_valid(pubkey) {
            return Err(ErrorKind::MalformedScript);
        }
        if !signature_is_valid(signature) {
            return Err(ErrorKind::MalformedScript);
        }
        Ok(ecdsa_verify(signature, pubkey, message))
    }
}

} // verus!
