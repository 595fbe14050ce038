//! The 256-bit hash value.

use crate::error::ErrorKind;
use crate::primitives::bytes::{array32, reversed32};
use crate::primitives::hexcode::{decode_hex, encode_hex, hex_decode, hex_encode, lemma_hex_round_trip};
use vstd::prelude::*;
use vstd::std_specs::cmp::PartialEqSpecImpl;

verus! {

/// The number that a byte string stands for, the first byte the most
/// significant.
pub open spec fn be_value(bytes: Seq<u8>) -> nat
    decreases bytes.len(),
{
    if bytes.len() == 0 {
        0
    } else {
        be_value(bytes.drop_last()) * 256 + bytes.last() as nat
    }
}

/// A 32-byte hash: a block hash, a transaction id or a Merkle root.
///
/// The bytes are kept in internal order, as SHA-256 produces them. Text shown
/// to users is in display order, the bytes reversed.
#[derive(Debug, Clone, Copy, Eq, Hash)]
pub struct Hash256(pub [u8; 32]);

impl View for Hash256 {
    type V = Seq<u8>;

    open spec fn view(&self) -> Seq<u8> {
        self.0@
    }
}

impl PartialEq for Hash256 {
    fn eq(&self, other: &Self) -> (r: bool) {
        let mut i: usize = 0;
        while i < 32
            invariant
                i <= 32,
                forall|j: int| 0 <= j < i ==> self.0[j] == other.0[j],
            decreases 32 - i,
        {
            if self.0[i] != other.0[i] {
                return false;
            }
            i = i + 1;
        }
        assert(self.0@ =~= other.0@);
        true
    }
}

impl PartialEqSpecImpl for Hash256 {
    open spec fn obeys_eq_spec() -> bool {
        true
    }

    open spec fn eq_spec(&self, other: &Self) -> bool {
        self@ == other@
    }
}

impl Default for Hash256 {
    fn default() -> (h: Self)
        ensures
            h@ == Hash256::spec_zero(),
    {
        Hash256::zero()
    }
}

impl Hash256 {
    /// Thirty-two zero bytes.
    pub open spec fn spec_zero() -> Seq<u8> {
        Seq::new(32, |i: int| 0u8)
    }

    /// The display text of a hash in internal order.
    pub open spec fn spec_to_hex(bytes: Seq<u8>) -> Seq<char> {
        hex_encode(bytes.reverse())
    }

    /// The hash, in internal order, that a display text stands for.
    pub open spec fn spec_from_hex(text: Seq<char>) -> Option<Seq<u8>> {
        match hex_decode(text) {
            Some(bytes) => if bytes.len() == 32 {
                Some(bytes.reverse())
            } else {
                None
            },
            None => None,
        }
    }

    /// Wraps 32 bytes.
    pub fn new(bytes: [u8; 32]) -> (h: Self)
        ensures
            h.0 == bytes,
    {
        Hash256(bytes)
    }

    /// Copies a hash out of a slice, which must hold exactly 32 bytes.
    pub fn from_slice(slice: &[u8]) -> (r: Result<Self, ErrorKind>)
        ensures
            slice@.len() == 32 ==> r is Ok && r->Ok_0@ == slice@,
            slice@.len() != 32 ==> r == Err::<Self, ErrorKind>(ErrorKind::MalformedInput),
    {
        if slice.len() != 32 {
            return Err(ErrorKind::MalformedInput);
        }
        let bytes = array32(slice, 0);
        assert(slice@.subrange(0, 32) == slice@);
        Ok(Hash256(bytes))
    }

    /// The bytes, in internal order.
    pub fn as_bytes(&self) -> (bytes: &[u8; 32])
        ensures
            *bytes == self.0,
    {
        &self.0
    }

    /// The all-zero hash, which stands for "no previous block".
    pub fn zero() -> (h: Self)
        ensures
            h@ == Self::spec_zero(),
    {
        let h = Hash256([0u8; 32]);
        assert(h@ =~= Self::spec_zero());
        h
    }

    /// Whether every byte is zero.
    pub fn is_zero(&self) -> (r: bool)
        ensures
            r == (self@ == Self::spec_zero()),
    {
        let mut i: usize = 0;
        while i < 32
            invariant
                i <= 32,
                forall|j: int| 0 <= j < i ==> self.0[j] == 0,
            decreases 32 - i,
        {
            if self.0[i] != 0 {
                assert(Self::spec_zero()[i as int] == 0);
                return false;
            }
            i = i + 1;
        }
        assert(self@ =~= Self::spec_zero());
        true
    }

    /// The display text: the bytes reversed, in lower-case hexadecimal.
    pub fn to_hex(&self) -> (text: String)
        ensures
            text@ == Self::spec_to_hex(self@),
    {
        let reversed = reversed32(&self.0);
        encode_hex(reversed.as_slice())
    }

    /// Reads a display text back. It must be 64 hexadecimal digits.
    pub fn from_hex(hex_str: &str) -> (r: Result<Self, ErrorKind>)
        ensures
            match Self::spec_from_hex(hex_str@) {
                Some(bytes) => r is Ok && r->Ok_0@ == bytes,
                None => r == Err::<Self, ErrorKind>(ErrorKind::MalformedInput),
            },
    {
        match decode_hex(hex_str) {
            Some(bytes) => {
                if bytes.len() != 32 {
                    return Err(ErrorKind::MalformedInput);
                }
                let raw = array32(bytes.as_slice(), 0);
                assert(bytes@.subrange(0, 32) == bytes@);
                Ok(Hash256(reversed32(&raw)))
            },
            None => Err(ErrorKind::MalformedInput),
        }
    }

    /// The display text of a hash reads back as that hash.
    pub proof fn lemma_hex_display_round_trip(bytes: Seq<u8>)
        requires
            bytes.len() == 32,
        ensures
            Self::spec_from_hex(Self::spec_to_hex(bytes)) == Some(bytes),
    {
        lemma_hex_round_trip(bytes.reverse());
        assert(bytes.reverse().reverse() =~= bytes);
    }
}

} // verus!
