//! Proof of work: the compact target, the validity test and the nonce search.

use crate::chain::block::{BlockHeader, BlockHeaderView};
use crate::primitives::types::{be_value, Hash256};
use std::time::{Duration, Instant};
use vstd::prelude::*;
use vstd::std_specs::bits::u8_leading_zeros;

verus! {

/// The exponent of a compact target: its top byte.
pub open spec fn spec_exponent(bits: u32) -> int {
    bits as int / 0x100_0000
}

/// The coefficient of a compact target: its low three bytes.
pub open spec fn spec_coefficient(bits: u32) -> int {
    bits as int % 0x100_0000
}

/// Byte `i` of the 32-byte big-endian target that `bits` encodes.
///
/// With an exponent of at most 3 the coefficient, shifted right by the bytes
/// it lacks, fills the last three bytes. With an exponent of up to 32 the
/// three coefficient bytes start `exponent` bytes from the end. A larger
/// exponent does not fit 256 bits; its target is zero.
pub open spec fn spec_target_byte(bits: u32, i: int) -> u8 {
    let exponent = spec_exponent(bits);
    let coefficient = spec_coefficient(bits);
    let (first, window) = if exponent == 0 {
        (29int, 0int)
    } else if exponent == 1 {
        (29int, coefficient / 0x1_0000)
    } else if exponent == 2 {
        (29int, coefficient / 0x100)
    } else if exponent <= 32 {
        (32 - exponent, coefficient)
    } else {
        (29int, 0int)
    };
    if i == first {
        (window / 0x1_0000) as u8
    } else if i == first + 1 {
        (window / 0x100 % 0x100) as u8
    } else if i == first + 2 {
        (window % 0x100) as u8
    } else {
        0u8
    }
}

/// The 32-byte big-endian target that `bits` encodes.
pub open spec fn spec_target_bytes(bits: u32) -> Seq<u8> {
    Seq::new(32, |i: int| spec_target_byte(bits, i))
}

/// 256 to the power of `n`.
pub open spec fn pow256(n: nat) -> nat
    decreases n,
{
    if n == 0 {
        1
    } else {
        256 * pow256((n - 1) as nat)
    }
}

/// The number that a compact target stands for: the coefficient times 256 to
/// the power of the exponent less 3, rounded down; zero where the exponent
/// is above 32.
pub open spec fn spec_target_value(bits: u32) -> nat {
    let exponent = spec_exponent(bits);
    let coefficient = spec_coefficient(bits) as nat;
    if exponent == 0 {
        0
    } else if exponent == 1 {
        coefficient / 0x1_0000
    } else if exponent == 2 {
        coefficient / 0x100
    } else if exponent <= 32 {
        coefficient * pow256((exponent - 3) as nat)
    } else {
        0
    }
}

/// Zero bytes in front stand for zero.
proof fn lemma_zero_prefix(bytes: Seq<u8>, k: int)
    requires
        0 <= k <= bytes.len(),
        forall|i: int| 0 <= i < k ==> bytes[i] == 0,
    ensures
        be_value(bytes.take(k)) == 0,
    decreases k,
{
    if k > 0 {
        lemma_zero_prefix(bytes, k - 1);
        assert(bytes.take(k).drop_last() =~= bytes.take(k - 1));
    }
}

/// Each zero byte behind multiplies by 256.
proof fn lemma_zero_suffix(bytes: Seq<u8>, from: int, to: int)
    requires
        0 <= from <= to <= bytes.len(),
        forall|i: int| from <= i < to ==> bytes[i] == 0,
    ensures
        be_value(bytes.take(to)) == be_value(bytes.take(from)) * pow256((to - from) as nat),
    decreases to - from,
{
    if from < to {
        lemma_zero_suffix(bytes, from, to - 1);
        assert(bytes.take(to).drop_last() =~= bytes.take(to - 1));
        let value = be_value(bytes.take(from));
        let power = pow256((to - 1 - from) as nat);
        assert(value * power * 256 == value * (256 * power)) by (nonlinear_arith);
    } else {
        assert(be_value(bytes.take(from)) * 1 == be_value(bytes.take(from)));
    }
}

/// The 32 target bytes stand for the number that the compact form encodes.
pub proof fn lemma_target_value(bits: u32)
    ensures
        be_value(spec_target_bytes(bits)) == spec_target_value(bits),
{
    let bytes = spec_target_bytes(bits);
    let exponent = spec_exponent(bits);
    let coefficient = spec_coefficient(bits);
    assert(bytes.take(32) =~= bytes);
    if exponent == 0 || exponent > 32 {
        lemma_zero_prefix(bytes, 32);
    } else {
        let first: int = if exponent <= 3 {
            29
        } else {
            32 - exponent
        };
        let window: int = if exponent == 1 {
            coefficient / 0x1_0000
        } else if exponent == 2 {
            coefficient / 0x100
        } else {
            coefficient
        };
        lemma_zero_prefix(bytes, first);
        assert(bytes.take(first + 1).drop_last() =~= bytes.take(first));
        assert(bytes.take(first + 2).drop_last() =~= bytes.take(first + 1));
        assert(bytes.take(first + 3).drop_last() =~= bytes.take(first + 2));
        assert(0 <= window < 0x100_0000);
        assert(bytes[first] as int == window / 0x1_0000);
        assert(bytes[first + 1] as int == window / 0x100 % 0x100);
        assert(bytes[first + 2] as int == window % 0x100);
        assert(bytes.take(first + 1).last() == bytes[first]);
        assert(bytes.take(first + 2).last() == bytes[first + 1]);
        assert(bytes.take(first + 3).last() == bytes[first + 2]);
        assert(be_value(bytes.take(first + 1)) == bytes[first] as int);
        assert(be_value(bytes.take(first + 2)) == bytes[first] as int * 256 + bytes[first
            + 1] as int);
        assert(be_value(bytes.take(first + 3)) == window);
        lemma_zero_suffix(bytes, first + 3, 32);
        if exponent <= 3 {
            assert(pow256(0) == 1);
        }
    }
}

/// Whether a hash, read as a big-endian number, is strictly below the target
/// of `bits`.
pub open spec fn meets_target(hash: Seq<u8>, bits: u32) -> bool {
    be_value(hash) < be_value(spec_target_bytes(bits))
}

/// Whether a header with its nonce replaced meets the target of `bits`.
pub open spec fn nonce_wins(header: BlockHeaderView, nonce: u32, bits: u32) -> bool {
    meets_target(header.with_nonce(nonce).hash(), bits)
}

/// The number of zero bits before the first one bit of a byte string; eight
/// times its length where every byte is zero.
pub open spec fn spec_leading_zeros(bytes: Seq<u8>) -> nat
    decreases bytes.len(),
{
    if bytes.len() == 0 {
        0
    } else if bytes[0] == 0 {
        8 + spec_leading_zeros(bytes.skip(1))
    } else {
        u8_leading_zeros(bytes[0]) as nat
    }
}

/// A number that is smaller on a prefix stays smaller on any longer prefix.
proof fn lemma_less_extends(a: Seq<u8>, b: Seq<u8>, k: int, n: int)
    requires
        0 <= k <= n <= a.len(),
        a.len() == b.len(),
        be_value(a.take(k)) < be_value(b.take(k)),
    ensures
        be_value(a.take(n)) < be_value(b.take(n)),
    decreases n - k,
{
    if k < n {
        assert(a.take(k + 1).drop_last() =~= a.take(k));
        assert(b.take(k + 1).drop_last() =~= b.take(k));
        assert(a.take(k + 1).last() == a[k]);
        assert(b.take(k + 1).last() == b[k]);
        lemma_less_extends(a, b, k + 1, n);
    }
}

/// Where two byte strings of one length agree up to a byte on which they
/// differ, that byte decides which number is the smaller.
pub proof fn lemma_first_difference_decides(a: Seq<u8>, b: Seq<u8>, i: int)
    requires
        a.len() == b.len(),
        0 <= i < a.len(),
        a.take(i) == b.take(i),
        a[i] < b[i],
    ensures
        be_value(a) < be_value(b),
{
    assert(a.take(i + 1).drop_last() =~= a.take(i));
    assert(b.take(i + 1).drop_last() =~= b.take(i));
    assert(a.take(i + 1).last() == a[i]);
    assert(b.take(i + 1).last() == b[i]);
    lemma_less_extends(a, b, i + 1, a.len() as int);
    assert(a.take(a.len() as int) =~= a);
    assert(b.take(b.len() as int) =~= b);
}

/// A number that is smaller on its first `k` bytes is smaller.
pub proof fn lemma_smaller_prefix_decides(a: Seq<u8>, b: Seq<u8>, k: int)
    requires
        a.len() == b.len(),
        0 <= k <= a.len(),
        be_value(a.take(k)) < be_value(b.take(k)),
    ensures
        be_value(a) < be_value(b),
{
    lemma_less_extends(a, b, k, a.len() as int);
    assert(a.take(a.len() as int) =~= a);
    assert(b.take(b.len() as int) =~= b);
}

/// Whether `hash` is below `target`, both read as big-endian numbers.
fn below(hash: &[u8; 32], target: &[u8; 32]) -> (r: bool)
    ensures
        r == (be_value(hash@) < be_value(target@)),
{
    let mut i: usize = 0;
    while i < 32
        invariant
            i <= 32,
            hash@.take(i as int) == target@.take(i as int),
        decreases 32 - i,
    {
        if hash[i] < target[i] {
            proof {
                lemma_first_difference_decides(hash@, target@, i as int);
            }
            return true;
        } else if hash[i] > target[i] {
            proof {
                lemma_first_difference_decides(target@, hash@, i as int);
            }
            return false;
        }
        assert(hash@.take(i + 1) =~= hash@.take(i as int).push(hash@[i as int]));
        assert(target@.take(i + 1) =~= target@.take(i as int).push(target@[i as int]));
        i = i + 1;
    }
    assert(hash@.take(32) =~= hash@);
    assert(target@.take(32) =~= target@);
    false
}

/// A difficulty target in compact form.
#[derive(Debug, Clone, Copy)]
pub struct Target {
    /// The compact form, as it stands in a block header.
    pub bits: u32,
}

impl Target {
    /// The target that `bits` encodes.
    pub fn from_bits(bits: u32) -> (target: Self)
        ensures
            target.bits == bits,
    {
        Target { bits }
    }

    /// The target as 32 big-endian bytes.
    pub fn to_hash256(&self) -> (target: Hash256)
        ensures
            target@ == spec_target_bytes(self.bits),
    {
        let exponent: u32 = self.bits / 0x100_0000;
        let coefficient: u32 = self.bits % 0x100_0000;
        let mut target = [0u8; 32];
        if exponent <= 3 {
            let window: u32 = if exponent == 0 {
                0
            } else if exponent == 1 {
                coefficient / 0x1_0000
            } else if exponent == 2 {
                coefficient / 0x100
            } else {
                coefficient
            };
            target[29] = (window / 0x1_0000) as u8;
            target[30] = (window / 0x100 % 0x100) as u8;
            target[31] = (window % 0x100) as u8;
        } else if exponent <= 32 {
            let first: usize = (32 - exponent) as usize;
            target[first] = (coefficient / 0x1_0000) as u8;
            target[first + 1] = (coefficient / 0x100 % 0x100) as u8;
            target[first + 2] = (coefficient % 0x100) as u8;
        }
        assert(target@ =~= spec_target_bytes(self.bits));
        Hash256::new(target)
    }

    /// Whether a hash meets the target: read as a big-endian 256-bit number,
    /// it is strictly below it.
    pub fn is_valid_hash(&self, hash: &Hash256) -> (r: bool)
        ensures
            r == meets_target(hash@, self.bits),
    {
        let target = self.to_hash256();
        below(hash.as_bytes(), target.as_bytes())
    }

    /// The number of leading zero bits of the target.
    pub fn leading_zeros(&self) -> (zeros: u32)
        ensures
            zeros == spec_leading_zeros(spec_target_bytes(self.bits)),
    {
        let target = self.to_hash256();
        let bytes = target.as_bytes();
        let mut zeros: u32 = 0;
        let mut i: usize = 0;
        assert(bytes@.skip(0) =~= bytes@);
        while i < 32
            invariant
                i <= 32,
                zeros == 8 * i,
                bytes@ == spec_target_bytes(self.bits),
                spec_leading_zeros(bytes@) == zeros + spec_leading_zeros(bytes@.skip(i as int)),
            decreases 32 - i,
        {
            let byte: u8 = bytes[i];
            proof {
                let rest = bytes@.skip(i as int);
                assert(rest[0] == byte);
                assert(rest.skip(1) =~= bytes@.skip(i + 1));
                vstd::std_specs::bits::axiom_u8_leading_zeros(byte);
            }
            if byte != 0 {
                return zeros + byte.leading_zeros();
            }
            zeros = zeros + 8;
            i = i + 1;
        }
        zeros
    }
}

/// The outcome of a nonce search.
#[derive(Debug)]
pub struct MiningResult {
    /// Whether a nonce was found.
    pub success: bool,
    /// The nonce that was found; zero where none was.
    pub nonce: u32,
    /// The hash of the header with that nonce; zero where none was found.
    pub hash: Hash256,
    /// How many nonces were tried.
    pub attempts: u64,
    /// How long the search took.
    pub duration: Duration,
}

/// A miner with a fixed target.
pub struct Miner {
    target: Target,
    target_hash: Hash256,
}

impl Miner {
    #[verifier::type_invariant]
    spec fn cache_is_target(self) -> bool {
        self.target_hash@ == spec_target_bytes(self.target.bits)
    }

    /// The compact target of the miner.
    pub closed spec fn spec_bits(&self) -> u32 {
        self.target.bits
    }

    /// A miner for the target that `bits` encodes.
    pub fn new(bits: u32) -> (miner: Self)
        ensures
            miner.spec_bits() == bits,
    {
        let target = Target::from_bits(bits);
        let target_hash = target.to_hash256();
        Miner { target, target_hash }
    }

    /// The target of the miner.
    pub fn target(&self) -> (target: Target)
        ensures
            target.bits == self.spec_bits(),
    {
        self.target
    }

    /// Searches the nonces from zero upwards for the first one with which the
    /// header's hash meets the miner's target, and leaves that nonce in the
    /// header. Where no nonce does, the header keeps the last nonce tried.
    pub fn mine(&self, header: &mut BlockHeader) -> (result: MiningResult)
        ensures
            final(header)@ == old(header)@.with_nonce(final(header).nonce),
            result.success ==> {
                &&& nonce_wins(old(header)@, result.nonce, self.spec_bits())
                &&& forall|n: u32| n < result.nonce ==> !nonce_wins(old(header)@, n, self.spec_bits())
                &&& final(header).nonce == result.nonce
                &&& result.hash@ == final(header)@.hash()
                &&& result.attempts == result.nonce + 1
            },
            !result.success ==> {
                &&& forall|n: u32| !nonce_wins(old(header)@, n, self.spec_bits())
                &&& final(header).nonce == u32::MAX
                &&& result.nonce == 0
                &&& result.hash@ == Hash256::spec_zero()
                &&& result.attempts == 0x1_0000_0000
            },
    {
        let start_time = Instant::now();
        let ghost before = header@;
        let mut attempts: u64 = 0;
        while attempts <= 0xffff_ffff
            invariant
                attempts <= 0x1_0000_0000,
                before == old(header)@,
                attempts == 0 ==> header@ == before,
                attempts > 0 ==> header@ == before.with_nonce((attempts - 1) as u32),
                forall|n: u32| n < attempts ==> !nonce_wins(before, n, self.spec_bits()),
            decreases 0x1_0000_0000 - attempts,
        {
            let nonce: u32 = attempts as u32;
            header.nonce = nonce;
            let hash = header.hash();
            attempts = attempts + 1;
            if self.is_valid_hash_fast(&hash) {
                return MiningResult {
                    success: true,
                    nonce,
                    hash,
                    attempts,
                    duration: start_time.elapsed(),
                };
            }
        }
        MiningResult {
            success: false,
            nonce: 0,
            hash: Hash256::zero(),
            attempts,
            duration: start_time.elapsed(),
        }
    }

    /// Whether a hash meets the miner's target, by the cached target bytes.
    pub fn is_valid_hash_fast(&self, hash: &Hash256) -> (r: bool)
        ensures
            r == meets_target(hash@, self.spec_bits()),
    {
        proof {
            use_type_invariant(self);
        }
        below(hash.as_bytes(), self.target_hash.as_bytes())
    }

    /// Whether the hash of a header meets the miner's target.
    pub fn verify(&self, header: &BlockHeader) -> (r: bool)
        ensures
            r == meets_target(header@.hash(), self.spec_bits()),
    {
        let hash = header.hash();
        self.target.is_valid_hash(&hash)
    }
}

} // verus!
