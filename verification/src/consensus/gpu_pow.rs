//! The data-parallel miner, seen from the host.
//!
//! A compute device hashes a batch of nonces at a time. This module prepares
//! the input of a batch and decides what follows from its result; the caller
//! runs the device. Every nonce that a device reports is checked again on
//! the CPU, so a wrong report costs time and nothing else.

use crate::chain::block::{BlockHeader, BlockHeaderView};
use crate::consensus::pow::{
    meets_target, nonce_wins, spec_target_bytes, Miner, MiningResult, Target,
};
use crate::primitives::serialize::Wire;
use crate::primitives::types::{be_value, Hash256};
use std::time::Instant;
use vstd::bytes::{spec_u32_from_le_bytes, u32_from_le_bytes};
use vstd::prelude::*;
use vstd::slice::slice_subrange;

verus! {

/// The number of workers in a group.
pub const WORKGROUP_SIZE: u32 = 256;

/// The number of groups in a batch.
pub const GROUPS_PER_DISPATCH: u32 = 4096;

/// The number of nonces that one batch tries: 256 workers in each of 4096
/// groups.
pub const NONCES_PER_DISPATCH: u32 = 1_048_576;

/// How many nonces after a wrongly reported one the host tries itself.
pub const SWEEP_LENGTH: u32 = 256;

/// The input of a batch, the same for every worker.
#[derive(Debug, Clone, Copy)]
pub struct GpuParams {
    /// The first 76 header bytes as 19 little-endian words.
    pub header_prefix: [u32; 19],
    /// The target as eight big-endian words, the most significant first.
    pub target_be: [u32; 8],
    /// The nonce of worker 0; worker `i` tries `start_nonce + i`.
    pub start_nonce: u32,
}

impl GpuParams {
    /// Whether a worker that computed `hash` claims its nonce: the hash, as
    /// eight big-endian words, is below the target words, the first word
    /// that differs deciding.
    pub fn claims(&self, hash: &Hash256) -> (r: bool)
        ensures
            r == spec_worker_claims(hash@, self.target_be@),
    {
        let bytes = hash.as_bytes();
        let mut i: usize = 0;
        while i < 8
            invariant
                i <= 8,
                bytes@ == hash@,
                spec_worker_claims(hash@, self.target_be@) == spec_words_below(
                    spec_be_words(hash@),
                    self.target_be@,
                    i as int,
                ),
            decreases 8 - i,
        {
            let word: u32 = bytes[i * 4] as u32 * 0x100_0000 + bytes[i * 4 + 1] as u32 * 0x1_0000
                + bytes[i * 4 + 2] as u32 * 0x100 + bytes[i * 4 + 3] as u32;
            assert(word == spec_be_words(hash@)[i as int]);
            if word < self.target_be[i] {
                return true;
            }
            if word > self.target_be[i] {
                return false;
            }
            i = i + 1;
        }
        false
    }
}

/// What a batch reports.
#[derive(Debug, Clone, Copy)]
pub struct GpuResult {
    /// Non-zero where a worker claims a nonce.
    pub found: u32,
    /// The claimed nonce.
    pub nonce: u32,
}

/// The big-endian word that starts at byte `4 * i`.
pub open spec fn spec_be_word(bytes: Seq<u8>, i: int) -> u32 {
    (bytes[4 * i] as int * 0x100_0000 + bytes[4 * i + 1] as int * 0x1_0000 + bytes[4 * i + 2] as int
        * 0x100 + bytes[4 * i + 3] as int) as u32
}

/// The little-endian word that starts at byte `4 * i`.
pub open spec fn spec_le_word(bytes: Seq<u8>, i: int) -> u32 {
    spec_u32_from_le_bytes(bytes.subrange(4 * i, 4 * i + 4))
}

/// The eight big-endian words of 32 bytes.
pub open spec fn spec_be_words(bytes: Seq<u8>) -> Seq<u32> {
    Seq::new(8, |i: int| spec_be_word(bytes, i))
}

/// Whether eight words are below eight others, the first word that differs
/// deciding, from position `from` on.
pub open spec fn spec_words_below(hash: Seq<u32>, target: Seq<u32>, from: int) -> bool
    decreases 8 - from,
{
    if from >= 8 || from < 0 {
        false
    } else if hash[from] != target[from] {
        hash[from] < target[from]
    } else {
        spec_words_below(hash, target, from + 1)
    }
}

/// The rule by which a worker claims its nonce: the hash it computed, as
/// eight big-endian words, is below the target words.
pub open spec fn spec_worker_claims(hash: Seq<u8>, target_words: Seq<u32>) -> bool {
    spec_words_below(spec_be_words(hash), target_words, 0)
}

/// Four more bytes shift the number by 32 bits and add their word.
proof fn lemma_value_by_word(bytes: Seq<u8>, i: int)
    requires
        bytes.len() == 32,
        0 <= i < 8,
    ensures
        be_value(bytes.take(4 * i + 4)) == be_value(bytes.take(4 * i)) * 0x1_0000_0000
            + spec_be_word(bytes, i),
{
    let k = 4 * i;
    assert(bytes.take(k + 1).drop_last() =~= bytes.take(k));
    assert(bytes.take(k + 2).drop_last() =~= bytes.take(k + 1));
    assert(bytes.take(k + 3).drop_last() =~= bytes.take(k + 2));
    assert(bytes.take(k + 4).drop_last() =~= bytes.take(k + 3));
    assert(bytes.take(k + 1).last() == bytes[k]);
    assert(bytes.take(k + 2).last() == bytes[k + 1]);
    assert(bytes.take(k + 3).last() == bytes[k + 2]);
    assert(bytes.take(k + 4).last() == bytes[k + 3]);
    let v = be_value(bytes.take(k));
    assert(be_value(bytes.take(k + 1)) == v * 256 + bytes[k] as nat);
    assert(be_value(bytes.take(k + 2)) == (v * 256 + bytes[k] as nat) * 256 + bytes[k + 1] as nat);
    assert(be_value(bytes.take(k + 3)) == ((v * 256 + bytes[k] as nat) * 256 + bytes[k
        + 1] as nat) * 256 + bytes[k + 2] as nat);
}

/// Comparing two numbers of 32 bytes word by word, from position `from` on
/// where the words before agree, is comparing the numbers.
proof fn lemma_words_decide_from(hash: Seq<u8>, target: Seq<u8>, from: int)
    requires
        hash.len() == 32,
        target.len() == 32,
        0 <= from <= 8,
        be_value(hash.take(4 * from)) == be_value(target.take(4 * from)),
    ensures
        spec_words_below(spec_be_words(hash), spec_be_words(target), from) == (be_value(hash)
            < be_value(target)),
    decreases 8 - from,
{
    if from == 8 {
        assert(hash.take(32) =~= hash);
        assert(target.take(32) =~= target);
    } else {
        lemma_value_by_word(hash, from);
        lemma_value_by_word(target, from);
        let h = spec_be_word(hash, from);
        let t = spec_be_word(target, from);
        if h == t {
            lemma_words_decide_from(hash, target, from + 1);
        } else if h < t {
            crate::consensus::pow::lemma_smaller_prefix_decides(hash, target, 4 * from + 4);
        } else {
            crate::consensus::pow::lemma_smaller_prefix_decides(target, hash, 4 * from + 4);
        }
    }
}

/// A worker that follows the rule claims its nonce if and only if the hash
/// it computed meets the target.
pub proof fn lemma_worker_rule(hash: Seq<u8>, bits: u32)
    requires
        hash.len() == 32,
    ensures
        spec_worker_claims(hash, spec_be_words(spec_target_bytes(bits))) == meets_target(
            hash,
            bits,
        ),
{
    assert(hash.take(0) =~= Seq::<u8>::empty());
    assert(spec_target_bytes(bits).take(0) =~= Seq::<u8>::empty());
    lemma_words_decide_from(hash, spec_target_bytes(bits), 0);
}

/// The nonce `offset` after `nonce`, wrapping around at 2^32.
pub open spec fn spec_nonce_after(nonce: u32, offset: int) -> u32 {
    ((nonce + offset) % 0x1_0000_0000) as u32
}

/// The first of the nonces `offset`, `offset + 1`, … up to 256 after
/// `claimed` that wins, with its offset.
pub open spec fn spec_sweep(header: BlockHeaderView, bits: u32, claimed: u32, offset: int) -> Option<
    (u32, int),
>
    decreases 257 - offset,
{
    if offset > 256 || offset < 1 {
        None
    } else if nonce_wins(header, spec_nonce_after(claimed, offset), bits) {
        Some((spec_nonce_after(claimed, offset), offset))
    } else {
        spec_sweep(header, bits, claimed, offset + 1)
    }
}

/// The nonce that the host accepts after a batch, and how many nonces it
/// tried itself beyond the claimed one: the claimed nonce where it wins,
/// else the first winner among the 256 nonces after it. `None` where
/// nothing was claimed or nothing of this wins.
pub open spec fn spec_accepted(header: BlockHeaderView, bits: u32, result: GpuResult) -> Option<
    (u32, int),
> {
    if result.found == 0 {
        None
    } else if nonce_wins(header, result.nonce, bits) {
        Some((result.nonce, 0int))
    } else {
        spec_sweep(header, bits, result.nonce, 1)
    }
}

/// The state of a search between batches.
pub struct GpuSearch {
    start_nonce: u32,
    started: Instant,
}

impl GpuSearch {
    /// The first nonce of the next batch.
    pub closed spec fn spec_start_nonce(&self) -> u32 {
        self.start_nonce
    }

    /// The first nonce of the next batch.
    pub fn start_nonce(&self) -> (nonce: u32)
        ensures
            nonce == self.spec_start_nonce(),
    {
        self.start_nonce
    }
}

/// What follows a batch.
pub enum GpuStep {
    /// The search is over, with or without a nonce.
    Done(MiningResult),
    /// The next batch is to be run.
    NextBatch(GpuSearch),
}

/// A miner that drives a compute device, with the CPU miner to fall back on.
pub struct GpuMiner {
    bits: u32,
    target_be: [u32; 8],
}

impl GpuMiner {
    #[verifier::type_invariant]
    spec fn words_are_target(self) -> bool {
        forall|i: int|
            0 <= i < 8 ==> #[trigger] self.target_be[i] == spec_be_word(
                spec_target_bytes(self.bits),
                i,
            )
    }

    /// The compact target of the miner.
    pub closed spec fn spec_bits(&self) -> u32 {
        self.bits
    }

    /// A miner for the target that `bits` encodes.
    pub fn new(bits: u32) -> (miner: Self)
        ensures
            miner.spec_bits() == bits,
    {
        let target = Target::from_bits(bits).to_hash256();
        let tb = target.as_bytes();
        let mut target_be = [0u32; 8];
        let mut i: usize = 0;
        while i < 8
            invariant
                i <= 8,
                tb@ == spec_target_bytes(bits),
                forall|j: int| 0 <= j < i ==> #[trigger] target_be[j] == spec_be_word(tb@, j),
            decreases 8 - i,
        {
            let word: u32 = tb[i * 4] as u32 * 0x100_0000 + tb[i * 4 + 1] as u32 * 0x1_0000 + tb[i
                * 4 + 2] as u32 * 0x100 + tb[i * 4 + 3] as u32;
            target_be[i] = word;
            i = i + 1;
        }
        GpuMiner { bits, target_be }
    }

    /// Mines on the CPU, with the same target: what a host without a
    /// compute device does. See [`Miner::mine`].
    pub fn mine(&self, header: &mut BlockHeader) -> (result: MiningResult)
        ensures
            final(header)@ == old(header)@.with_nonce(final(header).nonce),
            result.success ==> {
                &&& nonce_wins(old(header)@, result.nonce, self.spec_bits())
                &&& forall|n: u32| n < result.nonce ==> !nonce_wins(old(header)@, n, self.spec_bits())
                &&& final(header).nonce == result.nonce
                &&& result.hash@ == final(header)@.hash()
                &&& result.attempts == result.nonce + 1
            },
            !result.success ==> {
                &&& forall|n: u32| !nonce_wins(old(header)@, n, self.spec_bits())
                &&& final(header).nonce == u32::MAX
                &&& result.nonce == 0
                &&& result.hash@ == Hash256::spec_zero()
                &&& result.attempts == 0x1_0000_0000
            },
    {
        let cpu = Miner::new(self.bits);
        cpu.mine(header)
    }

    /// The state before the first batch: the search starts at nonce zero.
    pub fn begin(&self) -> (search: GpuSearch)
        ensures
            search.spec_start_nonce() == 0,
    {
        GpuSearch { start_nonce: 0, started: Instant::now() }
    }

    /// The input of the next batch: the header without its nonce, the
    /// target, and the first nonce.
    pub fn batch_params(&self, header: &BlockHeader, search: &GpuSearch) -> (params: GpuParams)
        ensures
            forall|i: int|
                0 <= i < 19 ==> #[trigger] params.header_prefix[i] == spec_le_word(
                    BlockHeader::wire(header@),
                    i,
                ),
            params.target_be@ == spec_be_words(spec_target_bytes(self.spec_bits())),
            params.start_nonce == search.spec_start_nonce(),
    {
        proof {
            use_type_invariant(self);
            assert(self.target_be@ =~= spec_be_words(spec_target_bytes(self.bits)));
        }
        let raw = header.serialize();
        let mut header_prefix = [0u32; 19];
        let mut i: usize = 0;
        while i < 19
            invariant
                i <= 19,
                raw@.len() == 80,
                forall|j: int| 0 <= j < i ==> #[trigger] header_prefix[j] == spec_le_word(raw@, j),
            decreases 19 - i,
        {
            header_prefix[i] = u32_from_le_bytes(slice_subrange(raw.as_slice(), i * 4, i * 4 + 4));
            i = i + 1;
        }
        GpuParams { header_prefix, target_be: self.target_be, start_nonce: search.start_nonce }
    }

    /// Decides what follows a batch.
    ///
    /// A claimed nonce is checked on the CPU; where it does not win, the 256
    /// nonces after it are tried. The first winner ends the search, with the
    /// nonce left in the header. Without a winner the search moves on by one
    /// batch, or ends without success where the nonces are used up. The
    /// attempts count the batches run, and the nonces tried after a wrong
    /// claim up to the winner.
    pub fn after_batch(&self, header: &mut BlockHeader, search: GpuSearch, result: &GpuResult) -> (step:
        GpuStep)
        ensures
            final(header)@ == old(header)@.with_nonce(final(header).nonce),
            match spec_accepted(old(header)@, self.spec_bits(), *result) {
                Some((nonce, extra)) => step matches GpuStep::Done(done) && done.success
                    && done.nonce == nonce && final(header).nonce == nonce && done.hash@
                    == final(header)@.hash() && done.attempts == search.spec_start_nonce()
                    + NONCES_PER_DISPATCH + extra,
                None => if search.spec_start_nonce() + NONCES_PER_DISPATCH > u32::MAX {
                    step matches GpuStep::Done(done) && !done.success && done.nonce == 0
                        && done.hash@ == Hash256::spec_zero() && done.attempts
                        == search.spec_start_nonce() + NONCES_PER_DISPATCH
                } else {
                    step matches GpuStep::NextBatch(next) && next.spec_start_nonce()
                        == search.spec_start_nonce() + NONCES_PER_DISPATCH
                },
            },
    {
        let ghost before = header@;
        let target = Target::from_bits(self.bits);
        let total_attempts: u64 = search.start_nonce as u64 + NONCES_PER_DISPATCH as u64;
        if result.found != 0 {
            header.nonce = result.nonce;
            let hash = header.hash();
            if target.is_valid_hash(&hash) {
                return GpuStep::Done(
                    MiningResult {
                        success: true,
                        nonce: result.nonce,
                        hash,
                        attempts: total_attempts,
                        duration: search.started.elapsed(),
                    },
                );
            }
            let mut offset: u32 = 1;
            while offset <= SWEEP_LENGTH
                invariant
                    1 <= offset <= SWEEP_LENGTH + 1,
                    before == old(header)@,
                    header@ == before.with_nonce(header.nonce),
                    target.bits == self.spec_bits(),
                    total_attempts == search.spec_start_nonce() + NONCES_PER_DISPATCH,
                    spec_accepted(before, self.spec_bits(), *result) == spec_sweep(
                        before,
                        self.spec_bits(),
                        result.nonce,
                        offset as int,
                    ),
                decreases SWEEP_LENGTH + 1 - offset,
            {
                let nonce: u32 = ((result.nonce as u64 + offset as u64) % 0x1_0000_0000) as u32;
                header.nonce = nonce;
                let hash = header.hash();
                if target.is_valid_hash(&hash) {
                    return GpuStep::Done(
                        MiningResult {
                            success: true,
                            nonce,
                            hash,
                            attempts: total_attempts + offset as u64,
                            duration: search.started.elapsed(),
                        },
                    );
                }
                offset = offset + 1;
            }
        }
        if search.start_nonce > u32::MAX - NONCES_PER_DISPATCH {
            GpuStep::Done(
                MiningResult {
                    success: false,
                    nonce: 0,
                    hash: Hash256::zero(),
                    attempts: total_attempts,
                    duration: search.started.elapsed(),
                },
            )
        } else {
            GpuStep::NextBatch(
                GpuSearch {
                    start_nonce: search.start_nonce + NONCES_PER_DISPATCH,
                    started: search.started,
                },
            )
        }
    }
}

} // verus!
