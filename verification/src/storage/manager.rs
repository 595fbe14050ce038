//! The two stores of a node, side by side.

use crate::chain::block::{candidate_block, Block, BlockView};
use crate::chain::transaction::TxOutput;
use crate::consensus::pow::{nonce_wins, Miner, MiningResult};
use crate::error::ErrorKind;
use crate::primitives::serialize::{Serializable, Wire};
use crate::primitives::types::Hash256;
use crate::storage::blockchain_db::{
    block_key, chain_height_key, height_key, lemma_stored_block_is_found, spec_get_block,
    spec_get_block_by_height, spec_get_chain_height, spec_get_hash_by_height, spec_get_tip,
    tip_key, BlockchainDB,
};
use crate::storage::kv::{lemma_lookup_upsert_other, lemma_lookup_upsert_same, lookup, upsert};
use crate::storage::utxo_set::{OutPoint, OutPointView, Utxo, UtxoSet, UtxoView};
use vstd::bytes::{lemma_auto_spec_u32_to_from_le_bytes, spec_u32_to_le_bytes};
use vstd::prelude::*;
use vstd::string::StringExecFns;

verus! {

/// The entries of the block store after a block is appended at a height: the
/// body under its hash, the hash under the height, the tip, and the chain
/// height one above the height.
pub open spec fn chain_after_append(entries: Seq<(Seq<u8>, Seq<u8>)>, block: BlockView, height: u32) -> Seq<
    (Seq<u8>, Seq<u8>),
> {
    let hash = block.header.hash();
    let e1 = upsert(entries, block_key(hash), Block::spec_serialize(block));
    let e2 = upsert(e1, height_key(height), hash);
    let e3 = upsert(e2, tip_key(), hash);
    upsert(e3, chain_height_key(), spec_u32_to_le_bytes((height + 1) as u32))
}

/// The entries of the set of unspent outputs after the first output of a
/// block's coinbase is added.
pub open spec fn utxos_after_append(entries: Seq<(Seq<u8>, Seq<u8>)>, block: BlockView, height: u32) -> Seq<
    (Seq<u8>, Seq<u8>),
> {
    let coinbase = block.transactions[0];
    upsert(
        entries,
        OutPoint::spec_to_bytes(OutPointView { txid: coinbase.txid(), vout: 0 }),
        Utxo::spec_to_bytes(UtxoView { output: coinbase.outputs[0], height, is_coinbase: true }),
    )
}

/// Whether a block can be appended at a height: its first transaction has
/// an output, and the height leaves room for the chain height above it.
pub open spec fn can_append(block: BlockView, height: u32) -> bool {
    &&& block.transactions.len() >= 1
    &&& block.transactions[0].outputs.len() >= 1
    &&& height < u32::MAX
}

/// Whether the block store holds a chain: below the chain height every
/// height indexes a hash under which a block with that hash is stored, and
/// the tip is the hash at the greatest height, or absent where the chain is
/// empty.
pub open spec fn chain_consistent(entries: Seq<(Seq<u8>, Seq<u8>)>) -> bool {
    match spec_get_chain_height(entries) {
        Ok(count) => {
            &&& forall|h: u32|
                h < count ==> #[trigger] block_indexed_at(entries, h)
            &&& count > 0 ==> spec_get_tip(entries) == spec_get_hash_by_height(
                entries,
                (count - 1) as u32,
            )
            &&& count == 0 ==> spec_get_tip(entries) == Ok::<Option<Seq<u8>>, ErrorKind>(None)
        },
        Err(_) => false,
    }
}

/// Whether a height indexes a hash under which a block with that hash is
/// stored.
pub open spec fn block_indexed_at(entries: Seq<(Seq<u8>, Seq<u8>)>, height: u32) -> bool {
    match spec_get_hash_by_height(entries, height) {
        Ok(Some(hash)) => match spec_get_block(entries, hash) {
            Ok(Some(block)) => block.header.hash() == hash,
            _ => false,
        },
        _ => false,
    }
}

/// An empty block store holds the empty chain.
pub proof fn lemma_empty_chain_consistent()
    ensures
        chain_consistent(Seq::empty()),
{
}

/// Appending a block at the chain height keeps the chain: every height below
/// still indexes a stored block with the indexed hash, the new height
/// indexes the new block, the new block is the tip, and the chain height is
/// one more.
pub proof fn lemma_append_keeps_chain(
    entries: Seq<(Seq<u8>, Seq<u8>)>,
    block: BlockView,
    height: u32,
)
    requires
        chain_consistent(entries),
        spec_get_chain_height(entries) == Ok::<u32, ErrorKind>(height),
        height < u32::MAX,
        Block::valid(block),
        block.header.hash().len() == 32,
    ensures
        chain_consistent(chain_after_append(entries, block, height)),
        spec_get_chain_height(chain_after_append(entries, block, height)) == Ok::<u32, ErrorKind>(
            (height + 1) as u32,
        ),
        spec_get_block_by_height(chain_after_append(entries, block, height), height) == Ok::<
            Option<BlockView>,
            ErrorKind,
        >(Some(block)),
        spec_get_tip(chain_after_append(entries, block, height)) == Ok::<
            Option<Seq<u8>>,
            ErrorKind,
        >(Some(block.header.hash())),
{
    lemma_auto_spec_u32_to_from_le_bytes();
    let hash = block.header.hash();
    let wire = Block::spec_serialize(block);
    let count = spec_u32_to_le_bytes((height + 1) as u32);
    let e1 = upsert(entries, block_key(hash), wire);
    let e2 = upsert(e1, height_key(height), hash);
    let e3 = upsert(e2, tip_key(), hash);
    let e4 = upsert(e3, chain_height_key(), count);
    assert(e4 == chain_after_append(entries, block, height));
    lemma_stored_block_is_found(entries, block, hash, height, (height + 1) as u32);
    lemma_lookup_upsert_same(e1, height_key(height), hash);
    lemma_lookup_upsert_other(e2, tip_key(), hash, height_key(height));
    lemma_lookup_upsert_other(e3, chain_height_key(), count, height_key(height));
    assert(height_key(height).len() == 5);
    assert(tip_key().len() == 3);
    assert(chain_height_key().len() == 6);
    assert(spec_get_hash_by_height(e4, height) == Ok::<Option<Seq<u8>>, ErrorKind>(Some(hash)));
    assert(block_indexed_at(e4, height));
    assert forall|h: u32| h < height + 1 implies #[trigger] block_indexed_at(e4, h) by {
        if h < height {
            assert(block_indexed_at(entries, h));
            assert(height_key(h) != height_key(height)) by {
                assert(height_key(h).skip(1) =~= spec_u32_to_le_bytes(h));
                assert(height_key(height).skip(1) =~= spec_u32_to_le_bytes(height));
            }
            assert(height_key(h).len() == 5);
            assert(block_key(hash).len() == 33);
            assert(tip_key().len() == 3);
            assert(chain_height_key().len() == 6);
            lemma_lookup_upsert_other(entries, block_key(hash), wire, height_key(h));
            lemma_lookup_upsert_other(e1, height_key(height), hash, height_key(h));
            lemma_lookup_upsert_other(e2, tip_key(), hash, height_key(h));
            lemma_lookup_upsert_other(e3, chain_height_key(), count, height_key(h));
            let old_hash = spec_get_hash_by_height(entries, h)->Ok_0->Some_0;
            assert(lookup(e4, height_key(h)) == lookup(entries, height_key(h)));
            assert(spec_get_hash_by_height(e4, h) == spec_get_hash_by_height(entries, h));
            assert(spec_get_hash_by_height(entries, h) == Ok::<Option<Seq<u8>>, ErrorKind>(
                Some(old_hash),
            ));
            if old_hash == hash {
                assert(block_indexed_at(e4, h));
            } else {
                assert(block_key(old_hash) != block_key(hash)) by {
                    assert(block_key(old_hash).skip(1) =~= old_hash);
                    assert(block_key(hash).skip(1) =~= hash);
                }
                assert(block_key(old_hash).len() == 33);
                lemma_lookup_upsert_other(entries, block_key(hash), wire, block_key(old_hash));
                lemma_lookup_upsert_other(e1, height_key(height), hash, block_key(old_hash));
                lemma_lookup_upsert_other(e2, tip_key(), hash, block_key(old_hash));
                lemma_lookup_upsert_other(e3, chain_height_key(), count, block_key(old_hash));
                assert(lookup(e4, block_key(old_hash)) == lookup(entries, block_key(old_hash)));
                assert(spec_get_block(e4, old_hash) == spec_get_block(entries, old_hash));
                assert(block_indexed_at(e4, h));
            }
        }
    }
    assert(spec_get_tip(e4) == spec_get_hash_by_height(e4, height));
}

/// The block store and the set of unspent outputs of one node.
pub struct Storage {
    /// Blocks, the height index, the tip and the chain height.
    pub blockchain: BlockchainDB,
    /// The unspent outputs.
    pub utxo_set: UtxoSet,
}

impl Storage {
    /// Opens the stores under the directory `path`: the block store in
    /// `blocks`, the unspent outputs in `utxo`.
    pub fn new(path: &str) -> (r: Result<Self, ErrorKind>)
        ensures
            r is Err ==> r->Err_0 == ErrorKind::StorageError,
    {
        let blocks_path = String::from_str(path).concat("/blocks");
        let utxo_path = String::from_str(path).concat("/utxo");
        let blockchain = BlockchainDB::new(blocks_path.as_str())?;
        let utxo_set = UtxoSet::new(utxo_path.as_str())?;
        Ok(Storage { blockchain, utxo_set })
    }

    /// Stores that live in memory and start empty.
    pub fn memory() -> (r: Result<Self, ErrorKind>)
        ensures
            r matches Ok(storage) ==> {
                &&& storage.blockchain@ == Seq::<(Seq<u8>, Seq<u8>)>::empty()
                &&& storage.utxo_set@ == Seq::<(Seq<u8>, Seq<u8>)>::empty()
            },
            r is Err ==> r->Err_0 == ErrorKind::StorageError,
    {
        let blockchain = BlockchainDB::memory()?;
        let utxo_set = UtxoSet::memory()?;
        Ok(Storage { blockchain, utxo_set })
    }

    /// Appends a block at `height`: stores its body, indexes its hash at the
    /// height, makes it the tip, records the chain height `height + 1`, adds
    /// the first output of its coinbase to the unspent outputs, and writes
    /// the block store to disk.
    ///
    /// A block whose first transaction has no output, or a height of
    /// `u32::MAX`, is refused as malformed and nothing is written. After a
    /// storage failure a part of the entries may have been written. A block
    /// store that holds a chain holds a chain again after a block is
    /// appended at its chain height.
    pub fn append_block(&mut self, block: &Block, height: u32) -> (r: Result<(), ErrorKind>)
        ensures
            !can_append(block@, height) ==> r is Err && r->Err_0 == ErrorKind::MalformedInput
                && final(self).blockchain@ == old(self).blockchain@ && final(self).utxo_set@
                == old(self).utxo_set@,
            can_append(block@, height) ==> match r {
                Ok(()) => final(self).blockchain@ == chain_after_append(
                    old(self).blockchain@,
                    block@,
                    height,
                ) && final(self).utxo_set@ == utxos_after_append(
                    old(self).utxo_set@,
                    block@,
                    height,
                ),
                Err(e) => e == ErrorKind::StorageError,
            },
            r is Ok && chain_consistent(old(self).blockchain@) && spec_get_chain_height(
                old(self).blockchain@,
            ) == Ok::<u32, ErrorKind>(height) ==> chain_consistent(final(self).blockchain@),
    {
        if block.transactions.len() == 0 || block.transactions[0].outputs.len() == 0 || height
            == u32::MAX {
            return Err(ErrorKind::MalformedInput);
        }
        let block_hash = block.hash();
        self.blockchain.store_block(block)?;
        proof {
            if chain_consistent(old(self).blockchain@) && spec_get_chain_height(
                old(self).blockchain@,
            ) == Ok::<u32, ErrorKind>(height) {
                lemma_append_keeps_chain(old(self).blockchain@, block@, height);
            }
        }
        self.blockchain.store_height(height, &block_hash)?;
        self.blockchain.store_tip(&block_hash)?;
        self.blockchain.store_chain_height(height + 1)?;
        let coinbase_tx = &block.transactions[0];
        let outpoint = OutPoint::new(coinbase_tx.txid(), 0);
        let utxo = Utxo::new(coinbase_tx.outputs[0].clone(), height, true);
        self.utxo_set.add_utxo(&outpoint, &utxo)?;
        self.blockchain.flush()?;
        Ok(())
    }

    /// Stores the first block at height 0 and returns it.
    pub fn init_genesis(&mut self) -> (r: Result<Block, ErrorKind>)
        ensures
            match r {
                Ok(genesis) => genesis@ == crate::chain::block::genesis_block()
                    && final(self).blockchain@ == chain_after_append(
                    old(self).blockchain@,
                    genesis@,
                    0,
                ) && final(self).utxo_set@ == utxos_after_append(old(self).utxo_set@, genesis@, 0),
                Err(e) => e == ErrorKind::StorageError,
            },
            r is Ok && old(self).blockchain@ == Seq::<(Seq<u8>, Seq<u8>)>::empty()
                ==> chain_consistent(final(self).blockchain@),
    {
        let genesis = Block::genesis();
        self.append_block(&genesis, 0)?;
        Ok(genesis)
    }

    /// Mines the next block on the CPU and appends it: takes the candidate on
    /// top of the tip, searches its nonce against the miner's target, which
    /// is also written into the header, and appends the mined block at the
    /// chain height. Returns the block, its height and the outcome of the
    /// search. Where no nonce meets the target, nothing is stored.
    pub fn mine_next_block(&mut self, miner: &Miner, reward_script: Vec<u8>, timestamp: u32) -> (r:
        Result<(Block, u32, MiningResult), ErrorKind>)
        ensures
            match r {
                Ok((block, height, result)) => {
                    let tip = spec_get_tip(old(self).blockchain@)->Ok_0->Some_0;
                    let candidate = candidate_block(
                        tip,
                        height,
                        reward_script@,
                        timestamp,
                        miner.spec_bits(),
                    );
                    &&& spec_get_tip(old(self).blockchain@) matches Ok(Some(_))
                    &&& spec_get_chain_height(old(self).blockchain@) == Ok::<u32, ErrorKind>(height)
                    &&& result.success
                    &&& result.hash@ == block@.header.hash()
                    &&& block@.transactions == candidate.transactions
                    &&& block@.header == candidate.header.with_nonce(result.nonce)
                    &&& nonce_wins(candidate.header, result.nonce, miner.spec_bits())
                    &&& forall|n: u32|
                        n < result.nonce ==> !nonce_wins(candidate.header, n, miner.spec_bits())
                    &&& final(self).blockchain@ == chain_after_append(
                        old(self).blockchain@,
                        block@,
                        height,
                    )
                    &&& final(self).utxo_set@ == utxos_after_append(
                        old(self).utxo_set@,
                        block@,
                        height,
                    )
                    &&& chain_consistent(old(self).blockchain@) ==> chain_consistent(
                        final(self).blockchain@,
                    )
                },
                Err(ErrorKind::MiningFailed) => {
                    &&& spec_get_tip(old(self).blockchain@) matches Ok(Some(tip))
                    &&& spec_get_chain_height(old(self).blockchain@) matches Ok(height)
                    &&& forall|n: u32|
                        !nonce_wins(
                            candidate_block(
                                tip,
                                height,
                                reward_script@,
                                timestamp,
                                miner.spec_bits(),
                            ).header,
                            n,
                            miner.spec_bits(),
                        )
                    &&& final(self).blockchain@ == old(self).blockchain@
                    &&& final(self).utxo_set@ == old(self).utxo_set@
                },
                Err(ErrorKind::NotInitialized) => spec_get_tip(old(self).blockchain@) == Ok::<
                    Option<Seq<u8>>,
                    ErrorKind,
                >(None) && final(self).blockchain@ == old(self).blockchain@,
                Err(e) => e == ErrorKind::StorageError || e == ErrorKind::MalformedInput,
            },
    {
        let bits = miner.target().bits;
        let (mut block, height) = self.next_candidate(reward_script, timestamp, bits)?;
        let result = miner.mine(&mut block.header);
        if !result.success {
            return Err(ErrorKind::MiningFailed);
        }
        self.append_block(&block, height)?;
        Ok((block, height, result))
    }

    /// The block that a miner starts from: on top of the tip, at the height
    /// that the chain height gives, paying the reward to `reward_script`.
    /// Returns the block and its height. The tip and the chain height are
    /// both read; what follows from them is [`Storage::candidate_on`].
    pub fn next_candidate(&self, reward_script: Vec<u8>, timestamp: u32, bits: u32) -> (r: Result<
        (Block, u32),
        ErrorKind,
    >)
        ensures
            r matches Err(ErrorKind::StorageError) || match spec_get_tip(self.blockchain@) {
                Err(e) => r matches Err(err) && err == e,
                Ok(tip) => match spec_get_chain_height(self.blockchain@) {
                    Err(e) => r matches Err(err) && err == e,
                    Ok(height) => match tip {
                        None => r matches Err(err) && err == ErrorKind::NotInitialized,
                        Some(hash) => r matches Ok(found) && found.1 == height && found.0@
                            == candidate_block(hash, height, reward_script@, timestamp, bits),
                    },
                },
            },
    {
        let tip = self.blockchain.get_tip()?;
        let height = self.blockchain.get_chain_height()?;
        Self::candidate_on(tip, height, reward_script, timestamp, bits)
    }

    /// The block that a miner starts from, given the tip and the chain
    /// height of a store: the candidate on top of the tip at that height,
    /// paying the reward to `reward_script`, and the height. A store without
    /// a tip is not initialised.
    pub fn candidate_on(
        tip: Option<Hash256>,
        height: u32,
        reward_script: Vec<u8>,
        timestamp: u32,
        bits: u32,
    ) -> (r: Result<(Block, u32), ErrorKind>)
        ensures
            match tip {
                None => r matches Err(err) && err == ErrorKind::NotInitialized,
                Some(hash) => r matches Ok(found) && found.1 == height && found.0@
                    == candidate_block(hash@, height, reward_script@, timestamp, bits),
            },
    {
        match tip {
            Some(prev_hash) => Ok(
                (Block::candidate(prev_hash, height, reward_script, timestamp, bits), height),
            ),
            None => Err(ErrorKind::NotInitialized),
        }
    }
}

} // verus!
