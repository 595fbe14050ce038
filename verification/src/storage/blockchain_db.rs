//! The block store: block bodies by hash, the height index, the tip and the
//! chain height, in one key-value database.
//!
//! Keys: `'b' ‖ hash` holds a serialized block, `'h' ‖ height` (little-endian)
//! the hash of the block at that height, `"tip"` the hash of the newest block
//! and `"height"` the number of blocks as a little-endian `u32`.

use crate::chain::block::{Block, BlockView};
use crate::error::ErrorKind;
use crate::primitives::bytes::{append, array32};
use crate::primitives::serialize::{write_u32, Serializable, Wire};
use crate::primitives::types::Hash256;
use crate::storage::kv::{
    db_contains_key, db_flush, db_get, db_insert, db_open, db_open_temporary,
    lemma_lookup_upsert_other, lemma_lookup_upsert_same, lookup, or_storage_error, stored, upsert,
};
use vstd::bytes::{
    lemma_auto_spec_u32_to_from_le_bytes, spec_u32_from_le_bytes, spec_u32_to_le_bytes,
    u32_from_le_bytes,
};
use vstd::prelude::*;

verus! {

/// The key of a block body.
pub open spec fn block_key(hash: Seq<u8>) -> Seq<u8> {
    seq![0x62u8] + hash
}

/// The key of a height index entry.
pub open spec fn height_key(height: u32) -> Seq<u8> {
    seq![0x68u8] + spec_u32_to_le_bytes(height)
}

/// The key of the tip: the text `tip`.
pub open spec fn tip_key() -> Seq<u8> {
    seq![0x74u8, 0x69u8, 0x70u8]
}

/// The key of the chain height: the text `height`.
pub open spec fn chain_height_key() -> Seq<u8> {
    seq![0x68u8, 0x65u8, 0x69u8, 0x67u8, 0x68u8, 0x74u8]
}

/// The block that the entries hold under a hash.
pub open spec fn spec_get_block(entries: Seq<(Seq<u8>, Seq<u8>)>, hash: Seq<u8>) -> Result<
    Option<BlockView>,
    ErrorKind,
> {
    match lookup(entries, block_key(hash)) {
        None => Ok(None),
        Some(bytes) => match Block::spec_deserialize(bytes) {
            Some(block) => Ok(Some(block)),
            None => Err(ErrorKind::MalformedInput),
        },
    }
}

/// Reads a value that must be a 32-byte hash.
pub open spec fn spec_hash_value(found: Option<Seq<u8>>) -> Result<Option<Seq<u8>>, ErrorKind> {
    match found {
        None => Ok(None),
        Some(bytes) => if bytes.len() == 32 {
            Ok(Some(bytes))
        } else {
            Err(ErrorKind::MalformedInput)
        },
    }
}

/// The hash that the entries index at a height.
pub open spec fn spec_get_hash_by_height(entries: Seq<(Seq<u8>, Seq<u8>)>, height: u32) -> Result<
    Option<Seq<u8>>,
    ErrorKind,
> {
    spec_hash_value(lookup(entries, height_key(height)))
}

/// The block that the entries hold at a height.
pub open spec fn spec_get_block_by_height(entries: Seq<(Seq<u8>, Seq<u8>)>, height: u32) -> Result<
    Option<BlockView>,
    ErrorKind,
> {
    match spec_get_hash_by_height(entries, height) {
        Ok(Some(hash)) => spec_get_block(entries, hash),
        Ok(None) => Ok(None),
        Err(e) => Err(e),
    }
}

/// The tip that the entries hold.
pub open spec fn spec_get_tip(entries: Seq<(Seq<u8>, Seq<u8>)>) -> Result<Option<Seq<u8>>, ErrorKind> {
    spec_hash_value(lookup(entries, tip_key()))
}

/// Reads a value that must be a little-endian `u32`; zero where there is
/// none.
pub open spec fn spec_chain_height_value(found: Option<Seq<u8>>) -> Result<u32, ErrorKind> {
    match found {
        None => Ok(0u32),
        Some(bytes) => if bytes.len() == 4 {
            Ok(spec_u32_from_le_bytes(bytes))
        } else {
            Err(ErrorKind::MalformedInput)
        },
    }
}

/// The chain height that the entries hold; zero where none was stored.
pub open spec fn spec_get_chain_height(entries: Seq<(Seq<u8>, Seq<u8>)>) -> Result<u32, ErrorKind> {
    spec_chain_height_value(lookup(entries, chain_height_key()))
}

/// What a lookup of a block returned, over views.
pub open spec fn block_outcome(r: Result<Option<Block>, ErrorKind>) -> Result<
    Option<BlockView>,
    ErrorKind,
> {
    match r {
        Ok(Some(block)) => Ok(Some(block@)),
        Ok(None) => Ok(None),
        Err(e) => Err(e),
    }
}

/// What a lookup of a hash returned, over views.
pub open spec fn hash_outcome(r: Result<Option<Hash256>, ErrorKind>) -> Result<
    Option<Seq<u8>>,
    ErrorKind,
> {
    match r {
        Ok(Some(hash)) => Ok(Some(hash@)),
        Ok(None) => Ok(None),
        Err(e) => Err(e),
    }
}

/// After a block is stored under its hash, its hash indexed at a height, the
/// tip set to its hash and the chain height recorded, the block is found by
/// its hash and by that height, its hash is the tip, and the chain height is
/// the one recorded.
pub proof fn lemma_stored_block_is_found(
    entries: Seq<(Seq<u8>, Seq<u8>)>,
    block: BlockView,
    hash: Seq<u8>,
    height: u32,
    chain_height: u32,
)
    requires
        Block::valid(block),
        hash == block.header.hash(),
        hash.len() == 32,
    ensures
        ({
            let e1 = upsert(entries, block_key(hash), Block::spec_serialize(block));
            let e2 = upsert(e1, height_key(height), hash);
            let e3 = upsert(e2, tip_key(), hash);
            let e4 = upsert(e3, chain_height_key(), spec_u32_to_le_bytes(chain_height));
            &&& spec_get_block(e3, hash) == Ok::<Option<BlockView>, ErrorKind>(Some(block))
            &&& spec_get_block_by_height(e3, height) == Ok::<Option<BlockView>, ErrorKind>(
                Some(block),
            )
            &&& spec_get_tip(e3) == Ok::<Option<Seq<u8>>, ErrorKind>(Some(hash))
            &&& spec_get_block(e4, hash) == Ok::<Option<BlockView>, ErrorKind>(Some(block))
            &&& spec_get_block_by_height(e4, height) == Ok::<Option<BlockView>, ErrorKind>(
                Some(block),
            )
            &&& spec_get_tip(e4) == Ok::<Option<Seq<u8>>, ErrorKind>(Some(hash))
            &&& spec_get_chain_height(e4) == Ok::<u32, ErrorKind>(chain_height)
        }),
{
    lemma_auto_spec_u32_to_from_le_bytes();
    let wire = Block::spec_serialize(block);
    let e1 = upsert(entries, block_key(hash), wire);
    let e2 = upsert(e1, height_key(height), hash);
    let e3 = upsert(e2, tip_key(), hash);
    let e4 = upsert(e3, chain_height_key(), spec_u32_to_le_bytes(chain_height));
    assert(block_key(hash).len() == 33);
    assert(height_key(height).len() == 5);
    assert(tip_key().len() == 3);
    assert(chain_height_key().len() == 6);
    Block::lemma_serialize_round_trip(block);
    lemma_lookup_upsert_same(entries, block_key(hash), wire);
    lemma_lookup_upsert_other(e1, height_key(height), hash, block_key(hash));
    lemma_lookup_upsert_other(e2, tip_key(), hash, block_key(hash));
    lemma_lookup_upsert_other(e3, chain_height_key(), spec_u32_to_le_bytes(chain_height), block_key(hash));
    lemma_lookup_upsert_same(e1, height_key(height), hash);
    lemma_lookup_upsert_other(e2, tip_key(), hash, height_key(height));
    lemma_lookup_upsert_other(e3, chain_height_key(), spec_u32_to_le_bytes(chain_height), height_key(height));
    lemma_lookup_upsert_same(e2, tip_key(), hash);
    lemma_lookup_upsert_other(e3, chain_height_key(), spec_u32_to_le_bytes(chain_height), tip_key());
    lemma_lookup_upsert_same(e3, chain_height_key(), spec_u32_to_le_bytes(chain_height));
}

/// The block store.
pub struct BlockchainDB {
    db: sled::Db,
}

impl View for BlockchainDB {
    type V = Seq<(Seq<u8>, Seq<u8>)>;

    /// The entries of the store, in key order.
    closed spec fn view(&self) -> Seq<(Seq<u8>, Seq<u8>)> {
        stored(self.db)
    }
}

impl BlockchainDB {
    /// Opens the store in the directory `path`, creating it where there is
    /// none.
    pub fn new(path: &str) -> (r: Result<Self, ErrorKind>)
        ensures
            r is Err ==> r->Err_0 == ErrorKind::StorageError,
    {
        let db = or_storage_error(db_open(path))?;
        Ok(BlockchainDB { db })
    }

    /// A store that lives in memory and starts empty.
    pub fn memory() -> (r: Result<Self, ErrorKind>)
        ensures
            r matches Ok(store) ==> store@ == Seq::<(Seq<u8>, Seq<u8>)>::empty(),
            r is Err ==> r->Err_0 == ErrorKind::StorageError,
    {
        let db = or_storage_error(db_open_temporary())?;
        Ok(BlockchainDB { db })
    }

    /// Stores a block under its hash.
    pub fn store_block(&mut self, block: &Block) -> (r: Result<(), ErrorKind>)
        ensures
            r is Ok ==> final(self)@ == upsert(
                old(self)@,
                block_key(block@.header.hash()),
                Block::spec_serialize(block@),
            ),
            r is Err ==> r->Err_0 == ErrorKind::StorageError,
            Block::valid(block@),
            block@.header.hash().len() == 32,
    {
        let hash = block.hash();
        let serialized = block.serialize();
        let key = Self::block_key(&hash);
        or_storage_error(db_insert(&mut self.db, key.as_slice(), serialized.as_slice()))?;
        Ok(())
    }

    /// The block stored under a hash. A stored value that is no block is
    /// reported as malformed.
    pub fn get_block(&self, hash: &Hash256) -> (r: Result<Option<Block>, ErrorKind>)
        ensures
            block_outcome(r) == spec_get_block(self@, hash@) || r == Err::<
                Option<Block>,
                ErrorKind,
            >(ErrorKind::StorageError),
    {
        let key = Self::block_key(hash);
        match or_storage_error(db_get(&self.db, key.as_slice()))? {
            Some(data) => {
                let block = Block::deserialize(data.as_slice())?;
                Ok(Some(block))
            },
            None => Ok(None),
        }
    }

    /// Records that the block at `height` has the hash `hash`.
    pub fn store_height(&mut self, height: u32, hash: &Hash256) -> (r: Result<(), ErrorKind>)
        ensures
            r is Ok ==> final(self)@ == upsert(old(self)@, height_key(height), hash@),
            r is Err ==> r->Err_0 == ErrorKind::StorageError,
    {
        let key = Self::height_key(height);
        or_storage_error(db_insert(&mut self.db, key.as_slice(), hash.as_bytes().as_slice()))?;
        Ok(())
    }

    /// The hash of the block at a height.
    pub fn get_hash_by_height(&self, height: u32) -> (r: Result<Option<Hash256>, ErrorKind>)
        ensures
            hash_outcome(r) == spec_get_hash_by_height(self@, height) || r == Err::<
                Option<Hash256>,
                ErrorKind,
            >(ErrorKind::StorageError),
    {
        let key = Self::height_key(height);
        let found = or_storage_error(db_get(&self.db, key.as_slice()))?;
        Self::hash_value(found)
    }

    /// The block at a height.
    pub fn get_block_by_height(&self, height: u32) -> (r: Result<Option<Block>, ErrorKind>)
        ensures
            block_outcome(r) == spec_get_block_by_height(self@, height) || r == Err::<
                Option<Block>,
                ErrorKind,
            >(ErrorKind::StorageError),
    {
        match self.get_hash_by_height(height)? {
            Some(hash) => self.get_block(&hash),
            None => Ok(None),
        }
    }

    /// Sets the tip: the hash of the newest block.
    pub fn store_tip(&mut self, hash: &Hash256) -> (r: Result<(), ErrorKind>)
        ensures
            r is Ok ==> final(self)@ == upsert(old(self)@, tip_key(), hash@),
            r is Err ==> r->Err_0 == ErrorKind::StorageError,
    {
        let key = Self::tip_key();
        or_storage_error(db_insert(&mut self.db, key.as_slice(), hash.as_bytes().as_slice()))?;
        Ok(())
    }

    /// The tip, if one was set.
    pub fn get_tip(&self) -> (r: Result<Option<Hash256>, ErrorKind>)
        ensures
            hash_outcome(r) == spec_get_tip(self@) || r == Err::<Option<Hash256>, ErrorKind>(
                ErrorKind::StorageError,
            ),
    {
        let key = Self::tip_key();
        let found = or_storage_error(db_get(&self.db, key.as_slice()))?;
        Self::hash_value(found)
    }

    /// Records the chain height: the number of blocks.
    pub fn store_chain_height(&mut self, height: u32) -> (r: Result<(), ErrorKind>)
        ensures
            r is Ok ==> final(self)@ == upsert(
                old(self)@,
                chain_height_key(),
                spec_u32_to_le_bytes(height),
            ),
            r is Err ==> r->Err_0 == ErrorKind::StorageError,
    {
        let key = Self::chain_height_key();
        let mut value: Vec<u8> = Vec::new();
        write_u32(&mut value, height);
        assert(value@ =~= spec_u32_to_le_bytes(height));
        or_storage_error(db_insert(&mut self.db, key.as_slice(), value.as_slice()))?;
        Ok(())
    }

    /// Writes buffered entries to disk. The entries stay as they are.
    pub fn flush(&self) -> (r: Result<(), ErrorKind>)
        ensures
            r is Err ==> r->Err_0 == ErrorKind::StorageError,
    {
        or_storage_error(db_flush(&self.db))
    }

    /// The chain height; zero where none was recorded.
    pub fn get_chain_height(&self) -> (r: Result<u32, ErrorKind>)
        ensures
            r == spec_get_chain_height(self@) || r == Err::<u32, ErrorKind>(
                ErrorKind::StorageError,
            ),
    {
        let key = Self::chain_height_key();
        let found = or_storage_error(db_get(&self.db, key.as_slice()))?;
        Self::chain_height_value(found)
    }

    /// Whether a block is stored under a hash.
    pub fn has_block(&self, hash: &Hash256) -> (r: Result<bool, ErrorKind>)
        ensures
            r matches Ok(present) ==> present == (lookup(self@, block_key(hash@)) is Some),
            r is Err ==> r->Err_0 == ErrorKind::StorageError,
    {
        let key = Self::block_key(hash);
        or_storage_error(db_contains_key(&self.db, key.as_slice()))
    }

    /// Reads a stored value that must be a chain height: four bytes,
    /// little-endian. No value stands for a chain of no blocks.
    pub fn chain_height_value(found: Option<Vec<u8>>) -> (r: Result<u32, ErrorKind>)
        ensures
            r == spec_chain_height_value(
                match found {
                    Some(bytes) => Some(bytes@),
                    None => None,
                },
            ),
    {
        match found {
            Some(data) => {
                if data.len() != 4 {
                    return Err(ErrorKind::MalformedInput);
                }
                Ok(u32_from_le_bytes(data.as_slice()))
            },
            None => Ok(0),
        }
    }

    /// Reads a stored value that must be a 32-byte hash.
    pub fn hash_value(found: Option<Vec<u8>>) -> (r: Result<Option<Hash256>, ErrorKind>)
        ensures
            hash_outcome(r) == spec_hash_value(
                match found {
                    Some(bytes) => Some(bytes@),
                    None => None,
                },
            ),
    {
        match found {
            Some(data) => {
                if data.len() != 32 {
                    return Err(ErrorKind::MalformedInput);
                }
                let bytes = array32(data.as_slice(), 0);
                assert(data@.subrange(0, 32) =~= data@);
                Ok(Some(Hash256::new(bytes)))
            },
            None => Ok(None),
        }
    }

    /// The key bytes of a block body.
    fn block_key(hash: &Hash256) -> (key: Vec<u8>)
        ensures
            key@ == block_key(hash@),
    {
        let mut key: Vec<u8> = Vec::new();
        key.push(0x62);
        append(&mut key, hash.as_bytes().as_slice());
        key
    }

    /// The key bytes of a height index entry.
    fn height_key(height: u32) -> (key: Vec<u8>)
        ensures
            key@ == height_key(height),
    {
        let mut key: Vec<u8> = Vec::new();
        key.push(0x68);
        write_u32(&mut key, height);
        key
    }

    /// The key bytes of the tip.
    fn tip_key() -> (key: Vec<u8>)
        ensures
            key@ == tip_key(),
    {
        let mut key: Vec<u8> = Vec::new();
        key.push(0x74);
        key.push(0x69);
        key.push(0x70);
        assert(key@ =~= tip_key());
        key
    }

    /// The key bytes of the chain height.
    fn chain_height_key() -> (key: Vec<u8>)
        ensures
            key@ == chain_height_key(),
    {
        let mut key: Vec<u8> = Vec::new();
        key.push(0x68);
        key.push(0x65);
        key.push(0x69);
        key.push(0x67);
        key.push(0x68);
        key.push(0x74);
        assert(key@ =~= chain_height_key());
        key
    }
}

} // verus!
